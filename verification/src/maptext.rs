//! Splitting a map text into rows of glyphs.
//!
//! A map text is rows of glyphs separated by newlines; a single
//! trailing newline is tolerated (the empty row it would open is
//! dropped). Every other row counts, so an interior blank line makes
//! the map irregular unless all rows are empty.

use vstd::prelude::*;
use vstd::string::StrSliceExecFns;

verus! {

/// One scan step of the row splitter: `cur` is the row being gathered
/// when the scan reaches `s`.
pub open spec fn line_scan(s: Seq<char>, cur: Seq<char>) -> Seq<Seq<char>>
    decreases s.len(),
{
    if s.len() == 0 {
        seq![cur]
    } else if s[0] == '\n' {
        seq![cur] + line_scan(s.drop_first(), Seq::empty())
    } else {
        line_scan(s.drop_first(), cur.push(s[0]))
    }
}

/// The rows of a map text: split on newlines, with the empty row a
/// final newline would open dropped.
pub open spec fn spec_rows(s: Seq<char>) -> Seq<Seq<char>> {
    let ls = line_scan(s, Seq::empty());
    if ls.last().len() == 0 {
        ls.drop_last()
    } else {
        ls
    }
}

/// Every row is as long as the first.
pub open spec fn rows_rectangular(rows: Seq<Seq<char>>) -> bool {
    forall|i: int| 0 <= i < rows.len() ==> #[trigger] rows[i].len() == rows[0].len()
}

/// The width a row grid has: that of its first row.
pub open spec fn rows_width(rows: Seq<Seq<char>>) -> int {
    if rows.len() == 0 {
        0
    } else {
        rows[0].len() as int
    }
}

/// All rows joined in order.
pub open spec fn concat_rows(rows: Seq<Seq<char>>) -> Seq<char>
    decreases rows.len(),
{
    if rows.len() == 0 {
        Seq::empty()
    } else {
        concat_rows(rows.drop_last()) + rows.last()
    }
}

/// Split a map text into its rows.
pub fn split_rows(s: &str) -> (rows: Vec<Vec<char>>)
    ensures
        rows.deep_view() == spec_rows(s@),
{
    let n = s.unicode_len();
    let mut rows: Vec<Vec<char>> = Vec::new();
    let mut cur: Vec<char> = Vec::new();
    let mut i: usize = 0;
    proof {
        assert(s@.skip(0) =~= s@);
        assert(rows.deep_view() =~= Seq::<Seq<char>>::empty());
        assert(cur@ =~= Seq::<char>::empty());
    }
    while i < n
        invariant
            n == s@.len(),
            i <= n,
            line_scan(s@, Seq::empty()) == rows.deep_view() + line_scan(s@.skip(i as int), cur@),
        decreases n - i,
    {
        let ghost dv0 = rows.deep_view();
        let ghost cur0 = cur@;
        let c = s.get_char(i);
        proof {
            assert(s@.skip(i as int)[0] == s@[i as int]);
            assert(s@.skip(i as int).drop_first() =~= s@.skip(i as int + 1));
        }
        if c == '\n' {
            rows.push(cur);
            cur = Vec::new();
            proof {
                assert(rows.deep_view() =~~= dv0.push(cur0));
                assert(cur@ =~= Seq::<char>::empty());
                assert(dv0 + (seq![cur0] + line_scan(s@.skip(i as int + 1), Seq::empty())) =~= (
                dv0.push(cur0)) + line_scan(s@.skip(i as int + 1), Seq::empty()));
            }
        } else {
            cur.push(c);
            proof {
                assert(cur@ =~= cur0.push(s@[i as int]));
            }
        }
        i = i + 1;
    }
    proof {
        assert(s@.skip(n as int) =~= Seq::<char>::empty());
    }
    let ghost dv0 = rows.deep_view();
    let ghost cur0 = cur@;
    let last_empty = cur.len() == 0;
    rows.push(cur);
    proof {
        assert(rows.deep_view() =~~= dv0.push(cur0));
        assert(dv0 + seq![cur0] =~= dv0.push(cur0));
        assert(rows.deep_view() == line_scan(s@, Seq::empty()));
        assert(line_scan(s@, Seq::empty()).last() == cur0);
    }
    if last_empty {
        let ghost dv1 = rows.deep_view();
        let _dropped = rows.pop();
        proof {
            assert(rows.deep_view() =~~= dv1.drop_last());
            assert(rows.deep_view() == spec_rows(s@));
        }
    } else {
        proof {
            assert(rows.deep_view() == spec_rows(s@));
        }
    }
    rows
}

} // verus!
