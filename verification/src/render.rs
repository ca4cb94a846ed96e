//! The render system: a layered compositor with viewport clipping.
//!
//! The frame is sized to the viewport; every layer is drawn in
//! viewport-relative coordinates and clipped to the viewport
//! rectangle. Three layers are composited, later layers
//! overwriting earlier ones: immovable map cells, then non-player
//! actors, then the player; within one layer, later entities win. A
//! cell untouched by all three layers stays blank. The produced frame
//! is the only effect: the registry is read, never written.

use vstd::prelude::*;

use crate::components::ComponentKind;
use crate::components::Position;
use crate::components::Size;
use crate::registry::Registry;

verus! {

/// The blank glyph.
pub open spec fn blank() -> char {
    ' '
}

/// Entity `i` draws on absolute cell `(ax, ay)` of layer `tag`.
pub open spec fn layer_match(r: Registry, tag: ComponentKind, i: int, ax: int, ay: int) -> bool {
    &&& r.spec_has(tag, i)
    &&& r.tiles@[i] is Some
    &&& r.positions@[i] is Some
    &&& r.positions@[i]->Some_0.x == ax
    &&& r.positions@[i]->Some_0.y == ay
}

/// The glyph left on absolute cell `(ax, ay)` after the first `n`
/// entities of layer `tag` have drawn, in entity order.
pub open spec fn layer_hit(r: Registry, tag: ComponentKind, ax: int, ay: int, n: int) -> Option<
    char,
>
    decreases n,
{
    if n <= 0 {
        None
    } else if layer_match(r, tag, n - 1, ax, ay) {
        Some(r.tiles@[n - 1]->Some_0.glyph)
    } else {
        layer_hit(r, tag, ax, ay, n - 1)
    }
}

/// The glyph the compositor leaves on absolute cell `(ax, ay)`:
/// blank, painted over by the immovable layer, then the non-player
/// layer, then the player layer.
pub open spec fn frame_cell(r: Registry, ax: int, ay: int) -> char {
    let n = r.entity_count() as int;
    if layer_hit(r, ComponentKind::PlayerTag, ax, ay, n) is Some {
        layer_hit(r, ComponentKind::PlayerTag, ax, ay, n)->Some_0
    } else if layer_hit(r, ComponentKind::NonPlayerTag, ax, ay, n) is Some {
        layer_hit(r, ComponentKind::NonPlayerTag, ax, ay, n)->Some_0
    } else if layer_hit(r, ComponentKind::ImmovableTag, ax, ay, n) is Some {
        layer_hit(r, ComponentKind::ImmovableTag, ax, ay, n)->Some_0
    } else {
        blank()
    }
}

/// The position and size of the first view-tagged entity that has
/// both, in entity order from `i` on.
pub open spec fn first_view_state(r: Registry, i: int) -> Option<(Position, Size)>
    decreases r.entity_count() - i,
{
    if i < 0 || i >= r.entity_count() {
        None
    } else if r.views@[i] && r.positions@[i] is Some && r.sizes@[i] is Some {
        Some((r.positions@[i]->Some_0, r.sizes@[i]->Some_0))
    } else {
        first_view_state(r, i + 1)
    }
}

/// How many rows a viewport of size `s` shows.
pub open spec fn frame_rows(s: Size) -> nat {
    if s.h >= 0 {
        s.h as nat
    } else {
        0
    }
}

/// How many columns a viewport of size `s` shows.
pub open spec fn frame_cols(s: Size) -> nat {
    if s.w >= 0 {
        s.w as nat
    } else {
        0
    }
}

/// The whole rendered frame: one row of glyphs per viewport row, all
/// three layers composited viewport-relative; an empty sequence when
/// no viewport exists.
pub open spec fn spec_frame(r: Registry) -> Seq<Seq<char>> {
    if first_view_state(r, 0) is Some {
        let st = first_view_state(r, 0)->Some_0;
        let vp = st.0;
        let vs = st.1;
        Seq::new(
            frame_rows(vs),
            |ri: int| Seq::new(frame_cols(vs), |c: int| frame_cell(r, vp.x + c, vp.y + ri)),
        )
    } else {
        Seq::empty()
    }
}

/// Locate the first view-tagged entity with a position and a size.
fn find_first_view(r: &Registry) -> (st: Option<(Position, Size)>)
    requires
        r.wf(),
    ensures
        st == first_view_state(*r, 0),
{
    let n = r.len();
    let mut e: usize = 0;
    while e < n
        invariant
            r.wf(),
            n == r.entity_count(),
            e <= n,
            first_view_state(*r, 0) == first_view_state(*r, e as int),
        decreases n - e,
    {
        if r.has(ComponentKind::ViewTag, e) {
            let pos = r.get_position(e);
            let sz = r.get_size(e);
            if pos.is_some() && sz.is_some() {
                return Some((pos.unwrap(), sz.unwrap()));
            }
        }
        e = e + 1;
    }
    None
}

/// The glyph the last matching entity of layer `tag` leaves on the
/// absolute cell `(ax, ay)`.
fn layer_scan(r: &Registry, tag: ComponentKind, ax: i128, ay: i128) -> (res: Option<char>)
    requires
        r.wf(),
    ensures
        res == layer_hit(*r, tag, ax as int, ay as int, r.entity_count() as int),
{
    let n = r.len();
    let mut best: Option<char> = None;
    let mut e: usize = 0;
    while e < n
        invariant
            r.wf(),
            n == r.entity_count(),
            e <= n,
            best == layer_hit(*r, tag, ax as int, ay as int, e as int),
        decreases n - e,
    {
        if r.has(tag, e) {
            let t = r.get_tile(e);
            let p = r.get_position(e);
            if t.is_some() && p.is_some() {
                let pp = p.unwrap();
                if pp.x as i128 == ax && pp.y as i128 == ay {
                    best = Some(t.unwrap().glyph);
                }
            }
        }
        e = e + 1;
    }
    best
}

/// Composite the three layers on one absolute cell.
fn cell_value(r: &Registry, ax: i128, ay: i128) -> (c: char)
    requires
        r.wf(),
    ensures
        c == frame_cell(*r, ax as int, ay as int),
{
    match layer_scan(r, ComponentKind::PlayerTag, ax, ay) {
        Some(g) => g,
        None => match layer_scan(r, ComponentKind::NonPlayerTag, ax, ay) {
            Some(g) => g,
            None => match layer_scan(r, ComponentKind::ImmovableTag, ax, ay) {
                Some(g) => g,
                None => ' ',
            },
        },
    }
}

/// Render the whole frame. The frame is the return value; nothing is
/// printed and nothing in the registry changes.
pub fn render(r: &Registry) -> (frame: Vec<Vec<char>>)
    requires
        r.wf(),
        first_view_state(*r, 0) matches Some(st) ==> st.1.w <= usize::MAX && st.1.h <= usize::MAX,
    ensures
        frame.deep_view() == spec_frame(*r),
{
    let st = find_first_view(r);
    let mut frame: Vec<Vec<char>> = Vec::new();
    if st.is_none() {
        proof {
            assert(frame.deep_view() =~~= spec_frame(*r));
        }
        return frame;
    }
    let (vp, vs) = st.unwrap();
    let rows: usize = if vs.h >= 0 {
        vs.h as usize
    } else {
        0
    };
    let cols: usize = if vs.w >= 0 {
        vs.w as usize
    } else {
        0
    };
    let mut ri: usize = 0;
    while ri < rows
        invariant
            r.wf(),
            rows == frame_rows(vs),
            cols == frame_cols(vs),
            first_view_state(*r, 0) == Some::<(Position, Size)>((vp, vs)),
            ri <= rows,
            frame@.len() == ri,
            forall|a: int|
                0 <= a < ri ==> frame@[a]@.len() == cols && (forall|b: int|
                    0 <= b < cols ==> frame@[a]@[b] == frame_cell(*r, vp.x + b, vp.y + a)),
        decreases rows - ri,
    {
        let mut row: Vec<char> = Vec::new();
        let mut c: usize = 0;
        while c < cols
            invariant
                r.wf(),
                c <= cols,
                ri < rows,
                rows == frame_rows(vs),
                row@.len() == c,
                forall|b: int| 0 <= b < c ==> row@[b] == frame_cell(*r, vp.x + b, vp.y + ri),
            decreases cols - c,
        {
            let ax: i128 = vp.x as i128 + c as i128;
            let ay: i128 = vp.y as i128 + ri as i128;
            let g = cell_value(r, ax, ay);
            row.push(g);
            c = c + 1;
        }
        frame.push(row);
        ri = ri + 1;
    }
    proof {
        assert(frame.deep_view() =~~= spec_frame(*r));
    }
    frame
}

} // verus!
