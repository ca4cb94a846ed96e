//! Laws of the simulation, stated and proved over the same spec
//! functions the public contracts use.

use vstd::prelude::*;

use crate::arith::clamp_i64;
use crate::components::ComponentKind;
use crate::components::Position;
use crate::components::Size;
use crate::components::Tile;
use crate::components::Velocity;
use crate::parser::is_space;
use crate::parser::is_verb;
use crate::parser::scan_deltas;
use crate::parser::spec_deltas;
use crate::parser::spec_tokens;
use crate::parser::token_scan;
use crate::registry::Registry;
use crate::render::first_view_state;
use crate::render::frame_cell;
use crate::render::frame_cols;
use crate::render::frame_rows;
use crate::render::layer_hit;
use crate::render::layer_match;
use crate::render::spec_frame;
use crate::systems::first_player_pos;
use crate::systems::follow_positions;
use crate::systems::followed_entry;
use crate::world::PLAYER_GLYPH;
use crate::world::VIEW_HEIGHT;
use crate::world::VIEW_WIDTH;
use crate::world::World;
use crate::world::initial_world;
use crate::world::lemma_population;
use crate::world::row_major_encodes;
use crate::world::tick_position;
use crate::world::tick_velocity;

verus! {

// ------------------------------------------------- unrecognized input
/// A scan over tokens none of which is a verb adds nothing.
proof fn lemma_scan_without_verbs(toks: Seq<Seq<char>>, dx: i64, dy: i64)
    requires
        forall|j: int| 0 <= j < toks.len() ==> !is_verb(#[trigger] toks[j]),
    ensures
        scan_deltas(toks, dx, dy) == (dx, dy),
    decreases toks.len(),
{
    if toks.len() > 0 {
        assert(!is_verb(toks[0]));
        assert(forall|j: int| 0 <= j < toks.skip(1).len() ==> !is_verb(#[trigger] toks.skip(1)[j]));
        lemma_scan_without_verbs(toks.skip(1), dx, dy);
    }
}

/// A command line of nothing but unrecognized tokens — the empty line
/// included — parses to `(0, 0)` and leaves any velocity exactly as it
/// was.
pub proof fn lemma_unrecognized_commands_change_nothing(input: Seq<char>, v: Velocity)
    requires
        forall|j: int|
            0 <= j < spec_tokens(input).len() ==> !is_verb(#[trigger] spec_tokens(input)[j]),
    ensures
        spec_deltas(spec_tokens(input)) == (0i64, 0i64),
        tick_velocity(v, input) == v,
{
    lemma_scan_without_verbs(spec_tokens(input), 0, 0);
    assert(clamp_i64(v.dx + 0) == v.dx);
    assert(clamp_i64(v.dy + 0) == v.dy);
    assert(tick_velocity(v, input) == v);
}

// ------------------------------------------- whitespace insensitivity
/// Tokens are unchanged by leading whitespace.
proof fn lemma_tokens_leading_ws(ws: Seq<char>, s: Seq<char>)
    requires
        forall|j: int| 0 <= j < ws.len() ==> is_space(#[trigger] ws[j]),
    ensures
        spec_tokens(ws + s) == spec_tokens(s),
    decreases ws.len(),
{
    if ws.len() == 0 {
        assert(ws + s =~= s);
    } else {
        assert((ws + s)[0] == ws[0]);
        assert((ws + s).drop_first() =~= ws.drop_first() + s);
        assert(forall|j: int|
            0 <= j < ws.drop_first().len() ==> is_space(#[trigger] ws.drop_first()[j]));
        lemma_tokens_leading_ws(ws.drop_first(), s);
    }
}

/// A scan of nothing but whitespace closes the gathered token and
/// finds no more.
proof fn lemma_scan_all_space(ws: Seq<char>, cur: Seq<char>)
    requires
        forall|j: int| 0 <= j < ws.len() ==> is_space(#[trigger] ws[j]),
    ensures
        token_scan(ws, cur) == (if cur.len() == 0 {
            Seq::<Seq<char>>::empty()
        } else {
            seq![cur]
        }),
    decreases ws.len(),
{
    if ws.len() > 0 {
        assert(is_space(ws[0]));
        assert(forall|j: int|
            0 <= j < ws.drop_first().len() ==> is_space(#[trigger] ws.drop_first()[j]));
        lemma_scan_all_space(ws.drop_first(), Seq::empty());
        if cur.len() > 0 {
            assert(seq![cur] + Seq::<Seq<char>>::empty() =~= seq![cur]);
        }
    }
}

/// Appending whitespace never changes a scan.
proof fn lemma_scan_trailing_ws(s: Seq<char>, ws: Seq<char>, cur: Seq<char>)
    requires
        forall|j: int| 0 <= j < ws.len() ==> is_space(#[trigger] ws[j]),
    ensures
        token_scan(s + ws, cur) == token_scan(s, cur),
    decreases s.len(),
{
    if s.len() == 0 {
        assert(s + ws =~= ws);
        lemma_scan_all_space(ws, cur);
    } else {
        assert((s + ws)[0] == s[0]);
        assert((s + ws).drop_first() =~= s.drop_first() + ws);
        if is_space(s[0]) {
            lemma_scan_trailing_ws(s.drop_first(), ws, Seq::empty());
        } else {
            lemma_scan_trailing_ws(s.drop_first(), ws, cur.push(s[0]));
        }
    }
}

/// Leading and trailing whitespace never change what a command line
/// parses to.
pub proof fn lemma_whitespace_insensitive(lead: Seq<char>, s: Seq<char>, trail: Seq<char>)
    requires
        forall|j: int| 0 <= j < lead.len() ==> is_space(#[trigger] lead[j]),
        forall|j: int| 0 <= j < trail.len() ==> is_space(#[trigger] trail[j]),
    ensures
        spec_tokens(lead + s + trail) == spec_tokens(s),
        spec_deltas(spec_tokens(lead + s + trail)) == spec_deltas(spec_tokens(s)),
{
    lemma_scan_trailing_ws(s, trail, Seq::empty());
    lemma_tokens_leading_ws(lead, s + trail);
    assert(lead + s + trail =~= lead + (s + trail));
}

// -------------------------------------------------- view-follow twice
/// The player probe reads the same position before and after a
/// view-follow pass, provided no entity is both player and viewport.
proof fn lemma_probe_stable(
    poss: Seq<Option<Position>>,
    players: Seq<bool>,
    views: Seq<bool>,
    sizes: Seq<Option<Size>>,
    i: int,
)
    requires
        players.len() == poss.len(),
        views.len() == poss.len(),
        sizes.len() == poss.len(),
        forall|e: int| 0 <= e < poss.len() ==> !(players[e] && views[e]),
        first_player_pos(players, poss, 0) is Some,
        0 <= i,
    ensures
        first_player_pos(players, follow_positions(poss, players, views, sizes), i)
            == first_player_pos(players, poss, i),
    decreases poss.len() - i,
{
    let poss1 = follow_positions(poss, players, views, sizes);
    if i < poss.len() {
        if players[i] {
            assert(poss1[i] == followed_entry(
                poss,
                views,
                sizes,
                first_player_pos(players, poss, 0)->Some_0,
                i,
            ));
            assert(!views[i]);
            assert(poss1[i] == poss[i]);
        }
        if !(players[i] && poss[i] is Some) {
            lemma_probe_stable(poss, players, views, sizes, i + 1);
        }
    }
}

/// Re-running view follow with the player unmoved leaves the viewport
/// where the first run put it, provided no entity is both player and
/// viewport.
pub proof fn lemma_view_follow_idempotent(
    poss: Seq<Option<Position>>,
    players: Seq<bool>,
    views: Seq<bool>,
    sizes: Seq<Option<Size>>,
)
    requires
        players.len() == poss.len(),
        views.len() == poss.len(),
        sizes.len() == poss.len(),
        forall|e: int| 0 <= e < poss.len() ==> !(players[e] && views[e]),
    ensures
        follow_positions(follow_positions(poss, players, views, sizes), players, views, sizes)
            == follow_positions(poss, players, views, sizes),
{
    let poss1 = follow_positions(poss, players, views, sizes);
    if first_player_pos(players, poss, 0) is Some {
        lemma_probe_stable(poss, players, views, sizes, 0);
        let pp = first_player_pos(players, poss, 0)->Some_0;
        assert(first_player_pos(players, poss1, 0) == first_player_pos(players, poss, 0));
        assert forall|e: int| 0 <= e < poss1.len() implies follow_positions(
            poss1,
            players,
            views,
            sizes,
        )[e] == poss1[e] by {
            assert(poss1[e] == followed_entry(poss, views, sizes, pp, e));
            assert(follow_positions(poss1, players, views, sizes)[e] == followed_entry(
                poss1,
                views,
                sizes,
                pp,
                e,
            ));
        }
        assert(follow_positions(poss1, players, views, sizes) =~= poss1);
    } else {
        assert(poss1 == poss);
    }
}

// ------------------------------------------------- accumulation law
/// One tick of the player state: the tick's parsed intent joins the
/// velocity, then the settled velocity joins the position, both
/// saturating.
pub open spec fn player_step(p: Position, v: Velocity, d: (i64, i64)) -> (Position, Velocity) {
    let v1 = Velocity { dx: clamp_i64(v.dx + d.0), dy: clamp_i64(v.dy + d.1) };
    let p1 = Position { x: clamp_i64(p.x + v1.dx), y: clamp_i64(p.y + v1.dy) };
    (p1, v1)
}

/// The player state after a sequence of per-tick intents, oldest
/// first.
pub open spec fn player_run(p: Position, v: Velocity, ds: Seq<(i64, i64)>) -> (Position, Velocity)
    decreases ds.len(),
{
    if ds.len() == 0 {
        (p, v)
    } else {
        let s1 = player_step(p, v, ds[0]);
        player_run(s1.0, s1.1, ds.drop_first())
    }
}

/// The mathematical x-velocity after `k` intents: the start velocity
/// plus every contribution so far.
pub open spec fn vel_x_at(v: Velocity, ds: Seq<(i64, i64)>, k: int) -> int
    decreases k,
{
    if k <= 0 {
        v.dx as int
    } else {
        vel_x_at(v, ds, k - 1) + ds[k - 1].0
    }
}

/// The mathematical y-velocity after `k` intents.
pub open spec fn vel_y_at(v: Velocity, ds: Seq<(i64, i64)>, k: int) -> int
    decreases k,
{
    if k <= 0 {
        v.dy as int
    } else {
        vel_y_at(v, ds, k - 1) + ds[k - 1].1
    }
}

/// The mathematical x-position after `k` ticks: the start position
/// plus the velocity of every motion step so far — the vector sum of
/// all accumulated contributions.
pub open spec fn pos_x_at(p: Position, v: Velocity, ds: Seq<(i64, i64)>, k: int) -> int
    decreases k,
{
    if k <= 0 {
        p.x as int
    } else {
        pos_x_at(p, v, ds, k - 1) + vel_x_at(v, ds, k)
    }
}

/// The mathematical y-position after `k` ticks.
pub open spec fn pos_y_at(p: Position, v: Velocity, ds: Seq<(i64, i64)>, k: int) -> int
    decreases k,
{
    if k <= 0 {
        p.y as int
    } else {
        pos_y_at(p, v, ds, k - 1) + vel_y_at(v, ds, k)
    }
}

/// Shifting the run by its first intent shifts the mathematical sums
/// by one.
proof fn lemma_sums_shift(
    p: Position,
    v: Velocity,
    p1: Position,
    v1: Velocity,
    ds: Seq<(i64, i64)>,
    k: int,
)
    requires
        ds.len() > 0,
        v1.dx == vel_x_at(v, ds, 1),
        v1.dy == vel_y_at(v, ds, 1),
        p1.x == pos_x_at(p, v, ds, 1),
        p1.y == pos_y_at(p, v, ds, 1),
        0 <= k <= ds.len() - 1,
    ensures
        vel_x_at(v1, ds.drop_first(), k) == vel_x_at(v, ds, k + 1),
        vel_y_at(v1, ds.drop_first(), k) == vel_y_at(v, ds, k + 1),
        pos_x_at(p1, v1, ds.drop_first(), k) == pos_x_at(p, v, ds, k + 1),
        pos_y_at(p1, v1, ds.drop_first(), k) == pos_y_at(p, v, ds, k + 1),
    decreases k,
{
    if k > 0 {
        lemma_sums_shift(p, v, p1, v1, ds, k - 1);
        assert(ds.drop_first()[k - 1] == ds[k]);
    }
}

/// The accumulation law: as long as no saturation bound is reached,
/// the final player position is the start position plus the vector
/// sum of all accumulated intent contributions applied over the
/// successive motion steps, and the final velocity is the start
/// velocity plus the sum of all intents.
pub proof fn lemma_position_accumulation(p: Position, v: Velocity, ds: Seq<(i64, i64)>)
    requires
        forall|k: int| 1 <= k <= ds.len() ==> i64::MIN <= #[trigger] vel_x_at(v, ds, k) <= i64::MAX,
        forall|k: int| 1 <= k <= ds.len() ==> i64::MIN <= #[trigger] vel_y_at(v, ds, k) <= i64::MAX,
        forall|k: int| 1 <= k <= ds.len() ==> i64::MIN <= #[trigger] pos_x_at(p, v, ds, k) <= i64::MAX,
        forall|k: int| 1 <= k <= ds.len() ==> i64::MIN <= #[trigger] pos_y_at(p, v, ds, k) <= i64::MAX,
    ensures
        player_run(p, v, ds).0.x == pos_x_at(p, v, ds, ds.len() as int),
        player_run(p, v, ds).0.y == pos_y_at(p, v, ds, ds.len() as int),
        player_run(p, v, ds).1.dx == vel_x_at(v, ds, ds.len() as int),
        player_run(p, v, ds).1.dy == vel_y_at(v, ds, ds.len() as int),
    decreases ds.len(),
{
    if ds.len() > 0 {
        let s1 = player_step(p, v, ds[0]);
        let p1 = s1.0;
        let v1 = s1.1;
        assert(vel_x_at(v, ds, 0) == v.dx as int);
        assert(vel_y_at(v, ds, 0) == v.dy as int);
        assert(pos_x_at(p, v, ds, 0) == p.x as int);
        assert(pos_y_at(p, v, ds, 0) == p.y as int);
        assert(vel_x_at(v, ds, 1) == v.dx + ds[0].0);
        assert(v1.dx == vel_x_at(v, ds, 1));
        assert(v1.dy == vel_y_at(v, ds, 1));
        assert(pos_x_at(p, v, ds, 1) == p.x + vel_x_at(v, ds, 1));
        assert(p1.x == pos_x_at(p, v, ds, 1));
        assert(p1.y == pos_y_at(p, v, ds, 1));
        let ds1 = ds.drop_first();
        assert forall|k: int| 1 <= k <= ds1.len() implies i64::MIN <= #[trigger] vel_x_at(
            v1,
            ds1,
            k,
        ) <= i64::MAX by {
            lemma_sums_shift(p, v, p1, v1, ds, k);
        }
        assert forall|k: int| 1 <= k <= ds1.len() implies i64::MIN <= #[trigger] vel_y_at(
            v1,
            ds1,
            k,
        ) <= i64::MAX by {
            lemma_sums_shift(p, v, p1, v1, ds, k);
        }
        assert forall|k: int| 1 <= k <= ds1.len() implies i64::MIN <= #[trigger] pos_x_at(
            p1,
            v1,
            ds1,
            k,
        ) <= i64::MAX by {
            lemma_sums_shift(p, v, p1, v1, ds, k);
        }
        assert forall|k: int| 1 <= k <= ds1.len() implies i64::MIN <= #[trigger] pos_y_at(
            p1,
            v1,
            ds1,
            k,
        ) <= i64::MAX by {
            lemma_sums_shift(p, v, p1, v1, ds, k);
        }
        lemma_position_accumulation(p1, v1, ds1);
        lemma_sums_shift(p, v, p1, v1, ds, ds.len() - 1);
    }
}

/// One tick moves the player by exactly one [`player_step`] driven by
/// the tick's parsed intent.
pub proof fn lemma_tick_is_player_step(p: Position, v: Velocity, input: Seq<char>)
    ensures
        tick_velocity(v, input) == player_step(p, v, spec_deltas(spec_tokens(input))).1,
        tick_position(p, tick_velocity(v, input)) == player_step(
            p,
            v,
            spec_deltas(spec_tokens(input)),
        ).0,
{
}

// ---------------------------------------------------- render round trip
/// A layer no entity of the first `n` draws on leaves the cell alone.
proof fn lemma_layer_none(r: Registry, tag: ComponentKind, ax: int, ay: int, n: int)
    requires
        forall|i: int| 0 <= i < n ==> !layer_match(r, tag, i, ax, ay),
    ensures
        layer_hit(r, tag, ax, ay, n) is None,
    decreases n,
{
    if n > 0 {
        lemma_layer_none(r, tag, ax, ay, n - 1);
    }
}

/// A layer exactly one entity draws on leaves that entity's glyph.
proof fn lemma_layer_single(r: Registry, tag: ComponentKind, ax: int, ay: int, e: int, n: int)
    requires
        0 <= e < n,
        layer_match(r, tag, e, ax, ay),
        forall|i: int| e < i < n ==> !layer_match(r, tag, i, ax, ay),
    ensures
        layer_hit(r, tag, ax, ay, n) == Some(r.tiles@[e]->Some_0.glyph),
    decreases n,
{
    if e < n - 1 {
        lemma_layer_single(r, tag, ax, ay, e, n - 1);
    }
}

/// A position encoding its cell in row-major order meets a target
/// cell exactly when the indices agree.
proof fn lemma_row_major_unique(
    p: Position,
    width: int,
    height: int,
    j: int,
    col: int,
    row: int,
)
    requires
        row_major_encodes(p, width, height, j),
        0 <= col < width,
        0 <= row < height,
    ensures
        (p.x == col && p.y == row) <==> j == row * width + col,
{
    reveal(row_major_encodes);
    if j == row * width + col {
        assert(p.x == col && p.y == row) by (nonlinear_arith)
            requires
                p.y * width + p.x == j,
                j == row * width + col,
                0 <= p.x < width,
                0 <= col < width,
                0 <= p.y,
                0 <= row,
        ;
    }
}

/// Round trip: a freshly built world, rendered after zero ticks,
/// reproduces its own map glyphs, with the player overlay at the
/// origin and blank cells beyond the map.
pub proof fn lemma_initial_render_round_trip(
    w: World,
    width: int,
    height: int,
    glyphs: Seq<char>,
)
    requires
        initial_world(w, width, height, glyphs),
    ensures
        spec_frame(w.registry).len() == VIEW_HEIGHT as int,
        forall|row: int|
            0 <= row < VIEW_HEIGHT ==> #[trigger] spec_frame(w.registry)[row].len()
                == VIEW_WIDTH as int,
        forall|row: int, col: int|
            0 <= row < VIEW_HEIGHT && 0 <= col < VIEW_WIDTH ==> #[trigger] spec_frame(
                w.registry,
            )[row][col] == (if row == 0 && col == 0 {
                PLAYER_GLYPH
            } else if col < width && row < height {
                glyphs[row * width + col]
            } else {
                ' '
            }),
{
    lemma_population(w);
    let reg = w.registry;
    let n = reg.entity_count() as int;
    let cells = w.map_width * w.map_height;
    assert(cells == width * height);
    assert(n == 2 + cells);
    assert(first_view_state(reg, 0) == first_view_state(reg, 1));
    assert(first_view_state(reg, 1) == Some(
        (Position { x: 0, y: 0 }, Size { w: VIEW_WIDTH, h: VIEW_HEIGHT }),
    ));
    assert(frame_rows(Size { w: VIEW_WIDTH, h: VIEW_HEIGHT }) == VIEW_HEIGHT as nat);
    assert(frame_cols(Size { w: VIEW_WIDTH, h: VIEW_HEIGHT }) == VIEW_WIDTH as nat);
    assert forall|i: int| 0 <= i < n implies !reg.nonplayers@[i] by {
        if 2 <= i {
            assert(w.cell_wf(i - 2));
        }
    }

    assert forall|row: int, col: int|
        0 <= row < VIEW_HEIGHT && 0 <= col < VIEW_WIDTH implies #[trigger] spec_frame(
        reg,
    )[row][col] == (if row == 0 && col == 0 {
        PLAYER_GLYPH
    } else if col < width && row < height {
        glyphs[row * width + col]
    } else {
        ' '
    }) by {
        assert(spec_frame(reg)[row][col] == frame_cell(reg, col, row));

        // the non-player layer is empty
        lemma_layer_none(reg, ComponentKind::NonPlayerTag, col, row, n);

        if row == 0 && col == 0 {
            // the player layer wins the origin cell
            assert(layer_match(reg, ComponentKind::PlayerTag, 0, 0, 0));
            assert forall|i: int| 0 < i < n implies !layer_match(
                reg,
                ComponentKind::PlayerTag,
                i,
                0,
                0,
            ) by {
                assert(!reg.players@[i]);
            }
            lemma_layer_single(reg, ComponentKind::PlayerTag, 0, 0, 0, n);
        } else {
            // the player sits at the origin only
            assert forall|i: int| 0 <= i < n implies !layer_match(
                reg,
                ComponentKind::PlayerTag,
                i,
                col,
                row,
            ) by {
                if i != 0 {
                    assert(!reg.players@[i]);
                }
            }
            lemma_layer_none(reg, ComponentKind::PlayerTag, col, row, n);
            if 0 <= col < width && 0 <= row < height {
                // exactly the matching map cell draws here
                let j = row * width + col;
                assert(0 <= j < width * height) by (nonlinear_arith)
                    requires
                        0 <= col < width,
                        0 <= row < height,
                        j == row * width + col,
                ;
                assert(w.cell_wf(j));
                lemma_row_major_unique(
                    reg.positions@[2 + j]->Some_0,
                    width,
                    height,
                    j,
                    col,
                    row,
                );
                assert(layer_match(reg, ComponentKind::ImmovableTag, 2 + j, col, row));
                assert forall|i: int| 2 + j < i < n implies !layer_match(
                    reg,
                    ComponentKind::ImmovableTag,
                    i,
                    col,
                    row,
                ) by {
                    assert(w.cell_wf(i - 2));
                    lemma_row_major_unique(
                        reg.positions@[i]->Some_0,
                        width,
                        height,
                        i - 2,
                        col,
                        row,
                    );
                }
                lemma_layer_single(reg, ComponentKind::ImmovableTag, col, row, 2 + j, n);
                assert(reg.tiles@[2 + j] == Some(Tile { glyph: glyphs[j] }));
            } else {
                // no map cell reaches outside the map
                assert forall|i: int| 0 <= i < n implies !layer_match(
                    reg,
                    ComponentKind::ImmovableTag,
                    i,
                    col,
                    row,
                ) by {
                    if 2 <= i < 2 + cells {
                        assert(w.cell_wf(i - 2));
                        reveal(row_major_encodes);
                    }
                }
                lemma_layer_none(reg, ComponentKind::ImmovableTag, col, row, n);
            }
        }
    }
}

// --------------------------------------------- velocity accumulation
/// After two command-free ticks the displacement is twice the
/// velocity: position keeps advancing because velocity persists.
pub proof fn lemma_two_quiet_ticks_double_displacement(
    p: Position,
    v: Velocity,
    input: Seq<char>,
)
    requires
        spec_deltas(spec_tokens(input)) == (0i64, 0i64),
        i64::MIN <= p.x + v.dx <= i64::MAX,
        i64::MIN <= p.y + v.dy <= i64::MAX,
        i64::MIN <= p.x + 2 * v.dx <= i64::MAX,
        i64::MIN <= p.y + 2 * v.dy <= i64::MAX,
    ensures
        ({
            let v1 = tick_velocity(v, input);
            let p1 = tick_position(p, v1);
            let v2 = tick_velocity(v1, input);
            let p2 = tick_position(p1, v2);
            &&& v1 == v
            &&& v2 == v
            &&& p2.x == p.x + 2 * v.dx
            &&& p2.y == p.y + 2 * v.dy
        }),
{
    assert(clamp_i64(v.dx + 0) == v.dx);
    assert(clamp_i64(v.dy + 0) == v.dy);
}

} // verus!
