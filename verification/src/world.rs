//! The world: the component registry, the shared command buffer, the
//! map dimensions and the validated schedule, advanced one tick at a
//! time.
//!
//! A world is populated at construction with exactly one player
//! (entity 0), exactly one viewport (entity 1) and one immovable cell
//! per map position (entities 2 onward); non-player actors may be
//! appended after the cells. One tick runs the canonical stages in
//! order — capture the command text, parse and apply it to the player
//! velocity, integrate motion, recompute the viewport, render — and
//! returns the frame; reading the command line and printing the frame
//! stay with the caller.

use vstd::prelude::*;
use vstd::string::StringExecFns;

use crate::arith::clamp_i64;
use crate::components::Position;
use crate::components::Size;
use crate::components::Tile;
use crate::components::Velocity;
use crate::errors::SimError;
use crate::maptext::concat_rows;
use crate::maptext::rows_rectangular;
use crate::maptext::rows_width;
use crate::maptext::spec_rows;
use crate::maptext::split_rows;
use crate::parser::parse_command;
use crate::parser::spec_deltas;
use crate::parser::spec_tokens;
use crate::registry::Registry;
use crate::render::first_view_state;
use crate::render::render;
use crate::render::spec_frame;
use crate::schedule::Schedule;
use crate::schedule::standard_order;
use crate::systems::command_apply;
use crate::systems::follow_target;
use crate::systems::motion;
use crate::systems::view_follow;

verus! {

/// Viewport width at construction.
pub const VIEW_WIDTH: i64 = 10;

/// Viewport height at construction.
pub const VIEW_HEIGHT: i64 = 10;

/// The glyph the player is drawn with.
pub const PLAYER_GLYPH: char = 'X';

/// Cell `j` of a `width` by `height` map sits at `p`: inside the map,
/// with `j` its row-major index. Kept opaque so the product stays out
/// of unrelated proofs; reveal `row_major_encodes` where it matters.
#[verifier::opaque]
pub open spec fn row_major_encodes(p: Position, width: int, height: int, j: int) -> bool {
    &&& 0 <= p.x < width
    &&& 0 <= p.y < height
    &&& p.y * width + p.x == j
}

/// `n` is the area of a `w` by `h` grid. Kept opaque so the product
/// stays out of unrelated proofs.
#[verifier::opaque]
pub open spec fn is_area(n: int, w: int, h: int) -> bool {
    n == w * h
}

/// `i` is the row-major index of column `x`, row `y` on a grid of
/// width `w`. Kept opaque for the same reason.
#[verifier::opaque]
pub open spec fn at_row_major(i: int, x: int, y: int, w: int) -> bool {
    i == y * w + x
}

/// The simulation state.
pub struct World {
    /// The component registry holding every entity.
    pub registry: Registry,
    /// The shared command buffer: overwritten by input capture each
    /// tick, read by command apply, reset to empty at construction.
    pub command: String,
    /// Width of the loaded map, in cells.
    pub map_width: usize,
    /// Height of the loaded map, in cells.
    pub map_height: usize,
    /// The validated stage order the tick runs.
    pub schedule: Schedule,
}

impl World {
    /// The population invariant: exactly one player (entity 0) with
    /// tile, position, velocity and unit size; exactly one viewport
    /// (entity 1) with position and the construction-time size; one
    /// immovable cell per map position, write-once, within map
    /// bounds; any further entity is a non-player actor.
    pub open spec fn wf(self) -> bool {
        let r = self.registry;
        let n = r.entity_count() as int;
        let cells = self.map_width * self.map_height;
        &&& r.wf()
        &&& self.schedule.wf()
        &&& standard_order(self.schedule)
        &&& self.map_width <= i64::MAX
        &&& self.map_height <= i64::MAX
        &&& 0 <= cells
        &&& n >= 2 + cells
        &&& r.players@[0]
        &&& r.tiles@[0] is Some
        &&& r.positions@[0] is Some
        &&& r.velocities@[0] is Some
        &&& r.sizes@[0] == Some(Size { w: 1, h: 1 })
        &&& !r.views@[0]
        &&& !r.immovables@[0]
        &&& !r.nonplayers@[0]
        &&& r.views@[1]
        &&& r.positions@[1] is Some
        &&& r.sizes@[1] == Some(Size { w: VIEW_WIDTH, h: VIEW_HEIGHT })
        &&& r.tiles@[1] is None
        &&& r.velocities@[1] is None
        &&& !r.players@[1]
        &&& !r.immovables@[1]
        &&& !r.nonplayers@[1]
        &&& forall|j: int| 0 <= j < cells ==> self.cell_wf(j)
        &&& forall|e: int| 2 + cells <= e < n ==> self.actor_wf(e)
    }

    /// How many non-player actors have been appended after the cells.
    pub open spec fn actor_count(self) -> int {
        self.registry.entity_count() - 2 - self.map_width * self.map_height
    }

    /// Map cell `j` (entity `2 + j`): immovable, with a tile, a unit
    /// size, and a position inside the map that encodes `j` in
    /// row-major order.
    pub open spec fn cell_wf(self, j: int) -> bool {
        let r = self.registry;
        let e = 2 + j;
        &&& r.immovables@[e]
        &&& r.tiles@[e] is Some
        &&& r.positions@[e] is Some
        &&& row_major_encodes(
            r.positions@[e]->Some_0,
            self.map_width as int,
            self.map_height as int,
            j,
        )
        &&& r.sizes@[e] == Some(Size { w: 1, h: 1 })
        &&& r.velocities@[e] is None
        &&& !r.players@[e]
        &&& !r.views@[e]
        &&& !r.nonplayers@[e]
    }

    /// Non-player actor at entity `e`: a tile and a position, nothing
    /// a system would move or follow.
    pub open spec fn actor_wf(self, e: int) -> bool {
        let r = self.registry;
        &&& r.nonplayers@[e]
        &&& r.tiles@[e] is Some
        &&& r.positions@[e] is Some
        &&& r.velocities@[e] is None
        &&& r.sizes@[e] is None
        &&& !r.players@[e]
        &&& !r.views@[e]
        &&& !r.immovables@[e]
    }
}

/// A world as [`World::from_map`] hands it over: the given map, the
/// player at the origin with zero velocity, the viewport at the
/// origin, an empty command buffer, and no actors yet.
pub open spec fn initial_world(w: World, width: int, height: int, glyphs: Seq<char>) -> bool {
    &&& w.wf()
    &&& w.map_width == width
    &&& w.map_height == height
    &&& glyphs.len() == width * height
    &&& w.command@ == Seq::<char>::empty()
    &&& w.registry.entity_count() == 2 + glyphs.len()
    &&& w.registry.tiles@[0] == Some(Tile { glyph: PLAYER_GLYPH })
    &&& w.registry.positions@[0] == Some(Position { x: 0, y: 0 })
    &&& w.registry.velocities@[0] == Some(Velocity { dx: 0, dy: 0 })
    &&& w.registry.positions@[1] == Some(Position { x: 0, y: 0 })
    &&& forall|j: int| 0 <= j < glyphs.len() ==> w.registry.tiles@[2 + j] == Some(
        Tile { glyph: glyphs[j] },
    )
}

/// Cell `j` has been populated: entity `2 + j` carries the immovable
/// tag, the map glyph, a unit size and the row-major position.
pub open spec fn built_cell(r: Registry, glyphs: Seq<char>, width: int, height: int, j: int) -> bool {
    &&& r.immovables@[2 + j]
    &&& r.tiles@[2 + j] == Some(Tile { glyph: glyphs[j] })
    &&& r.positions@[2 + j] is Some
    &&& row_major_encodes(r.positions@[2 + j]->Some_0, width, height, j)
    &&& r.sizes@[2 + j] == Some(Size { w: 1, h: 1 })
    &&& r.velocities@[2 + j] is None
    &&& !r.players@[2 + j]
    &&& !r.views@[2 + j]
    &&& !r.nonplayers@[2 + j]
}

/// Create one immovable map cell carrying glyph `g` at `(px, py)`.
fn add_cell(reg: &mut Registry, g: char, px: i64, py: i64)
    requires
        old(reg).wf(),
    ensures
        final(reg).wf(),
        final(reg).entity_count() == old(reg).entity_count() + 1,
        final(reg).tiles@.len() == old(reg).tiles@.len() + 1,
        final(reg).tiles@[old(reg).entity_count() as int] == Some(Tile { glyph: g }),
        forall|j: int| 0 <= j < old(reg).entity_count() ==> final(reg).tiles@[j] == old(
            reg,
        ).tiles@[j],
        final(reg).positions@ == old(reg).positions@.push(Some(Position { x: px, y: py })),
        final(reg).velocities@ == old(reg).velocities@.push(None),
        final(reg).sizes@ == old(reg).sizes@.push(Some(Size { w: 1, h: 1 })),
        final(reg).players@ == old(reg).players@.push(false),
        final(reg).views@ == old(reg).views@.push(false),
        final(reg).immovables@ == old(reg).immovables@.push(true),
        final(reg).nonplayers@ == old(reg).nonplayers@.push(false),
{
    let e = reg.spawn();
    reg.add_immovable_tag(e);
    reg.add_size(e, Size { w: 1, h: 1 });
    reg.add_position(e, Position { x: px, y: py });
    reg.add_tile(e, Tile { glyph: g });
    proof {
        assert(reg.positions@ =~= old(reg).positions@.push(Some(Position { x: px, y: py })));
        assert(reg.sizes@ =~= old(reg).sizes@.push(Some(Size { w: 1, h: 1 })));
        assert(reg.immovables@ =~= old(reg).immovables@.push(true));
    }
}

/// Consequences of the population invariant that the tick proofs use:
/// the player tag sits only on entity 0, the view tag only on entity
/// 1, and nothing past the viewport carries a velocity or misses a
/// position.
pub proof fn lemma_population(w: World)
    requires
        w.wf(),
    ensures
        forall|i: int| 0 <= i < w.registry.entity_count() && i != 0 ==> !w.registry.players@[i],
        forall|i: int| 0 <= i < w.registry.entity_count() && i != 1 ==> !w.registry.views@[i],
        forall|i: int| 2 <= i < w.registry.entity_count() ==> w.registry.velocities@[i] is None,
        forall|i: int| 2 <= i < w.registry.entity_count() ==> w.registry.positions@[i] is Some,
{
    let r = w.registry;
    let n = r.entity_count() as int;
    let cells = w.map_width * w.map_height;
    assert forall|i: int| 0 <= i < n && i != 0 implies !r.players@[i] by {
        if 2 <= i < 2 + cells {
            assert(w.cell_wf(i - 2));
        } else if 2 + cells <= i {
            assert(w.actor_wf(i));
        }
    }
    assert forall|i: int| 0 <= i < n && i != 1 implies !r.views@[i] by {
        if 2 <= i < 2 + cells {
            assert(w.cell_wf(i - 2));
        } else if 2 + cells <= i {
            assert(w.actor_wf(i));
        }
    }
    assert forall|i: int| 2 <= i < n implies r.velocities@[i] is None by {
        if i < 2 + cells {
            assert(w.cell_wf(i - 2));
        } else {
            assert(w.actor_wf(i));
        }
    }
    assert forall|i: int| 2 <= i < n implies r.positions@[i] is Some by {
        if i < 2 + cells {
            assert(w.cell_wf(i - 2));
        } else {
            assert(w.actor_wf(i));
        }
    }
}

impl World {
    /// Build a world from a rectangular map: `glyphs` holds the cell
    /// glyphs in row-major order. The dimension bounds are forced by
    /// the coordinate range.
    #[verifier::rlimit(100)]
    pub fn from_map(width: usize, height: usize, glyphs: Vec<char>) -> (w: World)
        requires
            glyphs@.len() == width * height,
            width <= i64::MAX,
            height <= i64::MAX,
        ensures
            initial_world(w, width as int, height as int, glyphs@),
    {
        let mut reg = Registry::new();

        let player = reg.spawn();
        reg.add_tile(player, Tile { glyph: PLAYER_GLYPH });
        reg.add_velocity(player, Velocity { dx: 0, dy: 0 });
        reg.add_position(player, Position { x: 0, y: 0 });
        reg.add_player_tag(player);
        reg.add_size(player, Size { w: 1, h: 1 });

        let view = reg.spawn();
        reg.add_position(view, Position { x: 0, y: 0 });
        reg.add_size(view, Size { w: VIEW_WIDTH, h: VIEW_HEIGHT });
        reg.add_view_tag(view);

        let total = glyphs.len();
        if total > 0 {
            proof {
                assert(width > 0) by {
                    if width == 0 {
                        assert(width * height == 0);
                    }
                }
            }
            let mut x: usize = 0;
            let mut y: usize = 0;
            let mut i: usize = 0;
            proof {
                assert(is_area(total as int, width as int, height as int)) by {
                    reveal(is_area);
                }
                assert(at_row_major(0, 0, 0, width as int)) by {
                    reveal(at_row_major);
                }
            }
            while i < total
                invariant
                    reg.wf(),
                    total == glyphs@.len(),
                    is_area(total as int, width as int, height as int),
                    0 < width <= i64::MAX,
                    height <= i64::MAX,
                    i <= total,
                    reg.entity_count() == 2 + i,
                    x < width,
                    at_row_major(i as int, x as int, y as int, width as int),
                    y <= i,
                    reg.players@[0],
                    reg.tiles@[0] == Some(Tile { glyph: PLAYER_GLYPH }),
                    reg.positions@[0] == Some(Position { x: 0, y: 0 }),
                    reg.velocities@[0] == Some(Velocity { dx: 0, dy: 0 }),
                    reg.sizes@[0] == Some(Size { w: 1, h: 1 }),
                    !reg.views@[0],
                    !reg.immovables@[0],
                    !reg.nonplayers@[0],
                    reg.views@[1],
                    reg.positions@[1] == Some(Position { x: 0, y: 0 }),
                    reg.sizes@[1] == Some(Size { w: VIEW_WIDTH, h: VIEW_HEIGHT }),
                    reg.tiles@[1] is None,
                    reg.velocities@[1] is None,
                    !reg.players@[1],
                    !reg.immovables@[1],
                    !reg.nonplayers@[1],
                    forall|j: int|
                        0 <= j < i ==> built_cell(reg, glyphs@, width as int, height as int, j),
                decreases total - i,
            {
                let ghost prev = reg;
                add_cell(&mut reg, glyphs[i], x as i64, y as i64);
                proof {
                    assert(row_major_encodes(
                        Position { x: x as i64, y: y as i64 },
                        width as int,
                        height as int,
                        i as int,
                    )) by {
                        reveal(row_major_encodes);
                        reveal(at_row_major);
                        reveal(is_area);
                        assert(y < height) by (nonlinear_arith)
                            requires
                                i == y * width + x,
                                i < width * height,
                                0 <= x,
                                0 < width,
                                0 <= y,
                        ;
                    }
                    assert forall|j: int| 0 <= j < i + 1 implies built_cell(
                        reg,
                        glyphs@,
                        width as int,
                        height as int,
                        j,
                    ) by {
                        if j < i {
                            assert(built_cell(prev, glyphs@, width as int, height as int, j));
                            assert(reg.tiles@[2 + j] == prev.tiles@[2 + j]);
                            assert(reg.positions@[2 + j] == prev.positions@[2 + j]);
                            assert(reg.sizes@[2 + j] == prev.sizes@[2 + j]);
                            assert(reg.velocities@[2 + j] == prev.velocities@[2 + j]);
                            assert(reg.immovables@[2 + j] == prev.immovables@[2 + j]);
                            assert(reg.players@[2 + j] == prev.players@[2 + j]);
                            assert(reg.views@[2 + j] == prev.views@[2 + j]);
                            assert(reg.nonplayers@[2 + j] == prev.nonplayers@[2 + j]);
                        } else {
                            assert(reg.tiles@[2 + j] == Some(Tile { glyph: glyphs@[j] }));
                            assert(reg.positions@[2 + j] == Some(
                                Position { x: x as i64, y: y as i64 },
                            ));
                        }
                    }
                }

                if x + 1 == width {
                    proof {
                        assert(at_row_major(i + 1, 0, y + 1, width as int)) by {
                            reveal(at_row_major);
                            assert((y + 1) * width == y * width + width) by (nonlinear_arith);
                        }
                    }
                    x = 0;
                    y = y + 1;
                } else {
                    proof {
                        assert(at_row_major(i + 1, x + 1, y as int, width as int)) by {
                            reveal(at_row_major);
                        }
                    }
                    x = x + 1;
                }
                i = i + 1;
            }
        }

        let w = World {
            registry: reg,
            command: String::new(),
            map_width: width,
            map_height: height,
            schedule: Schedule::standard(),
        };
        proof {
            assert forall|j: int| 0 <= j < width * height implies w.cell_wf(j) by {
                assert(built_cell(reg, glyphs@, width as int, height as int, j));
            }
            assert(w.wf());
            assert forall|j: int| 0 <= j < glyphs@.len() implies w.registry.tiles@[2 + j] == Some(
                Tile { glyph: glyphs@[j] },
            ) by {
                assert(built_cell(reg, glyphs@, width as int, height as int, j));
            }
        }
        w
    }

    /// Build a world from a map text: rows of glyphs separated by
    /// newlines, a single trailing newline tolerated. The rows must be
    /// rectangular, and the dimensions must fit the coordinate range;
    /// regularity is checked first.
    pub fn from_map_text(s: &str) -> (res: Result<World, SimError>)
        ensures
            res is Ok <==> rows_rectangular(spec_rows(s@)) && rows_width(spec_rows(s@))
                <= i64::MAX && spec_rows(s@).len() <= i64::MAX,
            res matches Ok(w) ==> initial_world(
                w,
                rows_width(spec_rows(s@)),
                spec_rows(s@).len() as int,
                concat_rows(spec_rows(s@)),
            ),
            !rows_rectangular(spec_rows(s@)) ==> res == Err::<World, SimError>(
                SimError::IrregularMap,
            ),
            rows_rectangular(spec_rows(s@)) && !(rows_width(spec_rows(s@)) <= i64::MAX
                && spec_rows(s@).len() <= i64::MAX) ==> res == Err::<World, SimError>(
                SimError::MapTooLarge,
            ),
    {
        let rows = split_rows(s);
        let ghost dv = rows.deep_view();
        let height = rows.len();
        proof {
            assert(dv.len() == rows@.len());
        }
        let width: usize = if height == 0 {
            0
        } else {
            rows[0].len()
        };
        proof {
            assert(height > 0 ==> dv[0] == rows@[0]@ && rows@[0].deep_view() =~= rows@[0]@);
            assert(width == rows_width(dv));
        }

        // regularity: every row as long as the first
        let mut i: usize = 0;
        while i < height
            invariant
                dv == rows.deep_view(),
                dv == spec_rows(s@),
                dv.len() == rows@.len(),
                height == rows@.len(),
                width as int == rows_width(dv),
                i <= height,
                forall|j: int| 0 <= j < i ==> dv[j].len() == width,
            decreases height - i,
        {
            proof {
                assert(dv[i as int] == rows@[i as int]@);
                assert(rows@[i as int].deep_view() =~= rows@[i as int]@);
            }
            if rows[i].len() != width {
                proof {
                    assert(dv[i as int].len() != rows_width(dv));
                    assert(!rows_rectangular(dv));
                }
                return Err(SimError::IrregularMap);
            }
            i = i + 1;
        }
        proof {
            assert forall|j: int| 0 <= j < dv.len() implies dv[j].len() == rows_width(dv) by {}
            assert(rows_rectangular(dv));
        }

        // the coordinate range bounds the dimensions
        if (width as u64) > (i64::MAX as u64) || (height as u64) > (i64::MAX as u64) {
            return Err(SimError::MapTooLarge);
        }

        // flatten the rows in order
        let mut glyphs: Vec<char> = Vec::new();
        let mut r: usize = 0;
        proof {
            assert(glyphs@ =~= concat_rows(dv.take(0)));
            assert(is_area(0, 0, width as int)) by {
                reveal(is_area);
            }
        }
        while r < height
            invariant
                dv == rows.deep_view(),
                dv.len() == rows@.len(),
                height == rows@.len(),
                r <= height,
                rows_rectangular(dv),
                width as int == rows_width(dv),
                glyphs@ == concat_rows(dv.take(r as int)),
                is_area(glyphs@.len() as int, r as int, width as int),
            decreases height - r,
        {
            let row_len = rows[r].len();
            proof {
                assert(dv[r as int] == rows@[r as int]@);
                assert(rows@[r as int].deep_view() =~= rows@[r as int]@);
                assert(row_len == dv[r as int].len());
            }
            let ghost g0 = glyphs@;
            let mut c: usize = 0;
            while c < row_len
                invariant
                    dv == rows.deep_view(),
                    r < rows@.len(),
                    row_len == rows@[r as int]@.len(),
                    dv[r as int] == rows@[r as int]@,
                    c <= row_len,
                    glyphs@ == g0 + rows@[r as int]@.take(c as int),
                decreases row_len - c,
            {
                let ch = rows[r][c];
                glyphs.push(ch);
                proof {
                    assert(rows@[r as int]@.take(c as int + 1) =~= rows@[r as int]@.take(
                        c as int,
                    ).push(rows@[r as int]@[c as int]));
                    assert(glyphs@ =~= g0 + rows@[r as int]@.take(c as int + 1));
                }
                c = c + 1;
            }
            proof {
                assert(rows@[r as int]@.take(row_len as int) =~= rows@[r as int]@);
                assert(dv.take(r as int + 1).drop_last() =~= dv.take(r as int));
                assert(dv.take(r as int + 1).last() == dv[r as int]);
                assert(glyphs@ =~= concat_rows(dv.take(r as int + 1)));
                assert(is_area(glyphs@.len() as int, r as int + 1, width as int)) by {
                    reveal(is_area);
                    assert((r + 1) * width == r * width + width) by (nonlinear_arith);
                }
            }
            r = r + 1;
        }
        proof {
            assert(dv.take(height as int) =~= dv);
            assert(glyphs@ == concat_rows(dv));
            assert(glyphs@.len() == width * height) by {
                reveal(is_area);
                assert(height * width == width * height) by (nonlinear_arith);
            }
        }
        Ok(World::from_map(width, height, glyphs))
    }

    /// Append a non-player actor: a glyph at a position, rendered but
    /// never moved by any system.
    pub fn spawn_actor(&mut self, glyph: char, x: i64, y: i64)
        requires
            old(self).wf(),
        ensures
            final(self).wf(),
            final(self).map_width == old(self).map_width,
            final(self).map_height == old(self).map_height,
            final(self).command == old(self).command,
            final(self).registry.entity_count() == old(self).registry.entity_count() + 1,
            final(self).registry.tiles@ == old(self).registry.tiles@.push(
                Some(Tile { glyph: glyph }),
            ),
            final(self).registry.positions@ == old(self).registry.positions@.push(
                Some(Position { x: x, y: y }),
            ),
            final(self).registry.velocities@ == old(self).registry.velocities@.push(None),
            final(self).registry.players@ == old(self).registry.players@.push(false),
            final(self).registry.views@ == old(self).registry.views@.push(false),
    {
        let e = self.registry.spawn();
        self.registry.add_nonplayer_tag(e);
        self.registry.add_tile(e, Tile { glyph });
        self.registry.add_position(e, Position { x, y });
        proof {
            assert(final(self).registry.tiles@ =~= old(self).registry.tiles@.push(
                Some(Tile { glyph: glyph }),
            ));
            assert(final(self).registry.positions@ =~= old(self).registry.positions@.push(
                Some(Position { x: x, y: y }),
            ));
            let cells = old(self).map_width * old(self).map_height;
            let n0 = old(self).registry.entity_count() as int;
            assert forall|j: int| 0 <= j < cells implies final(self).cell_wf(j) by {
                assert(old(self).cell_wf(j));
                assert(final(self).registry.tiles@[2 + j] == old(self).registry.tiles@[2 + j]);
                assert(final(self).registry.positions@[2 + j] == old(
                    self,
                ).registry.positions@[2 + j]);
            }
            assert forall|e: int|
                2 + cells <= e < n0 + 1 implies final(self).actor_wf(e) by {
                if e < n0 {
                    assert(old(self).actor_wf(e));
                    assert(final(self).registry.tiles@[e] == old(self).registry.tiles@[e]);
                    assert(final(self).registry.positions@[e] == old(self).registry.positions@[e]);
                } else {
                    assert(final(self).registry.tiles@[e] == Some(Tile { glyph: glyph }));
                    assert(final(self).registry.positions@[e] == Some(Position { x: x, y: y }));
                }
            }
            assert(final(self).wf());
        }
    }

    /// The player position, if the player still has one.
    pub fn player_position(&self) -> (p: Option<Position>)
        requires
            self.wf(),
        ensures
            p == self.registry.positions@[0],
    {
        self.registry.get_position(0)
    }

    /// The player velocity, if the player still has one.
    pub fn player_velocity(&self) -> (v: Option<Velocity>)
        requires
            self.wf(),
        ensures
            v == self.registry.velocities@[0],
    {
        self.registry.get_velocity(0)
    }

    /// The viewport position.
    pub fn view_position(&self) -> (p: Option<Position>)
        requires
            self.wf(),
        ensures
            p == self.registry.positions@[1],
    {
        self.registry.get_position(1)
    }

    /// Render the current state without advancing it.
    pub fn render_frame(&self) -> (frame: Vec<Vec<char>>)
        requires
            self.wf(),
        ensures
            frame.deep_view() == spec_frame(self.registry),
    {
        proof {
            assert(first_view_state(self.registry, 0) == first_view_state(self.registry, 1));
            assert(first_view_state(self.registry, 1) == Some(
                (
                    self.registry.positions@[1]->Some_0,
                    Size { w: VIEW_WIDTH, h: VIEW_HEIGHT },
                ),
            ));
        }
        render(&self.registry)
    }

    /// Advance the world by one tick driven by one line of command
    /// text, and return the rendered frame.
    ///
    /// The stages run in the canonical validated order: the command
    /// text overwrites the command buffer; its parsed intent is added
    /// onto the player velocity; motion advances positioned entities;
    /// the viewport recenters behind the player; the frame is
    /// composited and returned. Velocity is not reset, so commands
    /// compound across ticks.
    pub fn tick(&mut self, input: &str) -> (res: Result<Vec<Vec<char>>, SimError>)
        requires
            old(self).wf(),
        ensures
            final(self).wf(),
            res is Ok,
            final(self).map_width == old(self).map_width,
            final(self).map_height == old(self).map_height,
            final(self).command@ == input@,
            final(self).registry.entity_count() == old(self).registry.entity_count(),
            final(self).registry.tiles@ == old(self).registry.tiles@,
            final(self).registry.sizes@ == old(self).registry.sizes@,
            final(self).registry.players@ == old(self).registry.players@,
            final(self).registry.views@ == old(self).registry.views@,
            final(self).registry.immovables@ == old(self).registry.immovables@,
            final(self).registry.nonplayers@ == old(self).registry.nonplayers@,
            final(self).registry.velocities@ == old(self).registry.velocities@.update(
                0,
                Some(tick_velocity(old(self).registry.velocities@[0]->Some_0, input@)),
            ),
            final(self).registry.positions@[0] == Some(
                tick_position(
                    old(self).registry.positions@[0]->Some_0,
                    tick_velocity(old(self).registry.velocities@[0]->Some_0, input@),
                ),
            ),
            final(self).registry.positions@[1] == Some(
                follow_target(
                    tick_position(
                        old(self).registry.positions@[0]->Some_0,
                        tick_velocity(old(self).registry.velocities@[0]->Some_0, input@),
                    ),
                    Size { w: VIEW_WIDTH, h: VIEW_HEIGHT },
                ),
            ),
            forall|e: int|
                2 <= e < old(self).registry.entity_count() ==> final(self).registry.positions@[e]
                    == old(self).registry.positions@[e],
            res matches Ok(f) ==> f.deep_view() == spec_frame(final(self).registry),
    {
        let ghost w0 = *self;
        proof {
            lemma_population(w0);
        }

        // input capture: this tick's line overwrites the command buffer
        self.command = String::from_str(input);

        // command apply: parse the captured text, accumulate onto the
        // player velocity
        let (dx, dy) = parse_command(input);
        proof {
            assert(!crate::systems::has_player_without_vel(
                self.registry.players@,
                self.registry.velocities@,
            ));
        }
        let ar = command_apply(&mut self.registry, dx, dy);
        if ar.is_err() {
            // unreachable: the player always carries a velocity
            return Err(SimError::PlayerWithoutVelocity);
        }
        let ghost ra = self.registry;
        proof {
            let n = w0.registry.entity_count() as int;
            let v1 = tick_velocity(w0.registry.velocities@[0]->Some_0, input@);
            assert forall|j: int| 0 <= j < n implies ra.velocities@[j]
                == w0.registry.velocities@.update(0, Some(v1))[j] by {
                assert(ra.velocities@[j] == crate::systems::applied_entry(
                    w0.registry.velocities@,
                    w0.registry.players@,
                    dx,
                    dy,
                    j,
                ));
            }
            assert(ra.velocities@ =~= w0.registry.velocities@.update(0, Some(v1)));
        }

        // motion: integrate velocities into positions
        motion(&mut self.registry);
        let ghost rm = self.registry;
        proof {
            let n = rm.entity_count() as int;
            assert forall|e: int| 2 <= e < n implies rm.positions@[e]
                == w0.registry.positions@[e] by {
                assert(rm.positions@[e] == crate::systems::moved_position(
                    ra.positions@[e],
                    ra.velocities@[e],
                ));
                assert(ra.velocities@[e] is None);
            }
            assert(rm.positions@[1] == crate::systems::moved_position(
                ra.positions@[1],
                ra.velocities@[1],
            ));
            assert(rm.positions@[0] == crate::systems::moved_position(
                ra.positions@[0],
                ra.velocities@[0],
            ));
            assert(rm.positions@[1] == w0.registry.positions@[1]);
            assert(rm.positions@[0] == Some(
                tick_position(
                    w0.registry.positions@[0]->Some_0,
                    tick_velocity(w0.registry.velocities@[0]->Some_0, input@),
                ),
            ));
        }

        // view follow: recenter the viewport behind the player
        proof {
            assert(crate::systems::first_player_pos(rm.players@, rm.positions@, 0)
                == rm.positions@[0]);
            assert(!crate::systems::has_view_without_pos(rm.positions@, rm.views@, rm.sizes@))
                by {
                assert(forall|i: int|
                    0 <= i < rm.entity_count() && i != 1 ==> !rm.views@[i]);
            }
        }
        let vr = view_follow(&mut self.registry);
        if vr.is_err() {
            // unreachable: the viewport always carries a position
            return Err(SimError::ViewWithoutPosition);
        }
        proof {
            let n = self.registry.entity_count() as int;
            let pp = crate::systems::first_player_pos(rm.players@, rm.positions@, 0)->Some_0;
            assert forall|e: int| 0 <= e < n implies self.registry.positions@[e]
                == crate::systems::followed_entry(rm.positions@, rm.views@, rm.sizes@, pp, e) by {
                assert(self.registry.positions@[e] == crate::systems::follow_positions(
                    rm.positions@,
                    rm.players@,
                    rm.views@,
                    rm.sizes@,
                )[e]);
            }
            assert(self.registry.positions@[1] == Some(
                crate::systems::follow_target(pp, Size { w: VIEW_WIDTH, h: VIEW_HEIGHT }),
            ));
            assert forall|e: int| 2 <= e < n implies self.registry.positions@[e]
                == w0.registry.positions@[e] by {
                assert(!rm.views@[e]);
            }
            assert(self.registry.positions@[0] == rm.positions@[0]);

            // the population invariant survives the tick
            let cells = w0.map_width * w0.map_height;
            assert forall|j: int| 0 <= j < cells implies final(self).cell_wf(j) by {
                assert(w0.cell_wf(j));
                assert(self.registry.positions@[2 + j] == w0.registry.positions@[2 + j]);
                assert(self.registry.velocities@[2 + j] == w0.registry.velocities@[2 + j]);
            }
            assert forall|e: int|
                2 + cells <= e < n implies final(self).actor_wf(e) by {
                assert(w0.actor_wf(e));
                assert(self.registry.positions@[e] == w0.registry.positions@[e]);
                assert(self.registry.velocities@[e] == w0.registry.velocities@[e]);
            }
            assert(self.registry.velocities@[1] == w0.registry.velocities@[1]);
            assert(self.wf());
        }

        // render: composite the frame from the settled state
        proof {
            assert(first_view_state(self.registry, 0) == first_view_state(self.registry, 1));
        }
        let frame = render(&self.registry);
        Ok(frame)
    }
}

/// The player velocity after one tick driven by `input`: the parsed
/// intent added on, saturating.
pub open spec fn tick_velocity(v: Velocity, input: Seq<char>) -> Velocity {
    let d = spec_deltas(spec_tokens(input));
    Velocity { dx: clamp_i64(v.dx + d.0), dy: clamp_i64(v.dy + d.1) }
}

/// The player position after one tick in which its velocity settled
/// at `v`: advanced by `v`, saturating.
pub open spec fn tick_position(p: Position, v: Velocity) -> Position {
    Position { x: clamp_i64(p.x + v.dx), y: clamp_i64(p.y + v.dy) }
}

} // verus!
