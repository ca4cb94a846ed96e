//! The state-mutating systems: motion, view follow, and command apply.
//!
//! Each system is a total function over the registry with an exact
//! contract: the one column it writes is given pointwise by a spec
//! function of the columns it reads, and every other column is left
//! alone. A system that finds a population invariant broken (a tagged
//! entity missing a promised component) reports it before writing
//! anything, so a failed system never mutates the registry.

use vstd::prelude::*;

use crate::arith::add_clamped;
use crate::arith::clamp_i64;
use crate::arith::sub_clamped;
use crate::components::Position;
use crate::components::Size;
use crate::components::Velocity;
use crate::errors::SimError;
use crate::registry::Registry;
use crate::registry::same_but_positions;
use crate::registry::same_but_velocities;

verus! {

// ---------------------------------------------------------------- motion
/// The position an entity holds after one motion step: entities with
/// both a position and a velocity advance, everything else stays.
pub open spec fn moved_position(p: Option<Position>, v: Option<Velocity>) -> Option<Position> {
    if p is Some && v is Some {
        let p0 = p->Some_0;
        let v0 = v->Some_0;
        Some(Position { x: clamp_i64(p0.x + v0.dx), y: clamp_i64(p0.y + v0.dy) })
    } else {
        p
    }
}

/// The whole positions column after one motion step.
pub open spec fn motion_positions(
    poss: Seq<Option<Position>>,
    vels: Seq<Option<Velocity>>,
) -> Seq<Option<Position>> {
    Seq::new(poss.len(), |i: int| moved_position(poss[i], vels[i]))
}

/// Motion: `position += velocity`, component-wise, for every entity
/// carrying both; saturating at the ends of the coordinate range. No
/// bounds check against map edges is made.
pub fn motion(r: &mut Registry)
    requires
        old(r).wf(),
    ensures
        final(r).wf(),
        same_but_positions(*final(r), *old(r)),
        final(r).positions@ == motion_positions(old(r).positions@, old(r).velocities@),
{
    let ghost r0 = *r;
    let n = r.len();
    let mut e: usize = 0;
    while e < n
        invariant
            r.wf(),
            r0.wf(),
            n == r.entity_count(),
            e <= n,
            same_but_positions(*r, r0),
            forall|j: int|
                0 <= j < e ==> r.positions@[j] == moved_position(r0.positions@[j], r0.velocities@[j]),
            forall|j: int| e <= j < n ==> r.positions@[j] == r0.positions@[j],
        decreases n - e,
    {
        let pos = r.get_position(e);
        let vel = r.get_velocity(e);
        if pos.is_some() && vel.is_some() {
            let p = pos.unwrap();
            let v = vel.unwrap();
            let np = Position { x: add_clamped(p.x, v.dx), y: add_clamped(p.y, v.dy) };
            r.add_position(e, np);
        }
        e = e + 1;
    }
    proof {
        assert(r.positions@ =~= motion_positions(r0.positions@, r0.velocities@));
    }
}

// ----------------------------------------------------------- view follow
/// Half of `s`, rounded toward zero.
pub open spec fn half_trunc(s: int) -> int {
    if s >= 0 {
        s / 2
    } else {
        -((-s) / 2)
    }
}

/// Where the viewport lands on one axis: it trails the player by half
/// the viewport extent, but never past the low edge of the map.
pub open spec fn follow_axis(p: i64, s: i64) -> i64 {
    if p > half_trunc(s as int) {
        clamp_i64(p - half_trunc(s as int))
    } else {
        p
    }
}

/// The viewport position that follows a player at `p` with viewport
/// extent `s`.
pub open spec fn follow_target(p: Position, s: Size) -> Position {
    Position { x: follow_axis(p.x, s.w), y: follow_axis(p.y, s.h) }
}

/// The position of the first entity, in entity order from `i` on, that
/// carries the player tag and a position.
pub open spec fn first_player_pos(
    players: Seq<bool>,
    poss: Seq<Option<Position>>,
    i: int,
) -> Option<Position>
    decreases players.len() - i,
{
    if i < 0 || i >= players.len() {
        None
    } else if players[i] && poss[i] is Some {
        poss[i]
    } else {
        first_player_pos(players, poss, i + 1)
    }
}

/// Some view-tagged entity carries a size but no position.
pub open spec fn has_view_without_pos(
    poss: Seq<Option<Position>>,
    views: Seq<bool>,
    sizes: Seq<Option<Size>>,
) -> bool {
    exists|i: int| 0 <= i < poss.len() && views[i] && sizes[i] is Some && poss[i] is None
}

/// The positions column after the view-follow system runs: every
/// view-tagged entity with a size and a position is repositioned
/// relative to the first player; everything else stays.
pub open spec fn followed_entry(
    poss: Seq<Option<Position>>,
    views: Seq<bool>,
    sizes: Seq<Option<Size>>,
    pp: Position,
    j: int,
) -> Option<Position> {
    if views[j] && sizes[j] is Some && poss[j] is Some {
        Some(follow_target(pp, sizes[j]->Some_0))
    } else {
        poss[j]
    }
}

pub open spec fn follow_positions(
    poss: Seq<Option<Position>>,
    players: Seq<bool>,
    views: Seq<bool>,
    sizes: Seq<Option<Size>>,
) -> Seq<Option<Position>> {
    if first_player_pos(players, poss, 0) is Some {
        let pp = first_player_pos(players, poss, 0)->Some_0;
        Seq::new(poss.len(), |i: int| followed_entry(poss, views, sizes, pp, i))
    } else {
        poss
    }
}

/// Locate the position of the first player-tagged entity that has one.
fn find_first_player_pos(r: &Registry) -> (probe: Option<Position>)
    requires
        r.wf(),
    ensures
        probe == first_player_pos(r.players@, r.positions@, 0),
{
    let n = r.len();
    let mut e: usize = 0;
    while e < n
        invariant
            r.wf(),
            n == r.entity_count(),
            e <= n,
            first_player_pos(r.players@, r.positions@, 0) == first_player_pos(
                r.players@,
                r.positions@,
                e as int,
            ),
        decreases n - e,
    {
        if r.has(crate::components::ComponentKind::PlayerTag, e) {
            let pos = r.get_position(e);
            if pos.is_some() {
                return pos;
            }
        }
        e = e + 1;
    }
    None
}

/// Compute half of `s` rounded toward zero.
fn half_of(s: i64) -> (h: i64)
    ensures
        h == half_trunc(s as int),
{
    match s.checked_div(2) {
        Some(h) => h,
        None => 0,  // unreachable: dividing by two cannot leave the range
    }
}

/// View follow: reposition each viewport so it trails the first
/// player. Fails, without writing, when a view-tagged entity carries a
/// size but no position to update.
pub fn view_follow(r: &mut Registry) -> (res: Result<(), SimError>)
    requires
        old(r).wf(),
    ensures
        final(r).wf(),
        same_but_positions(*final(r), *old(r)),
        res is Ok <==> !(first_player_pos(old(r).players@, old(r).positions@, 0) is Some
            && has_view_without_pos(old(r).positions@, old(r).views@, old(r).sizes@)),
        res is Ok ==> final(r).positions@ == follow_positions(
            old(r).positions@,
            old(r).players@,
            old(r).views@,
            old(r).sizes@,
        ),
        res is Err ==> res == Err::<(), SimError>(SimError::ViewWithoutPosition) && final(r).positions@
            == old(r).positions@,
{
    let ghost r0 = *r;
    let n = r.len();

    let probe = find_first_player_pos(r);
    if probe.is_none() {
        return Ok(());
    }
    let pp = probe.unwrap();

    // validate before writing: every view with a size must have a position
    let mut e: usize = 0;
    while e < n
        invariant
            r.wf(),
            r0.wf(),
            *r == r0,
            r0 == *old(r),
            n == r.entity_count(),
            e <= n,
            first_player_pos(r0.players@, r0.positions@, 0) is Some,
            forall|j: int|
                0 <= j < e ==> !(r0.views@[j] && r0.sizes@[j] is Some && r0.positions@[j] is None),
        decreases n - e,
    {
        if r.has(crate::components::ComponentKind::ViewTag, e) {
            if r.get_size(e).is_some() && r.get_position(e).is_none() {
                proof {
                    assert(r0.views@[e as int] && r0.sizes@[e as int] is Some
                        && r0.positions@[e as int] is None);
                    assert(has_view_without_pos(r0.positions@, r0.views@, r0.sizes@));
                }
                return Err(SimError::ViewWithoutPosition);
            }
        }
        e = e + 1;
    }
    proof {
        assert(!has_view_without_pos(r0.positions@, r0.views@, r0.sizes@));
    }

    // reposition every viewport
    let mut e: usize = 0;
    while e < n
        invariant
            r.wf(),
            r0.wf(),
            n == r.entity_count(),
            e <= n,
            same_but_positions(*r, r0),
            pp == first_player_pos(r0.players@, r0.positions@, 0)->Some_0,
            first_player_pos(r0.players@, r0.positions@, 0) is Some,
            forall|j: int|
                0 <= j < e ==> r.positions@[j] == followed_entry(
                    r0.positions@,
                    r0.views@,
                    r0.sizes@,
                    pp,
                    j,
                ),
            forall|j: int| e <= j < n ==> r.positions@[j] == r0.positions@[j],
        decreases n - e,
    {
        let ghost prev = *r;
        let is_view = r.has(crate::components::ComponentKind::ViewTag, e);
        if is_view {
            let sz = r.get_size(e);
            if sz.is_some() && r.get_position(e).is_some() {
                let s = sz.unwrap();
                let np = Position { x: follow_at(pp.x, s.w), y: follow_at(pp.y, s.h) };
                r.add_position(e, np);
                proof {
                    assert(r.positions@ == prev.positions@.update(e as int, Some(np)));
                    assert(np == follow_target(pp, r0.sizes@[e as int]->Some_0));
                }
            }
        }
        proof {
            assert forall|j: int| 0 <= j < e + 1 implies r.positions@[j] == followed_entry(
                r0.positions@,
                r0.views@,
                r0.sizes@,
                pp,
                j,
            ) by {
                if j < e {
                    assert(r.positions@[j] == prev.positions@[j]);
                }
            }
        }
        e = e + 1;
    }
    proof {
        assert(r.positions@ =~= follow_positions(r0.positions@, r0.players@, r0.views@, r0.sizes@));
    }
    Ok(())
}

/// Compute [`follow_axis`].
fn follow_at(p: i64, s: i64) -> (np: i64)
    ensures
        np == follow_axis(p, s),
{
    let half = half_of(s);
    if p > half {
        sub_clamped(p, half)
    } else {
        p
    }
}

// --------------------------------------------------------- command apply
/// Some player-tagged entity carries no velocity.
pub open spec fn has_player_without_vel(players: Seq<bool>, vels: Seq<Option<Velocity>>) -> bool {
    exists|i: int| 0 <= i < players.len() && players[i] && vels[i] is None
}

/// The velocities column after a parsed `(dx, dy)` intent is applied:
/// the delta is added, saturating, onto the velocity of every player;
/// velocity is not reset between ticks, so commands compound.
pub open spec fn applied_entry(
    vels: Seq<Option<Velocity>>,
    players: Seq<bool>,
    dx: i64,
    dy: i64,
    j: int,
) -> Option<Velocity> {
    if players[j] && vels[j] is Some {
        let v = vels[j]->Some_0;
        Some(Velocity { dx: clamp_i64(v.dx + dx), dy: clamp_i64(v.dy + dy) })
    } else {
        vels[j]
    }
}

pub open spec fn applied_velocities(
    vels: Seq<Option<Velocity>>,
    players: Seq<bool>,
    dx: i64,
    dy: i64,
) -> Seq<Option<Velocity>> {
    Seq::new(vels.len(), |i: int| applied_entry(vels, players, dx, dy, i))
}

/// Command apply: add the accumulated `(dx, dy)` intent of this tick
/// onto the player velocity. Fails, without writing, when a
/// player-tagged entity carries no velocity to update.
pub fn command_apply(r: &mut Registry, dx: i64, dy: i64) -> (res: Result<(), SimError>)
    requires
        old(r).wf(),
    ensures
        final(r).wf(),
        same_but_velocities(*final(r), *old(r)),
        res is Ok <==> !has_player_without_vel(old(r).players@, old(r).velocities@),
        res is Ok ==> final(r).velocities@ == applied_velocities(
            old(r).velocities@,
            old(r).players@,
            dx,
            dy,
        ),
        res is Err ==> res == Err::<(), SimError>(SimError::PlayerWithoutVelocity) && final(r).velocities@
            == old(r).velocities@,
{
    let ghost r0 = *r;
    let n = r.len();

    // validate before writing: every player must have a velocity
    let mut e: usize = 0;
    while e < n
        invariant
            r.wf(),
            r0.wf(),
            *r == r0,
            r0 == *old(r),
            n == r.entity_count(),
            e <= n,
            forall|j: int| 0 <= j < e ==> !(r0.players@[j] && r0.velocities@[j] is None),
        decreases n - e,
    {
        if r.has(crate::components::ComponentKind::PlayerTag, e) {
            if r.get_velocity(e).is_none() {
                return Err(SimError::PlayerWithoutVelocity);
            }
        }
        e = e + 1;
    }
    proof {
        assert(!has_player_without_vel(r0.players@, r0.velocities@));
    }

    let mut e: usize = 0;
    while e < n
        invariant
            r.wf(),
            r0.wf(),
            n == r.entity_count(),
            e <= n,
            same_but_velocities(*r, r0),
            forall|j: int|
                0 <= j < e ==> r.velocities@[j] == applied_entry(
                    r0.velocities@,
                    r0.players@,
                    dx,
                    dy,
                    j,
                ),
            forall|j: int| e <= j < n ==> r.velocities@[j] == r0.velocities@[j],
        decreases n - e,
    {
        let ghost prev = *r;
        if r.has(crate::components::ComponentKind::PlayerTag, e) {
            let vel = r.get_velocity(e);
            if vel.is_some() {
                let v = vel.unwrap();
                let nv = Velocity { dx: add_clamped(v.dx, dx), dy: add_clamped(v.dy, dy) };
                r.add_velocity(e, nv);
            }
        }
        proof {
            assert forall|j: int| 0 <= j < e + 1 implies r.velocities@[j] == applied_entry(
                r0.velocities@,
                r0.players@,
                dx,
                dy,
                j,
            ) by {
                if j < e {
                    assert(r.velocities@[j] == prev.velocities@[j]);
                }
            }
        }
        e = e + 1;
    }
    proof {
        assert(r.velocities@ =~= applied_velocities(r0.velocities@, r0.players@, dx, dy));
    }
    Ok(())
}

} // verus!
