//! The component registry: typed, parallel storage per component kind,
//! keyed by a dense entity identifier.
//!
//! An entity is an index into eight parallel columns, one per
//! [`ComponentKind`]. A data column holds `Option` values (absence of a
//! component is ordinary, not an error); a tag column holds booleans.
//! [`Registry::entities_with`] is the intersection join: it yields
//! exactly the entities that carry every requested kind, in entity
//! order.

use vstd::prelude::*;

use crate::components::ComponentKind;
use crate::components::Position;
use crate::components::Size;
use crate::components::Tile;
use crate::components::Velocity;

verus! {

/// Parallel-column storage for every component kind.
pub struct Registry {
    pub tiles: Vec<Option<Tile>>,
    pub positions: Vec<Option<Position>>,
    pub velocities: Vec<Option<Velocity>>,
    pub sizes: Vec<Option<Size>>,
    pub players: Vec<bool>,
    pub views: Vec<bool>,
    pub immovables: Vec<bool>,
    pub nonplayers: Vec<bool>,
}

/// The two registries agree on every column except the positions.
pub open spec fn same_but_positions(a: Registry, b: Registry) -> bool {
    &&& a.tiles@ == b.tiles@
    &&& a.velocities@ == b.velocities@
    &&& a.sizes@ == b.sizes@
    &&& a.players@ == b.players@
    &&& a.views@ == b.views@
    &&& a.immovables@ == b.immovables@
    &&& a.nonplayers@ == b.nonplayers@
}

/// The two registries agree on every column except the velocities.
pub open spec fn same_but_velocities(a: Registry, b: Registry) -> bool {
    &&& a.tiles@ == b.tiles@
    &&& a.positions@ == b.positions@
    &&& a.sizes@ == b.sizes@
    &&& a.players@ == b.players@
    &&& a.views@ == b.views@
    &&& a.immovables@ == b.immovables@
    &&& a.nonplayers@ == b.nonplayers@
}

impl Registry {
    /// How many entities have been allocated.
    pub open spec fn entity_count(self) -> nat {
        self.tiles@.len()
    }

    /// Structural well-formedness: the columns are parallel.
    pub open spec fn wf(self) -> bool {
        &&& self.positions@.len() == self.entity_count()
        &&& self.velocities@.len() == self.entity_count()
        &&& self.sizes@.len() == self.entity_count()
        &&& self.players@.len() == self.entity_count()
        &&& self.views@.len() == self.entity_count()
        &&& self.immovables@.len() == self.entity_count()
        &&& self.nonplayers@.len() == self.entity_count()
    }

    /// Entity `e` carries a component of kind `k`.
    pub open spec fn spec_has(self, k: ComponentKind, e: int) -> bool {
        match k {
            ComponentKind::Tile => self.tiles@[e] is Some,
            ComponentKind::Position => self.positions@[e] is Some,
            ComponentKind::Velocity => self.velocities@[e] is Some,
            ComponentKind::Size => self.sizes@[e] is Some,
            ComponentKind::PlayerTag => self.players@[e],
            ComponentKind::ViewTag => self.views@[e],
            ComponentKind::ImmovableTag => self.immovables@[e],
            ComponentKind::NonPlayerTag => self.nonplayers@[e],
        }
    }

    /// Entity `e` carries every kind in `ks`.
    pub open spec fn spec_has_all(self, ks: Seq<ComponentKind>, e: int) -> bool {
        forall|j: int| 0 <= j < ks.len() ==> self.spec_has(ks[j], e)
    }

    /// An empty registry.
    pub fn new() -> (r: Registry)
        ensures
            r.wf(),
            r.entity_count() == 0,
    {
        Registry {
            tiles: Vec::new(),
            positions: Vec::new(),
            velocities: Vec::new(),
            sizes: Vec::new(),
            players: Vec::new(),
            views: Vec::new(),
            immovables: Vec::new(),
            nonplayers: Vec::new(),
        }
    }

    /// The number of allocated entities.
    pub fn len(&self) -> (n: usize)
        ensures
            n == self.entity_count(),
    {
        self.tiles.len()
    }

    /// Allocate a fresh entity identifier carrying no components.
    pub fn spawn(&mut self) -> (e: usize)
        requires
            old(self).wf(),
        ensures
            final(self).wf(),
            e == old(self).entity_count(),
            final(self).tiles@ == old(self).tiles@.push(None),
            final(self).positions@ == old(self).positions@.push(None),
            final(self).velocities@ == old(self).velocities@.push(None),
            final(self).sizes@ == old(self).sizes@.push(None),
            final(self).players@ == old(self).players@.push(false),
            final(self).views@ == old(self).views@.push(false),
            final(self).immovables@ == old(self).immovables@.push(false),
            final(self).nonplayers@ == old(self).nonplayers@.push(false),
    {
        let e = self.tiles.len();
        self.tiles.push(None);
        self.positions.push(None);
        self.velocities.push(None);
        self.sizes.push(None);
        self.players.push(false);
        self.views.push(false);
        self.immovables.push(false);
        self.nonplayers.push(false);
        e
    }

    /// Attach (or replace) a tile on entity `e`.
    pub fn add_tile(&mut self, e: usize, t: Tile)
        requires
            old(self).wf(),
            e < old(self).entity_count(),
        ensures
            final(self).wf(),
            final(self).tiles@ == old(self).tiles@.update(e as int, Some(t)),
            final(self).positions@ == old(self).positions@,
            final(self).velocities@ == old(self).velocities@,
            final(self).sizes@ == old(self).sizes@,
            final(self).players@ == old(self).players@,
            final(self).views@ == old(self).views@,
            final(self).immovables@ == old(self).immovables@,
            final(self).nonplayers@ == old(self).nonplayers@,
    {
        self.tiles[e] = Some(t);
    }

    /// Attach (or replace) a position on entity `e`.
    pub fn add_position(&mut self, e: usize, p: Position)
        requires
            old(self).wf(),
            e < old(self).entity_count(),
        ensures
            final(self).wf(),
            same_but_positions(*final(self), *old(self)),
            final(self).positions@ == old(self).positions@.update(e as int, Some(p)),
    {
        self.positions[e] = Some(p);
    }

    /// Attach (or replace) a velocity on entity `e`.
    pub fn add_velocity(&mut self, e: usize, v: Velocity)
        requires
            old(self).wf(),
            e < old(self).entity_count(),
        ensures
            final(self).wf(),
            same_but_velocities(*final(self), *old(self)),
            final(self).velocities@ == old(self).velocities@.update(e as int, Some(v)),
    {
        self.velocities[e] = Some(v);
    }

    /// Attach (or replace) a size on entity `e`.
    pub fn add_size(&mut self, e: usize, s: Size)
        requires
            old(self).wf(),
            e < old(self).entity_count(),
        ensures
            final(self).wf(),
            final(self).sizes@ == old(self).sizes@.update(e as int, Some(s)),
            final(self).tiles@ == old(self).tiles@,
            final(self).positions@ == old(self).positions@,
            final(self).velocities@ == old(self).velocities@,
            final(self).players@ == old(self).players@,
            final(self).views@ == old(self).views@,
            final(self).immovables@ == old(self).immovables@,
            final(self).nonplayers@ == old(self).nonplayers@,
    {
        self.sizes[e] = Some(s);
    }

    /// Mark entity `e` as the controllable avatar.
    pub fn add_player_tag(&mut self, e: usize)
        requires
            old(self).wf(),
            e < old(self).entity_count(),
        ensures
            final(self).wf(),
            final(self).players@ == old(self).players@.update(e as int, true),
            final(self).tiles@ == old(self).tiles@,
            final(self).positions@ == old(self).positions@,
            final(self).velocities@ == old(self).velocities@,
            final(self).sizes@ == old(self).sizes@,
            final(self).views@ == old(self).views@,
            final(self).immovables@ == old(self).immovables@,
            final(self).nonplayers@ == old(self).nonplayers@,
    {
        self.players[e] = true;
    }

    /// Mark entity `e` as the viewport.
    pub fn add_view_tag(&mut self, e: usize)
        requires
            old(self).wf(),
            e < old(self).entity_count(),
        ensures
            final(self).wf(),
            final(self).views@ == old(self).views@.update(e as int, true),
            final(self).tiles@ == old(self).tiles@,
            final(self).positions@ == old(self).positions@,
            final(self).velocities@ == old(self).velocities@,
            final(self).sizes@ == old(self).sizes@,
            final(self).players@ == old(self).players@,
            final(self).immovables@ == old(self).immovables@,
            final(self).nonplayers@ == old(self).nonplayers@,
    {
        self.views[e] = true;
    }

    /// Mark entity `e` as an immovable map cell.
    pub fn add_immovable_tag(&mut self, e: usize)
        requires
            old(self).wf(),
            e < old(self).entity_count(),
        ensures
            final(self).wf(),
            final(self).immovables@ == old(self).immovables@.update(e as int, true),
            final(self).tiles@ == old(self).tiles@,
            final(self).positions@ == old(self).positions@,
            final(self).velocities@ == old(self).velocities@,
            final(self).sizes@ == old(self).sizes@,
            final(self).players@ == old(self).players@,
            final(self).views@ == old(self).views@,
            final(self).nonplayers@ == old(self).nonplayers@,
    {
        self.immovables[e] = true;
    }

    /// Mark entity `e` as a non-player actor.
    pub fn add_nonplayer_tag(&mut self, e: usize)
        requires
            old(self).wf(),
            e < old(self).entity_count(),
        ensures
            final(self).wf(),
            final(self).nonplayers@ == old(self).nonplayers@.update(e as int, true),
            final(self).tiles@ == old(self).tiles@,
            final(self).positions@ == old(self).positions@,
            final(self).velocities@ == old(self).velocities@,
            final(self).sizes@ == old(self).sizes@,
            final(self).players@ == old(self).players@,
            final(self).views@ == old(self).views@,
            final(self).immovables@ == old(self).immovables@,
    {
        self.nonplayers[e] = true;
    }

    /// The tile attached to entity `e`, if any.
    pub fn get_tile(&self, e: usize) -> (r: Option<Tile>)
        requires
            self.wf(),
            e < self.entity_count(),
        ensures
            r == self.tiles@[e as int],
    {
        self.tiles[e]
    }

    /// The position attached to entity `e`, if any.
    pub fn get_position(&self, e: usize) -> (r: Option<Position>)
        requires
            self.wf(),
            e < self.entity_count(),
        ensures
            r == self.positions@[e as int],
    {
        self.positions[e]
    }

    /// The velocity attached to entity `e`, if any.
    pub fn get_velocity(&self, e: usize) -> (r: Option<Velocity>)
        requires
            self.wf(),
            e < self.entity_count(),
        ensures
            r == self.velocities@[e as int],
    {
        self.velocities[e]
    }

    /// The size attached to entity `e`, if any.
    pub fn get_size(&self, e: usize) -> (r: Option<Size>)
        requires
            self.wf(),
            e < self.entity_count(),
        ensures
            r == self.sizes@[e as int],
    {
        self.sizes[e]
    }

    /// Whether entity `e` carries component kind `k`.
    pub fn has(&self, k: ComponentKind, e: usize) -> (r: bool)
        requires
            self.wf(),
            e < self.entity_count(),
        ensures
            r == self.spec_has(k, e as int),
    {
        match k {
            ComponentKind::Tile => self.tiles[e].is_some(),
            ComponentKind::Position => self.positions[e].is_some(),
            ComponentKind::Velocity => self.velocities[e].is_some(),
            ComponentKind::Size => self.sizes[e].is_some(),
            ComponentKind::PlayerTag => self.players[e],
            ComponentKind::ViewTag => self.views[e],
            ComponentKind::ImmovableTag => self.immovables[e],
            ComponentKind::NonPlayerTag => self.nonplayers[e],
        }
    }

    /// Whether entity `e` carries every kind in `ks`.
    pub fn has_all(&self, ks: &Vec<ComponentKind>, e: usize) -> (r: bool)
        requires
            self.wf(),
            e < self.entity_count(),
        ensures
            r == self.spec_has_all(ks@, e as int),
    {
        let mut j: usize = 0;
        while j < ks.len()
            invariant
                self.wf(),
                e < self.entity_count(),
                j <= ks@.len(),
                forall|j2: int| 0 <= j2 < j ==> self.spec_has(ks@[j2], e as int),
            decreases ks@.len() - j,
        {
            if !self.has(ks[j], e) {
                return false;
            }
            j = j + 1;
        }
        true
    }

    /// The intersection join: every entity that carries all the kinds in
    /// `ks`, in increasing entity order, each exactly once.
    pub fn entities_with(&self, ks: &Vec<ComponentKind>) -> (es: Vec<usize>)
        requires
            self.wf(),
        ensures
            forall|a: int, b: int| 0 <= a < b < es@.len() ==> es@[a] < es@[b],
            forall|j: int| 0 <= j < es@.len() ==> es@[j] < self.entity_count(),
            forall|e: int|
                0 <= e < self.entity_count() ==> (es@.contains(e as usize) <==> self.spec_has_all(
                    ks@,
                    e,
                )),
    {
        let n = self.len();
        let mut es: Vec<usize> = Vec::new();
        let mut e: usize = 0;
        while e < n
            invariant
                self.wf(),
                n == self.entity_count(),
                e <= n,
                forall|a: int, b: int| 0 <= a < b < es@.len() ==> es@[a] < es@[b],
                forall|j: int| 0 <= j < es@.len() ==> es@[j] < e,
                forall|e2: int|
                    0 <= e2 < e ==> (es@.contains(e2 as usize) <==> self.spec_has_all(ks@, e2)),
            decreases n - e,
        {
            let ghost es0 = es@;
            if self.has_all(ks, e) {
                es.push(e);
            }
            proof {
                assert forall|e2: int| 0 <= e2 <= e implies (es@.contains(e2 as usize)
                    <==> self.spec_has_all(ks@, e2)) by {
                    let x = e2 as usize;
                    if self.spec_has_all(ks@, e2) {
                        if e2 < e {
                            let i = choose|i: int| 0 <= i < es0.len() && es0[i] == x;
                            assert(es@[i] == x);
                        } else {
                            assert(es@[es@.len() - 1] == x);
                        }
                        assert(es@.contains(x));
                    } else {
                        if es@.contains(x) {
                            let i = choose|i: int| 0 <= i < es@.len() && es@[i] == x;
                            assert(i < es0.len());
                            assert(es0.contains(x));
                        }
                    }
                }
            }
            e = e + 1;
        }
        es
    }
}

} // verus!
