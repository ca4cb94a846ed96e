//! The staged scheduler: an ordered sequence of stages, each a set of
//! systems, separated by barriers.
//!
//! Every system declares, per component kind and for the shared
//! command buffer, whether it needs shared (read) or exclusive (write)
//! access. A schedule is accepted at construction only when no two
//! systems of one stage ask for write-write or read-write access to
//! the same data; nothing is arbitrated later. The canonical tick is
//! five singleton stages: input capture, command apply, motion, view
//! follow, render.

use vstd::prelude::*;

use crate::components::ComponentKind;
use crate::errors::SimError;

verus! {

/// The five systems of the tick pipeline.
#[derive(Copy, Clone, Debug, PartialEq, Eq, Structural)]
pub enum SystemId {
    /// Stores the tick's external command text into the command buffer.
    InputCapture,
    /// Parses the command buffer and adds the intent onto the player
    /// velocity.
    CommandApply,
    /// Advances every positioned entity by its velocity.
    Motion,
    /// Repositions the viewport behind the player.
    ViewFollow,
    /// Composites the frame from tiles, positions and the viewport.
    Render,
}

/// System `s` asks for exclusive access to component kind `k`.
pub open spec fn spec_writes(s: SystemId, k: ComponentKind) -> bool {
    match s {
        SystemId::InputCapture => false,
        SystemId::CommandApply => k is Velocity,
        SystemId::Motion => k is Position,
        SystemId::ViewFollow => k is Position,
        SystemId::Render => false,
    }
}

/// System `s` asks for shared access to component kind `k`.
pub open spec fn spec_reads(s: SystemId, k: ComponentKind) -> bool {
    match s {
        SystemId::InputCapture => false,
        SystemId::CommandApply => k is PlayerTag || k is Velocity,
        SystemId::Motion => k is Position || k is Velocity,
        SystemId::ViewFollow => k is Position || k is PlayerTag || k is ViewTag || k is Size,
        SystemId::Render => k is Tile || k is Position || k is Size || k is PlayerTag
            || k is ViewTag || k is ImmovableTag || k is NonPlayerTag,
    }
}

/// System `s` writes the shared command buffer.
pub open spec fn spec_writes_command(s: SystemId) -> bool {
    s is InputCapture
}

/// System `s` reads the shared command buffer.
pub open spec fn spec_reads_command(s: SystemId) -> bool {
    s is CommandApply
}

/// Systems `a` and `b` clash on kind `k`: one writes what the other
/// touches.
pub open spec fn kind_conflict(a: SystemId, b: SystemId, k: ComponentKind) -> bool {
    ||| (spec_writes(a, k) && (spec_writes(b, k) || spec_reads(b, k)))
    ||| (spec_writes(b, k) && spec_reads(a, k))
}

/// Systems `a` and `b` cannot share a stage.
pub open spec fn conflicts(a: SystemId, b: SystemId) -> bool {
    ||| kind_conflict(a, b, ComponentKind::Tile)
    ||| kind_conflict(a, b, ComponentKind::Position)
    ||| kind_conflict(a, b, ComponentKind::Velocity)
    ||| kind_conflict(a, b, ComponentKind::Size)
    ||| kind_conflict(a, b, ComponentKind::PlayerTag)
    ||| kind_conflict(a, b, ComponentKind::ViewTag)
    ||| kind_conflict(a, b, ComponentKind::ImmovableTag)
    ||| kind_conflict(a, b, ComponentKind::NonPlayerTag)
    ||| (spec_writes_command(a) && (spec_writes_command(b) || spec_reads_command(b)))
    ||| (spec_writes_command(b) && spec_reads_command(a))
}

/// No two systems of the stage clash.
pub open spec fn stage_ok(stage: Seq<SystemId>) -> bool {
    forall|a: int, b: int|
        0 <= a < stage.len() && 0 <= b < stage.len() && a != b ==> !conflicts(stage[a], stage[b])
}

/// Every stage of the schedule is internally compatible.
pub open spec fn spec_schedule_ok(stages: Seq<Vec<SystemId>>) -> bool {
    forall|i: int| 0 <= i < stages.len() ==> stage_ok(stages[i]@)
}

/// Whether system `s` writes component kind `k`.
pub fn writes_kind(s: SystemId, k: ComponentKind) -> (r: bool)
    ensures
        r == spec_writes(s, k),
{
    match s {
        SystemId::InputCapture => false,
        SystemId::CommandApply => match k {
            ComponentKind::Velocity => true,
            _ => false,
        },
        SystemId::Motion => match k {
            ComponentKind::Position => true,
            _ => false,
        },
        SystemId::ViewFollow => match k {
            ComponentKind::Position => true,
            _ => false,
        },
        SystemId::Render => false,
    }
}

/// Whether system `s` reads component kind `k`.
pub fn reads_kind(s: SystemId, k: ComponentKind) -> (r: bool)
    ensures
        r == spec_reads(s, k),
{
    match s {
        SystemId::InputCapture => false,
        SystemId::CommandApply => match k {
            ComponentKind::PlayerTag | ComponentKind::Velocity => true,
            _ => false,
        },
        SystemId::Motion => match k {
            ComponentKind::Position | ComponentKind::Velocity => true,
            _ => false,
        },
        SystemId::ViewFollow => match k {
            ComponentKind::Position | ComponentKind::PlayerTag | ComponentKind::ViewTag
                | ComponentKind::Size => true,
            _ => false,
        },
        SystemId::Render => match k {
            ComponentKind::Velocity => false,
            _ => true,
        },
    }
}

/// Whether systems `a` and `b` clash on kind `k`.
fn kind_conflict_at(a: SystemId, b: SystemId, k: ComponentKind) -> (r: bool)
    ensures
        r == kind_conflict(a, b, k),
{
    (writes_kind(a, k) && (writes_kind(b, k) || reads_kind(b, k))) || (writes_kind(b, k)
        && reads_kind(a, k))
}

/// Whether systems `a` and `b` can never share a stage.
pub fn conflicts_at(a: SystemId, b: SystemId) -> (r: bool)
    ensures
        r == conflicts(a, b),
{
    let a_wc = match a {
        SystemId::InputCapture => true,
        _ => false,
    };
    let b_wc = match b {
        SystemId::InputCapture => true,
        _ => false,
    };
    let a_rc = match a {
        SystemId::CommandApply => true,
        _ => false,
    };
    let b_rc = match b {
        SystemId::CommandApply => true,
        _ => false,
    };
    kind_conflict_at(a, b, ComponentKind::Tile) || kind_conflict_at(a, b, ComponentKind::Position)
        || kind_conflict_at(a, b, ComponentKind::Velocity) || kind_conflict_at(
        a,
        b,
        ComponentKind::Size,
    ) || kind_conflict_at(a, b, ComponentKind::PlayerTag) || kind_conflict_at(
        a,
        b,
        ComponentKind::ViewTag,
    ) || kind_conflict_at(a, b, ComponentKind::ImmovableTag) || kind_conflict_at(
        a,
        b,
        ComponentKind::NonPlayerTag,
    ) || (a_wc && (b_wc || b_rc)) || (b_wc && a_rc)
}

/// Whether no two systems of `stage` clash.
fn stage_check(stage: &Vec<SystemId>) -> (ok: bool)
    ensures
        ok == stage_ok(stage@),
{
    let n = stage.len();
    let mut a: usize = 0;
    while a < n
        invariant
            n == stage@.len(),
            a <= n,
            forall|x: int, y: int|
                0 <= x < a && 0 <= y < n && x != y ==> !conflicts(stage@[x], stage@[y]),
        decreases n - a,
    {
        let mut b: usize = 0;
        while b < n
            invariant
                n == stage@.len(),
                a < n,
                b <= n,
                forall|x: int, y: int|
                    0 <= x < a && 0 <= y < n && x != y ==> !conflicts(stage@[x], stage@[y]),
                forall|y: int| 0 <= y < b && y != a ==> !conflicts(stage@[a as int], stage@[y]),
            decreases n - b,
        {
            if b != a {
                if conflicts_at(stage[a], stage[b]) {
                    return false;
                }
            }
            b = b + 1;
        }
        a = a + 1;
    }
    true
}

/// An ordered sequence of barrier-separated stages.
pub struct Schedule {
    pub stages: Vec<Vec<SystemId>>,
}

/// The canonical tick order: five singleton stages.
pub open spec fn standard_order(s: Schedule) -> bool {
    &&& s.stages@.len() == 5
    &&& s.stages@[0]@ == seq![SystemId::InputCapture]
    &&& s.stages@[1]@ == seq![SystemId::CommandApply]
    &&& s.stages@[2]@ == seq![SystemId::Motion]
    &&& s.stages@[3]@ == seq![SystemId::ViewFollow]
    &&& s.stages@[4]@ == seq![SystemId::Render]
}

impl Schedule {
    /// Every stage of this schedule is internally compatible.
    pub open spec fn wf(self) -> bool {
        spec_schedule_ok(self.stages@)
    }

    /// Accept a schedule only when no stage holds two systems with
    /// clashing access declarations.
    pub fn new(stages: Vec<Vec<SystemId>>) -> (res: Result<Schedule, SimError>)
        ensures
            res is Ok <==> spec_schedule_ok(stages@),
            res matches Ok(s) ==> s.stages@ == stages@ && s.wf(),
            res is Err ==> res == Err::<Schedule, SimError>(SimError::ConflictingStage),
    {
        let n = stages.len();
        let mut i: usize = 0;
        while i < n
            invariant
                n == stages@.len(),
                i <= n,
                forall|j: int| 0 <= j < i ==> stage_ok(stages@[j]@),
            decreases n - i,
        {
            if !stage_check(&stages[i]) {
                return Err(SimError::ConflictingStage);
            }
            i = i + 1;
        }
        Ok(Schedule { stages })
    }

    /// The canonical five-stage schedule, one system per stage.
    pub fn standard() -> (s: Schedule)
        ensures
            s.wf(),
            standard_order(s),
    {
        let stages: Vec<Vec<SystemId>> = vec![
            vec![SystemId::InputCapture],
            vec![SystemId::CommandApply],
            vec![SystemId::Motion],
            vec![SystemId::ViewFollow],
            vec![SystemId::Render],
        ];
        let s = Schedule { stages };
        proof {
            assert(s.stages@[0]@ =~= seq![SystemId::InputCapture]);
            assert(s.stages@[1]@ =~= seq![SystemId::CommandApply]);
            assert(s.stages@[2]@ =~= seq![SystemId::Motion]);
            assert(s.stages@[3]@ =~= seq![SystemId::ViewFollow]);
            assert(s.stages@[4]@ =~= seq![SystemId::Render]);
            assert forall|i: int| 0 <= i < s.stages@.len() implies stage_ok(s.stages@[i]@) by {
                assert(s.stages@[i]@.len() == 1);
            }
        }
        s
    }
}

} // verus!
