//! Scheduled key rotation, as a sequence of decisions: list the active keys,
//! ask the policy about each in turn, and for each key that is due generate
//! its replacement before archiving it. The first failure ends the rotation.
//! The caller performs each action and reports its outcome as the next event.
use vstd::prelude::*;

verus! {

/// Where a rotation stands.
#[derive(Debug, Clone, Copy, PartialEq, Eq, Structural)]
pub enum RotationPhase {
    /// The active keys are being listed.
    Listing,
    /// The policy is being asked about the current key.
    Asking,
    /// The current key's replacement is being generated.
    Generating,
    /// The current key is being archived.
    Archiving,
    /// Every key was handled.
    Done,
    /// An operation failed; nothing more is done.
    Aborted,
}

/// What the caller reports after performing an action.
pub enum RotationEvent {
    /// The active keys, by id.
    Listed(Vec<u64>),
    /// The policy's answer for the current key.
    Due(bool),
    /// The current key's replacement was generated.
    Generated,
    /// The current key was archived.
    Archived,
    /// The operation failed.
    Failed,
}

/// What the caller does next.
#[derive(Debug, Clone, Copy, PartialEq, Eq, Structural)]
pub enum RotationAction {
    /// List the active keys.
    ListKeys,
    /// Ask the policy whether the key is due.
    AskPolicy(u64),
    /// Generate the key's replacement.
    Generate(u64),
    /// Archive the key.
    Archive(u64),
    /// Report the rotated keys.
    Finish,
    /// Report the failure.
    Abort,
}

/// The state of a rotation.
pub struct RotationState {
    pub ids: Vec<u64>,
    pub index: usize,
    pub phase: RotationPhase,
    pub rotated: Vec<u64>,
}

/// A rotation's state as values.
pub struct RotationModel {
    pub ids: Seq<u64>,
    pub index: int,
    pub phase: RotationPhase,
    pub rotated: Seq<u64>,
}

/// An event as values.
pub enum EventModel {
    Listed(Seq<u64>),
    Due(bool),
    Generated,
    Archived,
    Failed,
}

pub open spec fn event_model(e: RotationEvent) -> EventModel {
    match e {
        RotationEvent::Listed(v) => EventModel::Listed(v@),
        RotationEvent::Due(b) => EventModel::Due(b),
        RotationEvent::Generated => EventModel::Generated,
        RotationEvent::Archived => EventModel::Archived,
        RotationEvent::Failed => EventModel::Failed,
    }
}

impl RotationState {
    pub open spec fn model(&self) -> RotationModel {
        RotationModel { ids: self.ids@, index: self.index as int, phase: self.phase, rotated: self.rotated@ }
    }

    /// A rotation that has not started: its first action is `ListKeys`.
    pub fn start() -> (r: (RotationState, RotationAction))
        ensures
            r.0.model() == (RotationModel {
                ids: Seq::empty(),
                index: 0,
                phase: RotationPhase::Listing,
                rotated: Seq::empty(),
            }),
            r.1 == RotationAction::ListKeys,
    {
        let s = RotationState { ids: Vec::new(), index: 0, phase: RotationPhase::Listing, rotated: Vec::new() };
        assert(s.model().ids =~= Seq::<u64>::empty());
        assert(s.model().rotated =~= Seq::<u64>::empty());
        (s, RotationAction::ListKeys)
    }
}

/// Moving on from the key at `index`: ask about the next key, or finish.
pub open spec fn spec_advance(ids: Seq<u64>, index: int, rotated: Seq<u64>) -> (RotationModel, RotationAction) {
    if index + 1 < ids.len() {
        (
            RotationModel { ids, index: index + 1, phase: RotationPhase::Asking, rotated },
            RotationAction::AskPolicy(ids[index + 1]),
        )
    } else {
        (RotationModel { ids, index: index + 1, phase: RotationPhase::Done, rotated }, RotationAction::Finish)
    }
}

/// One decision. A failure, or an event that does not fit the phase, aborts;
/// a finished or aborted rotation stays as it is.
pub open spec fn spec_rotation_step(s: RotationModel, e: EventModel) -> (RotationModel, RotationAction) {
    let aborted = RotationModel { phase: RotationPhase::Aborted, ..s };
    match (s.phase, e) {
        (RotationPhase::Done, _) => (s, RotationAction::Finish),
        (RotationPhase::Aborted, _) => (s, RotationAction::Abort),
        (_, EventModel::Failed) => (aborted, RotationAction::Abort),
        (RotationPhase::Listing, EventModel::Listed(ids)) => if ids.len() == 0 {
            (RotationModel { ids, index: 0, phase: RotationPhase::Done, rotated: s.rotated }, RotationAction::Finish)
        } else {
            (RotationModel { ids, index: 0, phase: RotationPhase::Asking, rotated: s.rotated }, RotationAction::AskPolicy(ids[0]))
        },
        (RotationPhase::Asking, EventModel::Due(due)) => if 0 <= s.index < s.ids.len() {
            if due {
                (RotationModel { phase: RotationPhase::Generating, ..s }, RotationAction::Generate(s.ids[s.index]))
            } else {
                spec_advance(s.ids, s.index, s.rotated)
            }
        } else {
            (aborted, RotationAction::Abort)
        },
        (RotationPhase::Generating, EventModel::Generated) => if 0 <= s.index < s.ids.len() {
            (RotationModel { phase: RotationPhase::Archiving, ..s }, RotationAction::Archive(s.ids[s.index]))
        } else {
            (aborted, RotationAction::Abort)
        },
        (RotationPhase::Archiving, EventModel::Archived) => if 0 <= s.index < s.ids.len() {
            spec_advance(s.ids, s.index, s.rotated.push(s.ids[s.index]))
        } else {
            (aborted, RotationAction::Abort)
        },
        _ => (aborted, RotationAction::Abort),
    }
}

/// The next state and action after `event`.
pub fn rotation_step(state: RotationState, event: RotationEvent) -> (r: (RotationState, RotationAction))
    ensures
        (r.0.model(), r.1) == spec_rotation_step(state.model(), event_model(event)),
        state.phase == RotationPhase::Asking && event_model(event) == EventModel::Due(false) && state.index + 1
            < state.ids@.len() ==> r.1 == RotationAction::AskPolicy(state.ids@[state.index + 1]) && r.0.phase
            == RotationPhase::Asking && r.0.index == state.index + 1 && r.0.ids@ == state.ids@,
        state.phase != RotationPhase::Done && state.phase != RotationPhase::Aborted && r.1 == RotationAction::Finish
            ==> r.0.phase == RotationPhase::Done && r.0.index == r.0.ids@.len(),
{
    let ghost s = state.model();
    let ghost e = event_model(event);
    proof {
        if s.phase == RotationPhase::Asking && s.index + 1 < s.ids.len() {
            lemma_not_due_asks_about_next_key(s);
        }
        if s.phase != RotationPhase::Done && s.phase != RotationPhase::Aborted && spec_rotation_step(s, e).1
            == RotationAction::Finish {
            lemma_finish_only_after_every_key(s, e);
        }
    }
    let RotationState { ids, index, phase, mut rotated } = state;
    match phase {
        RotationPhase::Done => {
            return (RotationState { ids, index, phase, rotated }, RotationAction::Finish);
        },
        RotationPhase::Aborted => {
            return (RotationState { ids, index, phase, rotated }, RotationAction::Abort);
        },
        _ => {},
    }
    let abort_state = RotationPhase::Aborted;
    match event {
        RotationEvent::Failed => (RotationState { ids, index, phase: abort_state, rotated }, RotationAction::Abort),
        RotationEvent::Listed(new_ids) => {
            if phase != RotationPhase::Listing {
                return (RotationState { ids, index, phase: abort_state, rotated }, RotationAction::Abort);
            }
            if new_ids.len() == 0 {
                (RotationState { ids: new_ids, index: 0, phase: RotationPhase::Done, rotated }, RotationAction::Finish)
            } else {
                let first = new_ids[0];
                (RotationState { ids: new_ids, index: 0, phase: RotationPhase::Asking, rotated }, RotationAction::AskPolicy(first))
            }
        },
        RotationEvent::Due(due) => {
            if phase != RotationPhase::Asking || index >= ids.len() {
                return (RotationState { ids, index, phase: abort_state, rotated }, RotationAction::Abort);
            }
            if due {
                let id = ids[index];
                (RotationState { ids, index, phase: RotationPhase::Generating, rotated }, RotationAction::Generate(id))
            } else {
                advance(ids, index, rotated)
            }
        },
        RotationEvent::Generated => {
            if phase != RotationPhase::Generating || index >= ids.len() {
                return (RotationState { ids, index, phase: abort_state, rotated }, RotationAction::Abort);
            }
            let id = ids[index];
            (RotationState { ids, index, phase: RotationPhase::Archiving, rotated }, RotationAction::Archive(id))
        },
        RotationEvent::Archived => {
            if phase != RotationPhase::Archiving || index >= ids.len() {
                return (RotationState { ids, index, phase: abort_state, rotated }, RotationAction::Abort);
            }
            rotated.push(ids[index]);
            advance(ids, index, rotated)
        },
    }
}

fn advance(ids: Vec<u64>, index: usize, rotated: Vec<u64>) -> (r: (RotationState, RotationAction))
    requires
        index < ids@.len(),
    ensures
        (r.0.model(), r.1) == spec_advance(ids@, index as int, rotated@),
{
    let n = ids.len();
    if index < n - 1 {
        let next = ids[index + 1];
        (RotationState { ids, index: index + 1, phase: RotationPhase::Asking, rotated }, RotationAction::AskPolicy(next))
    } else {
        (RotationState { ids, index: index + 1, phase: RotationPhase::Done, rotated }, RotationAction::Finish)
    }
}

/// A key's replacement is generated before it is archived: an `Archive` action
/// comes only from the generating phase, on the report that the replacement
/// was generated, and for the key that was being replaced.
pub proof fn lemma_generate_before_archive(s: RotationModel, e: EventModel, id: u64)
    requires
        spec_rotation_step(s, e).1 == RotationAction::Archive(id),
    ensures
        s.phase == RotationPhase::Generating,
        e == EventModel::Generated,
        0 <= s.index < s.ids.len() && s.ids[s.index] == id,
{
}

/// A key is recorded as rotated only when its archive was reported, after the
/// policy found it due and its replacement was generated; the first failure
/// ends the rotation for good.
pub proof fn lemma_rotated_only_after_archive(s: RotationModel, e: EventModel)
    requires
        s.phase != RotationPhase::Done,
        s.phase != RotationPhase::Aborted,
        spec_rotation_step(s, e).0.rotated != s.rotated,
    ensures
        s.phase == RotationPhase::Archiving,
        e == EventModel::Archived,
        spec_rotation_step(s, e).0.rotated == s.rotated.push(s.ids[s.index]),
{
}

/// After a failure nothing more is done.
pub proof fn lemma_failure_aborts(s: RotationModel, e: EventModel)
    requires
        s.phase != RotationPhase::Done,
        e == EventModel::Failed,
    ensures
        spec_rotation_step(s, e).1 == RotationAction::Abort,
        spec_rotation_step(spec_rotation_step(s, e).0, e).1 == RotationAction::Abort,
{
}

/// A key that the policy finds not due is passed over, and the policy is
/// asked about the next listed key; nothing is rotated.
pub proof fn lemma_not_due_asks_about_next_key(s: RotationModel)
    requires
        s.phase == RotationPhase::Asking,
        0 <= s.index,
        s.index + 1 < s.ids.len(),
    ensures
        spec_rotation_step(s, EventModel::Due(false)).1 == RotationAction::AskPolicy(s.ids[s.index + 1]),
        spec_rotation_step(s, EventModel::Due(false)).0.phase == RotationPhase::Asking,
        spec_rotation_step(s, EventModel::Due(false)).0.index == s.index + 1,
        spec_rotation_step(s, EventModel::Due(false)).0.ids == s.ids,
        spec_rotation_step(s, EventModel::Due(false)).0.rotated == s.rotated,
{
}

/// A key that the policy finds due gets a replacement generated for it.
pub proof fn lemma_due_key_is_replaced(s: RotationModel)
    requires
        s.phase == RotationPhase::Asking,
        0 <= s.index < s.ids.len(),
    ensures
        spec_rotation_step(s, EventModel::Due(true)).1 == RotationAction::Generate(s.ids[s.index]),
        spec_rotation_step(s, EventModel::Due(true)).0.index == s.index,
{
}

/// Listing keys asks the policy about the first of them, or finishes when there
/// are none.
pub proof fn lemma_listing_starts_with_first_key(s: RotationModel, ids: Seq<u64>)
    requires
        s.phase == RotationPhase::Listing,
    ensures
        ids.len() > 0 ==> spec_rotation_step(s, EventModel::Listed(ids)).1 == RotationAction::AskPolicy(ids[0]),
        ids.len() == 0 ==> spec_rotation_step(s, EventModel::Listed(ids)).1 == RotationAction::Finish,
        spec_rotation_step(s, EventModel::Listed(ids)).0.ids == ids,
        spec_rotation_step(s, EventModel::Listed(ids)).0.index == 0,
{
}

/// A running rotation finishes only once every listed key has been handled:
/// the position it finishes at is past the last key.
pub proof fn lemma_finish_only_after_every_key(s: RotationModel, e: EventModel)
    requires
        s.phase != RotationPhase::Done,
        s.phase != RotationPhase::Aborted,
        0 <= s.index,
        spec_rotation_step(s, e).1 == RotationAction::Finish,
    ensures
        spec_rotation_step(s, e).0.phase == RotationPhase::Done,
        spec_rotation_step(s, e).0.index == spec_rotation_step(s, e).0.ids.len(),
{
}

} // verus!
