//! Rollback history for deterministic netcode: the frame counter and the
//! bounded history of saved frames that a rollback restores from.
//!
//! What a frame holds (vehicle transforms, velocities, engine state) is the
//! snapshot type `S`; this module keeps the frame bookkeeping.

use vstd::prelude::*;
use std::collections::VecDeque;
use crate::ecs::entity::{decimal, decimal_string};
use vstd::string::StringExecFns;
use crate::engine_core::error::EngineError;
use crate::utils::bounded::{keep_last, lemma_keep_last_bounded, push_back_bounded};

verus! {

/// Maximum rollback history frames.
pub const MAX_HISTORY: usize = 8;

/// A frame saved for rollback.
pub struct SavedState<S> {
    /// The frame the state was saved at.
    pub frame: u32,
    /// The input frame it belongs to (the same frame).
    pub input_frame: u32,
    /// The world state of that frame.
    pub snapshot: S,
}

/// Frames are saved in increasing order, each before the current frame.
pub open spec fn frames_ordered<S>(history: Seq<SavedState<S>>, current: u32) -> bool {
    &&& forall|i: int, j: int| 0 <= i < j < history.len()
        ==> #[trigger] history[i].frame < #[trigger] history[j].frame
    &&& forall|i: int| 0 <= i < history.len() ==> #[trigger] history[i].frame < current
}

/// The text of the error for a frame that the history does not hold.
pub open spec fn frame_not_found_text(frame: u32) -> Seq<char> {
    "Target frame "@ + decimal(frame as nat) + " not found in history"@
}

/// The error text for a frame that the history does not hold.
fn frame_not_found_message(frame: u32) -> (r: String)
    ensures
        r@ == frame_not_found_text(frame),
{
    let digits = decimal_string(frame as u64);
    "Target frame ".to_owned().concat(digits.as_str()).concat(" not found in history")
}

/// Rollback history: the frame counter and the last saved frames.
pub struct RollbackSystem<S> {
    history: VecDeque<SavedState<S>>,
    current_frame: u32,
    max_history: usize,
}

impl<S> RollbackSystem<S> {
    #[verifier::type_invariant]
    spec fn inv(self) -> bool {
        &&& self.history@.len() <= self.max_history
        &&& frames_ordered(self.history@, self.current_frame)
    }

    /// The saved frames, oldest first.
    pub closed spec fn history(&self) -> Seq<SavedState<S>> {
        self.history@
    }

    /// The current frame: the one the next save is stored under.
    pub closed spec fn frame(&self) -> u32 {
        self.current_frame
    }

    /// How many saved frames are kept.
    pub closed spec fn limit(&self) -> usize {
        self.max_history
    }

    /// Whether a frame is held in the history.
    pub open spec fn holds_frame(&self, frame: u32) -> bool {
        exists|i: int| 0 <= i < self.history().len() && #[trigger] self.history()[i].frame == frame
    }

    /// The position of a held frame in the history.
    pub open spec fn index_of_frame(&self, frame: u32) -> int {
        choose|i: int| 0 <= i < self.history().len() && #[trigger] self.history()[i].frame == frame
    }

    /// The history is bounded and ordered: at most `limit` frames, in
    /// increasing order, all before the current frame.
    pub open spec fn well_ordered(&self) -> bool {
        &&& self.history().len() <= self.limit()
        &&& frames_ordered(self.history(), self.frame())
    }

    /// An empty history at frame 0, keeping `MAX_HISTORY` frames.
    pub fn new() -> (r: Self)
        ensures
            r.history() == Seq::<SavedState<S>>::empty(),
            r.frame() == 0,
            r.limit() == MAX_HISTORY,
            r.well_ordered(),
    {
        RollbackSystem { history: VecDeque::with_capacity(MAX_HISTORY), current_frame: 0, max_history: MAX_HISTORY }
    }

    /// The current frame.
    pub fn current_frame(&self) -> (r: u32)
        ensures
            r == self.frame(),
    {
        self.current_frame
    }

    /// Saves `snapshot` as the state of the current frame, drops the oldest
    /// frames beyond the limit, and moves to the next frame.
    pub fn save_state(&mut self, snapshot: S)
        requires
            old(self).frame() < u32::MAX,
        ensures
            final(self).history() == keep_last(
                old(self).history().push(
                    (SavedState { frame: old(self).frame(), input_frame: old(self).frame(), snapshot }),
                ),
                old(self).limit() as nat,
            ),
            final(self).frame() == old(self).frame() + 1,
            final(self).limit() == old(self).limit(),
            final(self).well_ordered(),
    {
        proof { use_type_invariant(&*self); }
        let frame = self.current_frame;
        let max = self.max_history;
        let mut history = VecDeque::new();
        std::mem::swap(&mut history, &mut self.history);
        let ghost before = history@;
        let state = SavedState { frame, input_frame: frame, snapshot };
        push_back_bounded(&mut history, state, max);
        proof {
            let full = before.push(state);
            lemma_keep_last_bounded(full, max as nat);
            assert(frames_ordered(full, (frame + 1) as u32));
            assert forall|i: int, j: int| 0 <= i < j < history@.len() implies
                #[trigger] history@[i].frame < #[trigger] history@[j].frame by {
                let k = full.len() - history@.len();
                assert(history@[i] == full[k + i]);
                assert(history@[j] == full[k + j]);
            }
            assert forall|i: int| 0 <= i < history@.len() implies
                #[trigger] history@[i].frame < frame + 1 by {
                let k = full.len() - history@.len();
                assert(history@[i] == full[k + i]);
            }
        }
        self.current_frame = frame + 1;
        self.history = history;
    }

    /// Moves to the next frame without saving.
    pub fn advance_frame(&mut self)
        requires
            old(self).frame() < u32::MAX,
        ensures
            final(self).history() == old(self).history(),
            final(self).frame() == old(self).frame() + 1,
            final(self).limit() == old(self).limit(),
            final(self).well_ordered(),
    {
        proof { use_type_invariant(&*self); }
        self.current_frame = self.current_frame + 1;
    }

    /// The saved state to roll back to for `target_frame`, or an error when
    /// the history does not hold that frame.
    pub fn rollback(&self, target_frame: u32) -> (r: Result<&SavedState<S>, EngineError>)
        ensures
            r is Ok <==> self.holds_frame(target_frame),
            r matches Ok(s) ==> *s == self.history()[self.index_of_frame(target_frame)],
            r matches Err(e) ==> (e matches EngineError::InvalidOperation(m)
                && m@ == frame_not_found_text(target_frame)),
            self.well_ordered(),
    {
        proof { use_type_invariant(self); }
        let n = self.history.len();
        let mut i: usize = 0;
        while i < n
            invariant
                n == self.history@.len(),
                i <= n,
                self.well_ordered(),
                forall|j: int| 0 <= j < i ==> #[trigger] self.history@[j].frame != target_frame,
            decreases n - i,
        {
            if self.history[i].frame == target_frame {
                proof {
                    let k = self.index_of_frame(target_frame);
                    assert(self.history()[i as int].frame == target_frame);
                    assert(0 <= k < self.history().len() && self.history()[k].frame == target_frame);
                    if k != i as int {
                        if k < i as int {
                            assert(self.history@[k].frame != target_frame);
                        } else {
                            assert(self.history@[i as int].frame < self.history@[k].frame);
                        }
                    }
                }
                return Ok(&self.history[i]);
            }
            i += 1;
        }
        Err(EngineError::InvalidOperation(frame_not_found_message(target_frame)))
    }
}

/// What a save stores is what a rollback to its frame gives back: after
/// `save_state(snapshot)` at frame `f` (with a history that keeps at least
/// one frame), frame `f` is held and its saved state carries `snapshot`.
pub proof fn lemma_saved_frame_restorable<S>(
    before: RollbackSystem<S>,
    after: RollbackSystem<S>,
    snapshot: S,
)
    requires
        before.well_ordered(),
        after.well_ordered(),
        before.limit() > 0,
        after.history() == keep_last(
            before.history().push(
                (SavedState { frame: before.frame(), input_frame: before.frame(), snapshot }),
            ),
            before.limit() as nat,
        ),
    ensures
        after.holds_frame(before.frame()),
        after.history()[after.index_of_frame(before.frame())] == (SavedState {
            frame: before.frame(),
            input_frame: before.frame(),
            snapshot,
        }),
        after.history().len() <= before.limit(),
{
    let state = SavedState { frame: before.frame(), input_frame: before.frame(), snapshot };
    let full = before.history().push(state);
    lemma_keep_last_bounded(full, before.limit() as nat);
    let last = after.history().len() - 1;
    assert(after.history()[last] == state);
    assert(after.history()[last].frame == before.frame());
    let k = after.index_of_frame(before.frame());
    if k != last {
        assert(after.history()[k].frame < after.history()[last].frame);
    }
}

/// A later save keeps what was saved: a frame held before `save_state`
/// stays held, with the same saved state, unless the history was full and
/// that frame was its oldest (the one the save drops).
pub proof fn lemma_saved_frame_kept<S>(
    before: RollbackSystem<S>,
    after: RollbackSystem<S>,
    snapshot: S,
    frame: u32,
)
    requires
        before.well_ordered(),
        after.well_ordered(),
        after.history() == keep_last(
            before.history().push(
                (SavedState { frame: before.frame(), input_frame: before.frame(), snapshot }),
            ),
            before.limit() as nat,
        ),
        before.holds_frame(frame),
        before.history().len() < before.limit() || before.index_of_frame(frame) > 0,
    ensures
        after.holds_frame(frame),
        after.history()[after.index_of_frame(frame)] == before.history()[before.index_of_frame(frame)],
{
    let state = SavedState { frame: before.frame(), input_frame: before.frame(), snapshot };
    let full = before.history().push(state);
    lemma_keep_last_bounded(full, before.limit() as nat);
    let k = before.index_of_frame(frame);
    let d = full.len() - after.history().len();
    assert(0 <= d <= 1);
    let i = k - d;
    assert(0 <= i < after.history().len());
    assert(after.history()[i] == full[k]);
    assert(full[k] == before.history()[k]);
    assert(after.history()[i].frame == frame);
    assert(after.holds_frame(frame));
    let j = after.index_of_frame(frame);
    if j != i {
        if j < i {
            assert(after.history()[j].frame < after.history()[i].frame);
        } else {
            assert(after.history()[i].frame < after.history()[j].frame);
        }
    }
}

} // verus!
