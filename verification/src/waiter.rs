//! The threshold-observing wait primitive.
//!
//! `WaitForStateMachine` is polled cooperatively: each poll is handed a
//! snapshot of the shared counter and either stays pending or resolves with
//! a final message. It advances strictly forward through three phases:
//! `Start` until the counter reaches the first threshold, then `Mid`
//! (carrying a note recorded at that transition) until the counter reaches
//! the second threshold, then `Done`. It resolves exactly once, on the poll
//! that leaves `Mid`; polled after that it stays pending forever.
//!
//! The caller runs the polling loop (reading the counter and rescheduling);
//! the decision each poll makes is `poll` here, and the laws at the bottom
//! state what any sequence of snapshots can produce.
use vstd::prelude::*;

verus! {

/// The counter value that moves the waiter out of `Start`.
pub const MID_THRESHOLD: i32 = 3;

/// The counter value that lets the waiter resolve out of `Mid`.
pub const DONE_THRESHOLD: i32 = 5;

/// The phase of the wait state machine.
pub enum CountState {
    Start,
    Mid { note: String },
    Done,
}

/// The mathematical view of a phase: the `Mid` note as a character sequence.
pub enum PhaseView {
    Start,
    Mid(Seq<char>),
    Done,
}

impl View for CountState {
    type V = PhaseView;

    open spec fn view(&self) -> PhaseView {
        match self {
            CountState::Start => PhaseView::Start,
            CountState::Mid { note } => PhaseView::Mid(note@),
            CountState::Done => PhaseView::Done,
        }
    }
}

/// The note recorded when the first threshold is crossed.
pub open spec fn note_text() -> Seq<char> {
    "reached 3 requests"@
}

/// The message the waiter resolves with, for a given `Mid` note.
pub open spec fn resolved_message(note: Seq<char>) -> Seq<char> {
    "Reached 5 total requests (note from mid-state: "@ + note + ")"@
}

/// The phase after one poll that observes the snapshot `current`.
pub open spec fn step(p: PhaseView, current: i32) -> PhaseView {
    match p {
        PhaseView::Start => if current >= MID_THRESHOLD {
            PhaseView::Mid(note_text())
        } else {
            PhaseView::Start
        },
        PhaseView::Mid(note) => if current >= DONE_THRESHOLD {
            PhaseView::Done
        } else {
            PhaseView::Mid(note)
        },
        PhaseView::Done => PhaseView::Done,
    }
}

/// Whether a poll in phase `p` observing `current` resolves.
pub open spec fn poll_resolves(p: PhaseView, current: i32) -> bool {
    p is Mid && current >= DONE_THRESHOLD
}

/// The note a `Mid` phase carries (the empty sequence elsewhere).
pub open spec fn mid_note(p: PhaseView) -> Seq<char> {
    match p {
        PhaseView::Mid(note) => note,
        _ => Seq::empty(),
    }
}

/// The wait primitive: resolves once the shared counter has crossed
/// `MID_THRESHOLD` and then `DONE_THRESHOLD`.
pub struct WaitForStateMachine {
    machine: CountState,
}

impl View for WaitForStateMachine {
    type V = PhaseView;

    closed spec fn view(&self) -> PhaseView {
        self.machine@
    }
}

impl WaitForStateMachine {
    /// A fresh waiter, in the `Start` phase.
    pub fn new() -> (r: Self)
        ensures
            r@ == PhaseView::Start,
    {
        Self { machine: CountState::Start }
    }

    /// One poll, observing the counter snapshot `current`.
    ///
    /// Returns `None` to stay pending (the caller reschedules the poll) or
    /// `Some` with the final message exactly when the phase is `Mid` and the
    /// snapshot has reached `DONE_THRESHOLD`.
    pub fn poll(&mut self, current: i32) -> (r: Option<String>)
        ensures
            final(self)@ == step(old(self)@, current),
            r is Some <==> poll_resolves(old(self)@, current),
            poll_resolves(old(self)@, current) ==> (r matches Some(msg) && msg@
                == resolved_message(mid_note(old(self)@))),
    {
        let mut next: Option<CountState> = None;
        let mut out: Option<String> = None;
        match &self.machine {
            CountState::Start => {
                if current >= MID_THRESHOLD {
                    next = Some(CountState::Mid { note: String::from_str("reached 3 requests") });
                }
            },
            CountState::Mid { note } => {
                if current >= DONE_THRESHOLD {
                    let mut msg = String::from_str(
                        "Reached 5 total requests (note from mid-state: ",
                    );
                    msg.append(note.as_str());
                    msg.append(")");
                    out = Some(msg);
                    next = Some(CountState::Done);
                }
            },
            CountState::Done => {},
        }
        if let Some(m) = next {
            self.machine = m;
        }
        out
    }
}

/// The phase after a whole sequence of polls, one per snapshot.
pub open spec fn run_phases(p: PhaseView, snaps: Seq<i32>) -> PhaseView
    decreases snaps.len(),
{
    if snaps.len() == 0 {
        p
    } else {
        run_phases(step(p, snaps[0]), snaps.drop_first())
    }
}

/// Every message resolved over a sequence of polls, in order.
pub open spec fn outputs_of(p: PhaseView, snaps: Seq<i32>) -> Seq<Seq<char>>
    decreases snaps.len(),
{
    if snaps.len() == 0 {
        Seq::empty()
    } else {
        let rest = outputs_of(step(p, snaps[0]), snaps.drop_first());
        if poll_resolves(p, snaps[0]) {
            match p {
                PhaseView::Mid(note) => seq![resolved_message(note)] + rest,
                _ => rest,
            }
        } else {
            rest
        }
    }
}

/// Once the waiter is done it never resolves again, however it is polled.
pub proof fn lemma_done_stays_silent(snaps: Seq<i32>)
    ensures
        outputs_of(PhaseView::Done, snaps) =~= Seq::<Seq<char>>::empty(),
    decreases snaps.len(),
{
    if snaps.len() > 0 {
        lemma_done_stays_silent(snaps.drop_first());
    }
}

/// The waiter resolves at most once: no sequence of snapshots, from any
/// phase, produces more than one message.
pub proof fn lemma_resolves_at_most_once(p: PhaseView, snaps: Seq<i32>)
    ensures
        outputs_of(p, snaps).len() <= 1,
    decreases snaps.len(),
{
    if snaps.len() > 0 {
        if poll_resolves(p, snaps[0]) {
            lemma_done_stays_silent(snaps.drop_first());
        } else {
            lemma_resolves_at_most_once(step(p, snaps[0]), snaps.drop_first());
        }
    }
}

/// If no snapshot ever reaches `DONE_THRESHOLD`, the waiter never resolves.
pub proof fn lemma_never_resolves_below_done(p: PhaseView, snaps: Seq<i32>)
    requires
        forall|i: int| 0 <= i < snaps.len() ==> snaps[i] < DONE_THRESHOLD,
    ensures
        outputs_of(p, snaps) =~= Seq::<Seq<char>>::empty(),
    decreases snaps.len(),
{
    if snaps.len() > 0 {
        assert(forall|i: int|
            0 <= i < snaps.drop_first().len() ==> snaps.drop_first()[i] == snaps[i + 1]);
        lemma_never_resolves_below_done(step(p, snaps[0]), snaps.drop_first());
    }
}

/// From `Start`, the only note the machine ever carries is `note_text()`,
/// so the only message it can resolve with is the one built from that note.
pub proof fn lemma_message_is_exact(p: PhaseView, snaps: Seq<i32>)
    requires
        p == PhaseView::Start || p == PhaseView::Mid(note_text()) || p == PhaseView::Done,
    ensures
        forall|i: int|
            0 <= i < outputs_of(p, snaps).len() ==> outputs_of(p, snaps)[i] == resolved_message(
                note_text(),
            ),
    decreases snaps.len(),
{
    if snaps.len() > 0 {
        let rest = outputs_of(step(p, snaps[0]), snaps.drop_first());
        lemma_message_is_exact(step(p, snaps[0]), snaps.drop_first());
        let out = outputs_of(p, snaps);
        if poll_resolves(p, snaps[0]) {
            assert(p == PhaseView::Mid(note_text()));
            assert(out == seq![resolved_message(note_text())] + rest);
            assert(forall|i: int| 1 <= i < out.len() ==> out[i] == rest[i - 1]);
        } else {
            assert(out == rest);
        }
    }
}

/// From `Mid`, one later snapshot at or above `DONE_THRESHOLD` is enough:
/// the waiter resolves exactly once.
proof fn lemma_mid_resolves(note: Seq<char>, snaps: Seq<i32>, k: int)
    requires
        0 <= k < snaps.len(),
        snaps[k] >= DONE_THRESHOLD,
    ensures
        outputs_of(PhaseView::Mid(note), snaps).len() == 1,
    decreases snaps.len(),
{
    if poll_resolves(PhaseView::Mid(note), snaps[0]) {
        lemma_done_stays_silent(snaps.drop_first());
    } else {
        assert(snaps.drop_first()[k - 1] == snaps[k]);
        lemma_mid_resolves(note, snaps.drop_first(), k - 1);
    }
}

/// From `Start`, a snapshot at or above `MID_THRESHOLD` followed by a later
/// one at or above `DONE_THRESHOLD` makes the waiter resolve, exactly once.
pub proof fn lemma_resolves_once_thresholds_crossed(snaps: Seq<i32>, i: int, j: int)
    requires
        0 <= i < j < snaps.len(),
        snaps[i] >= MID_THRESHOLD,
        snaps[j] >= DONE_THRESHOLD,
    ensures
        outputs_of(PhaseView::Start, snaps).len() == 1,
    decreases snaps.len(),
{
    if snaps[0] >= MID_THRESHOLD {
        assert(snaps.drop_first()[j - 1] == snaps[j]);
        lemma_mid_resolves(note_text(), snaps.drop_first(), j - 1);
    } else {
        assert(i > 0);
        assert(snaps.drop_first()[i - 1] == snaps[i]);
        assert(snaps.drop_first()[j - 1] == snaps[j]);
        lemma_resolves_once_thresholds_crossed(snaps.drop_first(), i - 1, j - 1);
    }
}

} // verus!
