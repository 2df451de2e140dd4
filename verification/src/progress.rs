//! Progress accounting for one copy operation.  The copy loop copies one
//! file at a time and records each copy here; the tracker decides when a
//! progress event is due (when the throttle window has elapsed, and always
//! for the last file) and builds the event.  A ghost log of the emitted
//! `copied` values carries the stream's guarantees: `copied` never exceeds
//! `total`, emitted values never decrease, nothing is emitted for an empty
//! operation, and a finished operation has emitted a final event whose
//! `copied` equals `total`.
use vstd::prelude::*;
use vstd::string::StringExecFns;

verus! {

/// One progress notification: how many files exist, how many are copied so
/// far, and the base name of the file just copied.  The delivered
/// percentage is `copied / total * 100`; the sink derives it from these
/// two fields, so no division is stored here.
pub struct CopyProgressEvent {
    pub total: u32,
    pub copied: u32,
    pub current_file: String,
}

/// Progress state of one copy operation.
pub struct ProgressTracker {
    pub total: u32,
    pub copied: u32,
    /// The `copied` values of the events emitted so far, oldest first.
    pub emitted: Ghost<Seq<u32>>,
}

impl ProgressTracker {
    /// Well-formedness of the progress state.
    pub open spec fn wf(self) -> bool {
        &&& self.copied <= self.total
        &&& forall|k: int| 0 <= k < self.emitted@.len() ==> #[trigger] self.emitted@[k] <= self.copied
        &&& forall|k: int, l: int|
            0 <= k < l < self.emitted@.len() ==> self.emitted@[k] <= self.emitted@[l]
        &&& self.total == 0 ==> self.emitted@.len() == 0
        &&& self.copied == self.total && self.total > 0 ==> self.emitted@.len() > 0
            && self.emitted@.last() == self.total
    }

    /// Start tracking an operation over `total` eligible files.
    pub fn new(total: u32) -> (t: ProgressTracker)
        ensures
            t.wf(),
            t.total == total,
            t.copied == 0,
            t.emitted@ =~= Seq::<u32>::empty(),
    {
        ProgressTracker { total, copied: 0, emitted: Ghost(Seq::empty()) }
    }

    /// Record that one more file was copied, and build the progress event
    /// when one is due: either the throttle window has elapsed
    /// (`throttle_elapsed`) or this was the last file.  Returns `None`
    /// exactly when no event is due.
    pub fn record_copied(&mut self, current_file: &str, throttle_elapsed: bool) -> (ev: Option<
        CopyProgressEvent,
    >)
        requires
            old(self).wf(),
            old(self).copied < old(self).total,
        ensures
            final(self).wf(),
            final(self).total == old(self).total,
            final(self).copied == old(self).copied + 1,
            ev is Some <==> (final(self).copied == final(self).total || throttle_elapsed),
            match ev {
                Some(e) => {
                    &&& e.total == final(self).total
                    &&& e.copied == final(self).copied
                    &&& e.current_file@ == current_file@
                    &&& final(self).emitted@ =~= old(self).emitted@.push(e.copied)
                },
                None => final(self).emitted@ =~= old(self).emitted@,
            },
    {
        self.copied = self.copied + 1;
        if self.copied == self.total || throttle_elapsed {
            let e = CopyProgressEvent {
                total: self.total,
                copied: self.copied,
                current_file: String::from_str(current_file),
            };
            proof {
                self.emitted@ = self.emitted@.push(e.copied);
            }
            Some(e)
        } else {
            None
        }
    }
}

/// An operation over zero files emits no events and copies nothing.
pub proof fn lemma_empty_operation_silent(t: ProgressTracker)
    requires
        t.wf(),
        t.total == 0,
    ensures
        t.emitted@.len() == 0,
        t.copied == 0,
{
}

/// The emitted `copied` values never decrease over one operation.
pub proof fn lemma_emitted_monotonic(t: ProgressTracker, k: int, l: int)
    requires
        t.wf(),
        0 <= k < l < t.emitted@.len(),
    ensures
        t.emitted@[k] <= t.emitted@[l],
{
}

/// A finished operation over at least one file has emitted a final event,
/// and that event reports every file copied: `copied == total`, hence a
/// delivered percentage of one hundred.
pub proof fn lemma_final_event(t: ProgressTracker)
    requires
        t.wf(),
        t.copied == t.total,
        t.total > 0,
    ensures
        t.emitted@.len() > 0,
        t.emitted@.last() == t.total,
{
}

} // verus!
