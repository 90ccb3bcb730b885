//! The blinking cursor as a state machine. A host schedules each callback
//! that the machine hands out and delivers it back when its delay has run.
//! Every callback carries a ticket; a callback acts only while the cursor
//! runs and its ticket is still the last one issued. Whatever is issued
//! later, and every stop, leaves it stale for good.

use vstd::prelude::*;

verus! {

/// The time between two toggles of a blinking cursor, in milliseconds.
pub const INTERVAL_MS: u64 = 500;

/// The time for which the cursor stays solid after a pause, in milliseconds.
pub const PAUSE_DELAY_MS: u64 = 300;

/// What a scheduled callback does when it comes due.
#[derive(Clone, Copy, Debug, PartialEq, Eq, Structural)]
pub enum Callback {
    /// Toggles the cursor and schedules the next toggle.
    Blink,
    /// Ends a pause and takes up blinking again.
    Resume,
}

/// A callback for the host to deliver after `delay_ms` milliseconds. It
/// carries the epoch under which it was issued and its ticket, the number of
/// callbacks that the cursor had issued when it handed this one out.
#[derive(Clone, Copy, Debug, PartialEq, Eq, Structural)]
pub struct Scheduled {
    pub callback: Callback,
    pub epoch: usize,
    pub ticket: usize,
    pub delay_ms: u64,
}

/// The state of the blinking cursor.
#[derive(Clone, Copy, Debug, PartialEq, Eq, Structural)]
pub struct BlinkCursor {
    visible: bool,
    paused: bool,
    running: bool,
    epoch: usize,
    issued: usize,
}

impl BlinkCursor {
    /// No more callbacks were issued since the last stop than ever.
    #[verifier::type_invariant]
    spec fn counted(&self) -> bool {
        self.epoch <= self.issued
    }

    /// The blink phase: whether the cursor is in the shown half of its cycle.
    pub closed spec fn phase(&self) -> bool {
        self.visible
    }

    /// Whether the cursor is held solid by a pause.
    pub closed spec fn spec_paused(&self) -> bool {
        self.paused
    }

    /// Whether the cursor was started or paused and not stopped since.
    pub closed spec fn spec_running(&self) -> bool {
        self.running
    }

    /// The epoch: the number of callbacks issued since the last stop.
    pub closed spec fn spec_epoch(&self) -> usize {
        self.epoch
    }

    /// The number of callbacks issued so far, which no stop puts back.
    pub closed spec fn spec_issued(&self) -> usize {
        self.issued
    }

    /// Whether the cursor shows: always while paused, else in the shown phase.
    pub open spec fn spec_visible(&self) -> bool {
        self.spec_paused() || self.phase()
    }

    /// Whether one more callback can be issued.
    pub open spec fn spec_can_issue(&self) -> bool {
        self.spec_issued() < usize::MAX
    }

    /// `scheduled` still counts: the cursor runs, and the callback's epoch
    /// and ticket are the current ones, so that nothing was issued and the
    /// cursor was not stopped since it was handed out.
    pub open spec fn is_live(&self, scheduled: Scheduled) -> bool {
        &&& self.spec_running()
        &&& scheduled.epoch == self.spec_epoch()
        &&& scheduled.ticket == self.spec_issued()
    }

    /// `scheduled` is stale: something was issued after it, or the cursor was
    /// stopped after it and nothing issued since.
    pub open spec fn is_stale(&self, scheduled: Scheduled) -> bool {
        scheduled.ticket < self.spec_issued() || (scheduled.ticket == self.spec_issued()
            && !self.spec_running())
    }

    /// `after` is this state with the phase toggled, with or without a pause
    /// as `paused` says, running, and one callback more issued.
    pub open spec fn advances(&self, after: &BlinkCursor, paused: bool, toggles: bool) -> bool {
        &&& after.phase() == (if toggles {
            !self.phase()
        } else {
            self.phase()
        })
        &&& after.spec_paused() == paused
        &&& after.spec_running()
        &&& after.spec_epoch() == self.spec_epoch() + 1
        &&& after.spec_issued() == self.spec_issued() + 1
    }

    /// The callback that `after` issued last: `callback`, under the epoch and
    /// the ticket that `after` has reached.
    pub open spec fn issue(after: &BlinkCursor, callback: Callback) -> Scheduled {
        Scheduled {
            callback,
            epoch: after.spec_epoch(),
            ticket: after.spec_issued(),
            delay_ms: match callback {
                Callback::Blink => INTERVAL_MS,
                Callback::Resume => PAUSE_DELAY_MS,
            },
        }
    }

    /// The state `after` a start: unchanged while paused, where the resume
    /// in flight takes up blinking; else running, toggled, and one callback
    /// more issued.
    pub open spec fn starts(&self, after: &BlinkCursor) -> bool {
        if self.spec_paused() {
            *after == *self
        } else {
            self.advances(after, false, true)
        }
    }

    /// The state `after` a stop: idle, at epoch 0, not running, not paused.
    /// The phase and the number of callbacks issued stay.
    pub open spec fn stops(&self, after: &BlinkCursor) -> bool {
        &&& !after.spec_running()
        &&& !after.spec_paused()
        &&& after.spec_epoch() == 0
        &&& after.phase() == self.phase()
        &&& after.spec_issued() == self.spec_issued()
    }

    /// The state `after` a pause: paused, running, the phase kept, and one
    /// callback more issued.
    pub open spec fn pauses(&self, after: &BlinkCursor) -> bool {
        self.advances(after, true, false)
    }

    /// Whether `scheduled` acts when it comes due: it is live, and it is not
    /// a blink that meets a pause.
    pub open spec fn acts(&self, scheduled: Scheduled) -> bool {
        self.is_live(scheduled) && !(scheduled.callback == Callback::Blink && self.spec_paused())
    }

    /// The state `after` the callback `scheduled` came due: unchanged unless
    /// it acts; else not paused, toggled, and one callback more issued.
    pub open spec fn fires(&self, after: &BlinkCursor, scheduled: Scheduled) -> bool {
        if self.acts(scheduled) {
            self.advances(after, false, true)
        } else {
            *after == *self
        }
    }

    /// An idle cursor: hidden, not paused, not running, at epoch 0, with no
    /// callback issued.
    pub fn new() -> (r: Self)
        ensures
            !r.phase(),
            !r.spec_paused(),
            !r.spec_running(),
            r.spec_epoch() == 0,
            r.spec_issued() == 0,
    {
        Self { visible: false, paused: false, running: false, epoch: 0, issued: 0 }
    }

    /// Begins a blink cycle: the cursor toggles at once and the next blink is
    /// scheduled. While the cursor is paused nothing happens: the resume in
    /// flight takes up blinking.
    pub fn start(&mut self) -> (r: Option<Scheduled>)
        requires
            old(self).spec_can_issue(),
        ensures
            old(self).starts(final(self)),
            r == if old(self).spec_paused() {
                None
            } else {
                Some(Self::issue(final(self), Callback::Blink))
            },
    {
        if self.paused {
            return None;
        }
        proof {
            use_type_invariant(&*self);
        }
        self.running = true;
        Some(self.toggle_and_issue())
    }

    /// Stops blinking and leaves the cursor idle. Every callback issued so
    /// far is stale from now on, whatever is started or paused later.
    pub fn stop(&mut self)
        ensures
            old(self).stops(final(self)),
            forall|scheduled: Scheduled|
                scheduled.ticket <= old(self).spec_issued() ==> final(self).is_stale(scheduled),
    {
        proof {
            use_type_invariant(&*self);
        }
        self.running = false;
        self.paused = false;
        self.epoch = 0;
    }

    /// Moves on to the next epoch and returns it; one callback more counts
    /// as issued.
    pub fn next_epoch(&mut self) -> (r: usize)
        requires
            old(self).spec_can_issue(),
        ensures
            r == old(self).spec_epoch() + 1,
            final(self).spec_epoch() == r,
            final(self).spec_issued() == old(self).spec_issued() + 1,
            final(self).phase() == old(self).phase(),
            final(self).spec_paused() == old(self).spec_paused(),
            final(self).spec_running() == old(self).spec_running(),
    {
        proof {
            use_type_invariant(&*self);
        }
        self.issued += 1;
        self.epoch += 1;
        self.epoch
    }

    /// Toggles the phase and issues the next blink.
    fn toggle_and_issue(&mut self) -> (r: Scheduled)
        requires
            old(self).spec_can_issue(),
        ensures
            final(self).phase() == !old(self).phase(),
            final(self).spec_paused() == old(self).spec_paused(),
            final(self).spec_running() == old(self).spec_running(),
            final(self).spec_epoch() == old(self).spec_epoch() + 1,
            final(self).spec_issued() == old(self).spec_issued() + 1,
            r == Self::issue(final(self), Callback::Blink),
    {
        proof {
            use_type_invariant(&*self);
        }
        self.visible = !self.visible;
        let epoch = self.next_epoch();
        Scheduled { callback: Callback::Blink, epoch, ticket: self.issued, delay_ms: INTERVAL_MS }
    }

    /// A blink callback with the given epoch and ticket comes due: if it
    /// acts, the cursor toggles and the next blink is scheduled.
    pub fn blink(&mut self, epoch: usize, ticket: usize) -> (r: Option<Scheduled>)
        requires
            old(self).spec_can_issue(),
        ensures
            old(self).fires(
                final(self),
                Scheduled { callback: Callback::Blink, epoch, ticket, delay_ms: INTERVAL_MS },
            ),
            r == if old(self).acts(
                Scheduled { callback: Callback::Blink, epoch, ticket, delay_ms: INTERVAL_MS },
            ) {
                Some(Self::issue(final(self), Callback::Blink))
            } else {
                None
            },
    {
        if !self.running || self.paused || epoch != self.epoch || ticket != self.issued {
            return None;
        }
        Some(self.toggle_and_issue())
    }

    /// Whether the cursor shows: always while paused, else in the shown phase.
    pub fn visible(&self) -> (r: bool)
        ensures
            r == self.spec_visible(),
    {
        self.paused || self.visible
    }

    /// The epoch: the number of callbacks issued since the last stop.
    pub fn epoch(&self) -> (r: usize)
        ensures
            r == self.spec_epoch(),
    {
        self.epoch
    }

    /// Whether the cursor is held solid by a pause.
    pub fn paused(&self) -> (r: bool)
        ensures
            r == self.spec_paused(),
    {
        self.paused
    }

    /// Whether the cursor was started or paused and not stopped since.
    pub fn running(&self) -> (r: bool)
        ensures
            r == self.spec_running(),
    {
        self.running
    }

    /// Whether one more callback can be issued, which `start`, `pause`,
    /// `blink` and `fire` ask for.
    pub fn can_issue(&self) -> (r: bool)
        ensures
            r == self.spec_can_issue(),
    {
        self.issued < usize::MAX
    }

    /// Holds the cursor solid: the blink in flight is left stale, and a
    /// resume is scheduled.
    pub fn pause(&mut self) -> (r: Scheduled)
        requires
            old(self).spec_can_issue(),
        ensures
            old(self).pauses(final(self)),
            r == Self::issue(final(self), Callback::Resume),
    {
        proof {
            use_type_invariant(&*self);
        }
        self.paused = true;
        self.running = true;
        let epoch = self.next_epoch();
        Scheduled {
            callback: Callback::Resume,
            epoch,
            ticket: self.issued,
            delay_ms: PAUSE_DELAY_MS,
        }
    }

    /// Delivers a callback whose delay has run. A stale callback does
    /// nothing. A live resume ends the pause; the cursor then toggles and
    /// the next blink is scheduled, as after a live blink.
    pub fn fire(&mut self, scheduled: Scheduled) -> (r: Option<Scheduled>)
        requires
            old(self).spec_can_issue(),
        ensures
            old(self).fires(final(self), scheduled),
            r == if old(self).acts(scheduled) {
                Some(Self::issue(final(self), Callback::Blink))
            } else {
                None
            },
    {
        if !self.running || scheduled.epoch != self.epoch || scheduled.ticket != self.issued {
            return None;
        }
        match scheduled.callback {
            Callback::Blink => self.blink(scheduled.epoch, scheduled.ticket),
            Callback::Resume => {
                proof {
                    use_type_invariant(&*self);
                }
                self.paused = false;
                Some(self.toggle_and_issue())
            },
        }
    }
}

/// A stale callback does nothing when it comes due.
pub proof fn stale_does_nothing(before: BlinkCursor, after: BlinkCursor, scheduled: Scheduled)
    requires
        before.is_stale(scheduled),
        before.fires(&after, scheduled),
    ensures
        after == before,
{
}

/// A stale callback stays stale through every start, stop and pause and
/// through every other callback that comes due: once stale, it never acts.
pub proof fn stale_stays_stale(
    before: BlinkCursor,
    after: BlinkCursor,
    scheduled: Scheduled,
    other: Scheduled,
)
    requires
        before.is_stale(scheduled),
        before.starts(&after) || before.stops(&after) || before.pauses(&after) || before.fires(
            &after,
            other,
        ),
    ensures
        after.is_stale(scheduled),
{
}

impl Default for BlinkCursor {
    fn default() -> (r: Self)
        ensures
            !r.phase(),
            !r.spec_paused(),
            !r.spec_running(),
            r.spec_epoch() == 0,
            r.spec_issued() == 0,
    {
        Self::new()
    }
}

} // verus!
