//! A debouncer: runs a function at most once per delay.

use std::time::Duration;
use std::time::Instant;
use vstd::prelude::*;

verus! {

#[verifier::external_type_specification]
#[verifier::external_body]
pub struct ExInstant(Instant);

/// Calls `Instant::now`.
///
/// Trusted, with nothing claimed: the moment differs from call to call.
#[verifier::external_body]
fn now() -> Instant {
    Instant::now()
}

/// Calls `Instant::duration_since`: the time that passed from `earlier` to
/// `later`, zero if `earlier` is the later one.
///
/// Trusted, with nothing claimed of the duration.
#[verifier::external_body]
fn elapsed_between(later: &Instant, earlier: &Instant) -> Duration {
    later.duration_since(*earlier)
}

/// Calls `Duration::as_nanos`: the length of the duration in whole
/// nanoseconds.
///
/// Trusted, with nothing claimed of the number.
#[verifier::external_body]
fn as_nanos(duration: &Duration) -> u128 {
    duration.as_nanos()
}

/// Whether a run is due: always when there was none before, else when more
/// than the delay has passed since the last one.
pub fn is_due(elapsed_nanos: Option<u128>, delay_nanos: u128) -> (r: bool)
    ensures
        r == (elapsed_nanos is None || elapsed_nanos->0 > delay_nanos),
{
    match elapsed_nanos {
        None => true,
        Some(elapsed) => elapsed > delay_nanos,
    }
}

/// The place of the function of a bouncer to which none was bound.
#[derive(Clone, Copy, Debug)]
pub struct Unbound {}

/// Runs a function at most once per `delay`.
pub struct Bouncer<T, F = Unbound> {
    pub delay: Duration,
    last_run: Option<Instant>,
    func: Option<F>,
    result: Option<T>,
}

impl<T> Bouncer<T, Unbound> {
    /// A bouncer with the given delay that has not run and has no function.
    pub fn new(delay: Duration) -> (r: Self)
        ensures
            r.spec_delay() == delay,
            !r.has_run(),
            r.spec_func() is None,
            r.spec_result() is None,
    {
        Self { delay, last_run: None, func: None, result: None }
    }
}

impl<T> Bouncer<T, Unbound> {
    /// Without a bound function there is nothing to run: the bouncer stays
    /// as it is.
    pub fn execute(&mut self)
        ensures
            final(self).spec_delay() == old(self).spec_delay(),
            final(self).spec_last_run() == old(self).spec_last_run(),
            final(self).spec_func() == old(self).spec_func(),
            final(self).spec_result() == old(self).spec_result(),
    {
    }
}

impl<T, F> Bouncer<T, F> {
    /// The delay between two runs.
    pub closed spec fn spec_delay(&self) -> Duration {
        self.delay
    }

    /// The moment of the last run, if there was one.
    pub closed spec fn spec_last_run(&self) -> Option<Instant> {
        self.last_run
    }

    /// Whether the bouncer has run before.
    pub open spec fn has_run(&self) -> bool {
        self.spec_last_run() is Some
    }

    /// The function bound to the bouncer, if any.
    pub closed spec fn spec_func(&self) -> Option<F> {
        self.func
    }

    /// The result that the last call of `execute` left, if any.
    pub closed spec fn spec_result(&self) -> Option<T> {
        self.result
    }

    /// The bouncer with `func` bound to it.
    pub fn with_func<G: Fn() -> T>(self, func: G) -> (r: Bouncer<T, G>)
        ensures
            r.spec_delay() == self.spec_delay(),
            r.spec_last_run() == self.spec_last_run(),
            r.spec_func() == Some(func),
            r.spec_result() == self.spec_result(),
    {
        Bouncer { delay: self.delay, last_run: self.last_run, func: Some(func), result: self.result }
    }

    /// The result that the last call of `execute` left, if any.
    pub fn get_result(&mut self) -> (r: Option<&T>)
        ensures
            r is Some <==> old(self).spec_result() is Some,
            r is Some ==> *r->0 == old(self).spec_result()->0,
            *final(self) == *old(self),
    {
        self.result.as_ref()
    }

    /// Whether a run is due now: always when there was none before, else when
    /// more than the delay has passed since the last one.
    fn ready(&self) -> (r: bool)
        ensures
            !self.has_run() ==> r,
    {
        let elapsed = match &self.last_run {
            Some(last_run) => {
                let moment = now();
                let gap = elapsed_between(&moment, last_run);
                Some(as_nanos(&gap))
            },
            None => None,
        };
        is_due(elapsed, as_nanos(&self.delay))
    }

    /// Runs `func` if a run is due, and returns what it gave. The first call
    /// always runs; a later one runs when more than the delay has passed
    /// since the last run. A call that does not run leaves the moment of the
    /// last run as it is.
    pub fn debounce<G: Fn() -> T>(&mut self, func: G) -> (r: Option<T>)
        requires
            call_requires(func, ()),
        ensures
            !old(self).has_run() ==> r is Some,
            r is Some ==> call_ensures(func, (), r->0) && final(self).has_run(),
            r is None ==> final(self).spec_last_run() == old(self).spec_last_run(),
            final(self).spec_delay() == old(self).spec_delay(),
            final(self).spec_func() == old(self).spec_func(),
            final(self).spec_result() == old(self).spec_result(),
    {
        if self.ready() {
            self.last_run = Some(now());
            Some(func())
        } else {
            None
        }
    }

    /// Forgets the last run, so that the next call runs.
    pub fn reset(&mut self)
        ensures
            final(self).spec_last_run() is None,
            final(self).spec_delay() == old(self).spec_delay(),
            final(self).spec_func() == old(self).spec_func(),
            final(self).spec_result() == old(self).spec_result(),
    {
        self.last_run = None;
    }
}

impl<T, F: Fn() -> T> Bouncer<T, F> {
    /// Runs the bound function if there is one and a run is due, and keeps
    /// what it gave as the result; a run that is not due leaves no result.
    /// Without a bound function nothing changes.
    pub fn execute(&mut self)
        requires
            old(self).spec_func() is Some ==> call_requires(old(self).spec_func()->0, ()),
        ensures
            final(self).spec_delay() == old(self).spec_delay(),
            final(self).spec_func() == old(self).spec_func(),
            old(self).spec_func() is None ==> final(self).spec_result() == old(self).spec_result()
                && final(self).spec_last_run() == old(self).spec_last_run(),
            old(self).spec_func() is Some ==> {
                &&& final(self).spec_result() is Some ==> final(self).has_run()
                &&& final(self).spec_result() is None ==> final(self).spec_last_run()
                    == old(self).spec_last_run()
                &&& !old(self).has_run() ==> final(self).spec_result() is Some
                &&& final(self).spec_result() is Some ==> call_ensures(
                    old(self).spec_func()->0,
                    (),
                    final(self).spec_result()->0,
                )
            },
    {
        if self.func.is_some() {
            if self.ready() {
                self.last_run = Some(now());
                let value = match &self.func {
                    Some(func) => Some(func()),
                    None => None,
                };
                self.result = value;
            } else {
                self.result = None;
            }
        }
    }
}

} // verus!
