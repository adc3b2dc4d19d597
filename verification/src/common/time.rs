//! Timers that a user provides, and what goes without one.

use std::sync::Arc;
use std::time::{Duration, Instant};

use vstd::prelude::*;

use crate::outside::std_time::instant_now;

verus! {

/// A source of time that a user provides.
pub trait Timer: Sized {
    /// Something that waits until a time.
    type Sleep;

    /// Waits for a while.
    fn sleep(&self, duration: Duration) -> Self::Sleep;

    /// Waits until a time.
    fn sleep_until(&self, deadline: Instant) -> Self::Sleep;

    /// The present.
    fn now(&self) -> Instant;

    /// Makes a sleep wait until another time.
    fn reset(&self, sleep: &mut Self::Sleep, new_deadline: Instant);
}

/// The timer of a connection, if it was given one.
#[derive(Debug)]
pub enum Time<M> {
    Timer(Arc<M>),
    Empty,
}

/// A timeout, if any: one that the library chose, or one that the user asked for.
#[derive(Debug, Clone, Copy)]
pub enum Dur {
    Default(Option<Duration>),
    Configured(Option<Duration>),
}

/// The system's clock can show this instant.
pub closed spec fn clock_gives(r: Instant) -> bool {
    call_ensures(instant_now, (), r)
}

impl Dur {
    /// The timeout that is in force, given whether there is a timer.
    pub open spec fn in_force(&self, has_timer: bool) -> Option<Duration> {
        if has_timer {
            self.timeout()
        } else {
            None
        }
    }

    /// The timeout itself.
    pub open spec fn timeout(&self) -> Option<Duration> {
        match *self {
            Dur::Default(dur) => dur,
            Dur::Configured(dur) => dur,
        }
    }
}

impl<M> Clone for Time<M> {
    fn clone(&self) -> (r: Time<M>)
        ensures
            r == *self,
    {
        match self {
            Time::Timer(t) => Time::Timer(t.clone()),
            Time::Empty => Time::Empty,
        }
    }
}

impl<M: Timer> Time<M> {
    /// Waits for a while, as the timer does. There must be a timer.
    pub fn sleep(&self, duration: Duration) -> (r: M::Sleep)
        requires
            self is Timer,
        ensures
            call_ensures(M::sleep, (&*self->Timer_0, duration), r),
    {
        match self {
            Time::Empty => vstd::pervasive::unreached(),
            Time::Timer(t) => t.sleep(duration),
        }
    }

    /// Waits until a time, as the timer does. There must be a timer.
    pub fn sleep_until(&self, deadline: Instant) -> (r: M::Sleep)
        requires
            self is Timer,
        ensures
            call_ensures(M::sleep_until, (&*self->Timer_0, deadline), r),
    {
        match self {
            Time::Empty => vstd::pervasive::unreached(),
            Time::Timer(t) => t.sleep_until(deadline),
        }
    }

    /// The present, as the timer sees it where there is one.
    pub fn now(&self) -> (r: Instant)
        ensures
            self is Timer ==> call_ensures(M::now, (&*self->Timer_0,), r),
            self is Empty ==> clock_gives(r),
    {
        match self {
            Time::Empty => instant_now(),
            Time::Timer(t) => t.now(),
        }
    }

    /// Makes a sleep wait until another time, as the timer does. There must be a
    /// timer.
    pub fn reset(&self, sleep: &mut M::Sleep, new_deadline: Instant)
        requires
            self is Timer,
        ensures
            exists|s: &mut M::Sleep|
                *s == *old(sleep) && *final(s) == *final(sleep) && #[trigger] call_ensures(
                    M::reset,
                    (&*self->Timer_0, s, new_deadline),
                    (),
                ),
    {
        match self {
            Time::Empty => {},
            Time::Timer(t) => t.reset(sleep, new_deadline),
        }
    }

    /// The timeout of a name that is in force. Without a timer none is: a timeout
    /// that the library chose is passed over, and one that the user asked for must
    /// not be without a timer.
    pub fn check(&self, dur: Dur, _name: &'static str) -> (r: Option<Duration>)
        requires
            dur is Configured && dur.timeout() is Some ==> self is Timer,
        ensures
            r == dur.in_force(self is Timer),
    {
        match dur {
            Dur::Default(Some(dur)) => match self {
                Time::Empty => None,
                Time::Timer(_) => Some(dur),
            },
            Dur::Configured(Some(dur)) => match self {
                Time::Empty => None,
                Time::Timer(_) => Some(dur),
            },
            Dur::Default(None) | Dur::Configured(None) => None,
        }
    }
}

/// A timeout is the one that was given, whoever chose it; it is in force exactly where
/// there is a timer.
pub proof fn law_timeouts(dur: Option<Duration>)
    ensures
        Dur::Default(dur).timeout() == dur,
        Dur::Configured(dur).timeout() == dur,
        Dur::Default(dur).in_force(true) == dur,
        Dur::Configured(dur).in_force(true) == dur,
        Dur::Default(dur).in_force(false) is None,
        Dur::Configured(dur).in_force(false) is None,
{
}

// What the clock gives is what a call that reads it gives.
proof fn law_clock(r: Instant)
    ensures
        clock_gives(r) <==> call_ensures(instant_now, (), r),
{
}

} // verus!
