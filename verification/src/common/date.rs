//! The `date` header: the text of the present second, kept until the next.

use std::time::{Duration, SystemTime};

use http::header::HeaderValue;
use vstd::prelude::*;

use crate::outside::http_crate::{
    is_value_byte, is_visible, is_visible_ascii, value_bytes, value_clone,
};
use crate::outside::std_time::{
    duration_nanos, http_date, http_date_text, since_epoch, system_nanos, system_now,
    HTTP_DATE_END,
};

verus! {

/// The length of an HTTP date.
pub const DATE_VALUE_LENGTH: usize = 29;

/// A time: seconds since the start of 1970, and nanoseconds beyond them.
#[derive(Debug, Clone, Copy, PartialEq, Eq, Structural)]
pub struct Moment {
    pub secs: u64,
    pub nanos: u32,
}

impl Moment {
    /// All nanoseconds since the start of 1970.
    pub open spec fn total(&self) -> int {
        self.secs * 1_000_000_000 + self.nanos
    }

    /// A time that an HTTP date can show.
    pub open spec fn valid(&self) -> bool {
        self.secs < HTTP_DATE_END && self.nanos < 1_000_000_000
    }

    /// The time that lies so long after the start of 1970, where an HTTP date can
    /// show it.
    pub fn of(since: Duration) -> (r: Option<Moment>)
        ensures
            r is Some <==> duration_nanos(since) < HTTP_DATE_END * 1_000_000_000,
            r is Some ==> r->0.valid() && r->0.total() == duration_nanos(since),
            r is Some ==> r->0 == Moment::after(duration_nanos(since) as int),
    {
        let secs: u64 = since.as_secs();
        let nanos: u32 = since.subsec_nanos();
        if secs < HTTP_DATE_END {
            Some(Moment { secs, nanos })
        } else {
            None
        }
    }

    /// The moment so many nanoseconds after the start of 1970.
    pub open spec fn after(nanos: int) -> Moment {
        Moment { secs: (nanos / 1_000_000_000) as u64, nanos: (nanos % 1_000_000_000) as u32 }
    }

    /// The moment of a time of the system's clock, where an HTTP date can show it.
    pub fn at(time: &SystemTime) -> (r: Option<Moment>)
        ensures
            r is Some <==> can_be_shown(*time),
            r is Some ==> r->0.valid() && r->0.total() == system_nanos(*time),
            r is Some ==> r->0 == Moment::after(system_nanos(*time)),
    {
        match since_epoch(time) {
            Some(since) => Moment::of(since),
            None => None,
        }
    }

    /// Whether it is later than a full second.
    fn is_after_second(&self, secs: u64) -> (r: bool)
        requires
            self.nanos < 1_000_000_000,
        ensures
            r == (self.total() > secs * 1_000_000_000),
    {
        self.secs > secs || (self.secs == secs && self.nanos > 0)
    }
}

/// The system's clock can show this time.
pub closed spec fn clock_shows(time: SystemTime) -> bool {
    call_ensures(system_now, (), time)
}

/// Whether an HTTP date can show a time.
pub open spec fn can_be_shown(time: SystemTime) -> bool {
    0 <= system_nanos(time) < HTTP_DATE_END * 1_000_000_000
}

/// The date as it was last rendered.
#[derive(Debug)]
pub struct CachedDate {
    bytes: [u8; DATE_VALUE_LENGTH],
    pos: usize,
    header_value: HeaderValue,
    next_update: u64,
}

impl CachedDate {
    /// The second that the date shows.
    pub closed spec fn second(&self) -> int {
        self.next_update - 1
    }

    /// The text of the date, and its header value, are those of the second.
    pub closed spec fn wf(&self) -> bool {
        &&& 0 <= self.second() < HTTP_DATE_END
        &&& self.bytes@ == http_date_text(self.second() as u64)
        &&& value_bytes(self.header_value) == http_date_text(self.second() as u64)
    }

    /// The date at a time.
    pub fn new_at(now: Moment) -> (date: CachedDate)
        requires
            now.valid(),
        ensures
            date.wf(),
            date.second() == now.secs,
    {
        let empty: [u8; 0] = [];
        let header_value: HeaderValue = HeaderValue::from_bytes(&empty).unwrap();
        let mut date = CachedDate {
            bytes: [0;DATE_VALUE_LENGTH],
            pos: 0,
            header_value,
            next_update: now.secs,
        };
        date.update(now);
        date
    }

    /// The date at present; none where the clock shows a time that no HTTP date
    /// can show.
    pub fn new() -> (date: Option<CachedDate>)
        ensures
            date is Some ==> date->0.wf(),
            exists|time: SystemTime| #[trigger]
                clock_shows(time) && (date is Some <==> can_be_shown(time)) && (date is Some
                    ==> date->0.second() == Moment::after(system_nanos(time)).secs),
    {
        match CachedDate::present() {
            Some(now) => Some(CachedDate::new_at(now)),
            None => None,
        }
    }

    fn present() -> (now: Option<Moment>)
        ensures
            now is Some ==> now->0.valid(),
            exists|time: SystemTime| #[trigger]
                clock_shows(time) && (now is Some <==> can_be_shown(time)) && (now is Some
                    ==> now->0 == Moment::after(system_nanos(time))),
    {
        let time: SystemTime = system_now();
        assert(clock_shows(time));
        Moment::at(&time)
    }

    /// The text of the date.
    pub fn buffer(&self) -> (s: &[u8])
        requires
            self.wf(),
        ensures
            s@ == http_date_text(self.second() as u64),
    {
        &self.bytes
    }

    /// The date as a header value.
    pub fn header_value(&self) -> (v: HeaderValue)
        requires
            self.wf(),
        ensures
            value_bytes(v) == http_date_text(self.second() as u64),
    {
        value_clone(&self.header_value)
    }

    /// Puts the text of the date behind some bytes.
    pub fn extend(&self, dst: &mut Vec<u8>)
        requires
            self.wf(),
        ensures
            final(dst)@ == old(dst)@ + http_date_text(self.second() as u64),
    {
        let ghost before = dst@;
        let mut i: usize = 0;
        assert(before + self.bytes@.take(0) =~= before);
        while i < DATE_VALUE_LENGTH
            invariant
                i <= DATE_VALUE_LENGTH,
                dst@ == before + self.bytes@.take(i as int),
            decreases DATE_VALUE_LENGTH - i,
        {
            dst.push(self.bytes[i]);
            assert(self.bytes@.take(i + 1) =~= self.bytes@.take(i as int).push(
                self.bytes@[i as int],
            ));
            assert(dst@ =~= before + self.bytes@.take(i + 1));
            i = i + 1;
        }
        assert(self.bytes@.take(i as int) =~= self.bytes@);
    }

    /// Renders the date anew where the second that it shows is over.
    pub fn check_at(&mut self, now: Moment)
        requires
            old(self).wf(),
            now.valid(),
        ensures
            final(self).wf(),
            final(self).second() == second_after_check(old(self).second(), now),
    {
        if now.is_after_second(self.next_update) {
            self.update(now);
        }
    }

    /// Renders the date anew where the second that it shows is over. It says
    /// whether the clock shows a time that an HTTP date can show; where it does not,
    /// the date stays.
    pub fn check(&mut self) -> (r: bool)
        requires
            old(self).wf(),
        ensures
            final(self).wf(),
            exists|time: SystemTime| #[trigger]
                clock_shows(time) && r == can_be_shown(time) && final(self).second() == if r {
                    second_after_check(old(self).second(), Moment::after(system_nanos(time)))
                } else {
                    old(self).second()
                },
    {
        match CachedDate::present() {
            Some(now) => {
                self.check_at(now);
                true
            },
            None => false,
        }
    }

    /// Renders the date of a time; it is good until the next full second.
    pub fn update(&mut self, now: Moment)
        requires
            now.valid(),
        ensures
            final(self).wf(),
            final(self).second() == now.secs,
    {
        self.render(now);
        self.next_update = now.secs + 1;
    }

    fn render(&mut self, now: Moment)
        requires
            now.valid(),
        ensures
            final(self).bytes@ == http_date_text(now.secs),
            value_bytes(final(self).header_value) == http_date_text(now.secs),
            final(self).pos == DATE_VALUE_LENGTH,
    {
        self.pos = 0;
        let text: Vec<u8> = http_date(now.secs);
        self.write_str(text.as_slice());
        assert(self.bytes@ =~= http_date_text(now.secs));
        self.render_http2();
    }

    fn render_http2(&mut self)
        requires
            is_visible(old(self).bytes@),
        ensures
            value_bytes(final(self).header_value) == old(self).bytes@,
            final(self).bytes@ == old(self).bytes@,
            final(self).pos == old(self).pos,
    {
        proof {
            assert forall|i: int| 0 <= i < self.bytes@.len() implies is_value_byte(
                #[trigger] self.bytes@[i],
            ) by {
                assert(is_visible_ascii(self.bytes@[i]));
            }
        }
        self.header_value = HeaderValue::from_bytes(&self.bytes).unwrap();
    }

    /// Writes text at the present position, and moves the position behind it.
    fn write_str(&mut self, s: &[u8])
        requires
            old(self).pos + s.len() <= DATE_VALUE_LENGTH,
        ensures
            final(self).pos == old(self).pos + s.len(),
            forall|i: int|
                0 <= i < DATE_VALUE_LENGTH ==> #[trigger] final(self).bytes@[i] == (if old(
                    self,
                ).pos <= i < old(self).pos + s.len() {
                    s@[i - old(self).pos]
                } else {
                    old(self).bytes@[i]
                }),
    {
        let start: usize = self.pos;
        let mut i: usize = 0;
        while i < s.len()
            invariant
                i <= s.len(),
                start == old(self).pos,
                start + s.len() <= DATE_VALUE_LENGTH,
                forall|j: int|
                    0 <= j < DATE_VALUE_LENGTH ==> #[trigger] self.bytes@[j] == (if start <= j
                        < start + i {
                        s@[j - start]
                    } else {
                        old(self).bytes@[j]
                    }),
            decreases s.len() - i,
        {
            self.bytes[start + i] = s[i];
            i = i + 1;
        }
        self.pos = start + s.len();
    }
}

/// The second that a date shows once it was checked at a time.
pub open spec fn second_after_check(second: int, now: Moment) -> int {
    if now.total() > (second + 1) * 1_000_000_000 {
        now.secs as int
    } else {
        second
    }
}

/// A date that was just checked shows a second that is not over yet, or ends just
/// now; and where it showed no future second before, it shows none now.
pub proof fn law_checked_date_is_fresh(second: int, now: Moment)
    requires
        now.valid(),
    ensures
        now.total() <= (second_after_check(second, now) + 1) * 1_000_000_000,
        second * 1_000_000_000 <= now.total() ==> second_after_check(second, now) * 1_000_000_000
            <= now.total(),
{
}

/// A date is rendered anew exactly when the second that it shows is over, and shows the
/// full second of that time then; else it stays.
pub proof fn law_date_stays_for_its_second(second: int, now: Moment)
    requires
        now.valid(),
    ensures
        now.secs * 1_000_000_000 + now.nanos <= (second + 1) * 1_000_000_000
            ==> second_after_check(second, now) == second,
        now.secs * 1_000_000_000 + now.nanos > (second + 1) * 1_000_000_000 ==> second_after_check(
            second,
            now,
        ) == now.secs,
{
}

/// A moment is made of the full seconds of a time and of the nanoseconds beyond them,
/// and an HTTP date can show it up to the end of the year 9999.
pub proof fn law_moments(nanos: int)
    requires
        0 <= nanos < 253402300800 * 1_000_000_000,
    ensures
        Moment::after(nanos).valid(),
        Moment::after(nanos).secs * 1_000_000_000 + Moment::after(nanos).nanos == nanos,
        Moment::after(nanos).nanos < 1_000_000_000,
{
}

/// An HTTP date can show exactly the times from the start of 1970 to the end of the year
/// 9999.
pub proof fn law_times_that_can_be_shown(time: SystemTime)
    ensures
        can_be_shown(time) <==> 0 <= system_nanos(time) && system_nanos(time) < 253402300800
            * 1_000_000_000,
        HTTP_DATE_END == 253402300800,
{
}

// What the clock shows is what a call that reads it gives.
proof fn law_clock(time: SystemTime)
    ensures
        clock_shows(time) <==> call_ensures(system_now, (), time),
{
}

} // verus!
