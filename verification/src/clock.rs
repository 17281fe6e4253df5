//! The wall clock: milliseconds since the Unix epoch and the time of day.

use crate::text::{digit, digit_char, digits_value};
use std::time::{SystemTime, UNIX_EPOCH};
use vstd::prelude::*;

verus! {

/// `std::time::SystemTime`: a point in time.
#[verifier::external_type_specification]
#[verifier::external_body]
pub struct ExSystemTime(std::time::SystemTime);

/// `SystemTime::now`: the time of the call, of which nothing is promised.
pub assume_specification[ std::time::SystemTime::now ]() -> SystemTime
;

/// How far a point in time is from the Unix epoch: whole seconds and the
/// milliseconds beyond them. `None` of a time before the epoch.
pub uninterp spec fn time_since_epoch(t: SystemTime) -> Option<(u64, u32)>;

/// Calls `SystemTime::duration_since` with the Unix epoch: how far the time is from
/// the epoch, by the time alone. The milliseconds are fewer than a thousand.
#[verifier::external_body]
fn since_epoch(t: SystemTime) -> (since: Option<(u64, u32)>)
    ensures
        since == time_since_epoch(t),
        match since {
            Some((_, millis)) => millis < 1000,
            None => true,
        },
{
    match t.duration_since(UNIX_EPOCH) {
        Ok(d) => Some((d.as_secs(), d.subsec_millis())),
        Err(_) => None,
    }
}

/// A reading of the clock: time since the Unix epoch.
#[derive(Clone, Copy, Debug)]
pub struct Reading {
    pub secs: u64,
    pub millis: u32,
}

impl Reading {
    /// The milliseconds are those beyond the whole seconds.
    pub open spec fn wf(self) -> bool {
        self.millis < 1000
    }
}

/// Reads the clock: the reading of some point in time. Which one is not stated:
/// that is the clock's.
fn read_clock() -> (r: Reading)
    ensures
        r.wf(),
        exists|t: SystemTime| r == #[trigger] reading_at(t),
{
    let t: SystemTime = SystemTime::now();
    let r: Reading = reading_of(since_epoch(t));
    assert(r == reading_at(t));
    r
}

/// The reading of a time since the epoch, in whole seconds and the milliseconds
/// beyond them. A time before the epoch reads as the epoch.
pub open spec fn epoch_reading(since: Option<(u64, u32)>) -> Reading {
    match since {
        Some((secs, millis)) => Reading { secs, millis },
        None => Reading { secs: 0, millis: 0 },
    }
}

/// The reading of a point in time.
pub open spec fn reading_at(t: SystemTime) -> Reading {
    epoch_reading(time_since_epoch(t))
}

/// The reading of a time since the epoch.
pub fn reading_of(since: Option<(u64, u32)>) -> (r: Reading)
    ensures
        r == epoch_reading(since),
{
    match since {
        Some((secs, millis)) => Reading { secs, millis },
        None => Reading { secs: 0, millis: 0 },
    }
}

/// A reading in milliseconds.
pub open spec fn reading_millis(r: Reading) -> nat {
    (r.secs * 1000 + r.millis) as nat
}

/// The whole milliseconds of a reading.
pub fn millis_of(r: Reading) -> (ms: u128)
    ensures
        ms == reading_millis(r),
{
    r.secs as u128 * 1000 + r.millis as u128
}

/// The current time in milliseconds since the Unix epoch.
pub fn now_millis() -> (ms: u128)
    ensures
        exists|t: SystemTime|
            (#[trigger] reading_at(t)).wf() && ms == reading_millis(reading_at(t)),
{
    millis_of(read_clock())
}

/// Two digits of a number below a hundred.
pub open spec fn two_digits(n: nat) -> Seq<char> {
    seq![digit_char(n / 10), digit_char(n % 10)]
}

/// A reading as the UTC time of day, `HH:MM:SS.mmm`.
pub open spec fn hms_text(r: Reading) -> Seq<char> {
    let secs = r.secs as nat;
    let millis = r.millis as nat;
    two_digits((secs / 3600) % 24) + seq![':'] + two_digits((secs / 60) % 60) + seq![':']
        + two_digits(secs % 60) + seq!['.', digit_char(millis / 100)] + two_digits(millis % 100)
}

fn push_two_digits(s: &mut String, n: u64)
    requires
        n < 100,
    ensures
        final(s)@ == old(s)@ + two_digits(n as nat),
{
    s.push(digit((n / 10) as u8));
    s.push(digit((n % 10) as u8));
}

/// The UTC time of day of a reading, `HH:MM:SS.mmm`.
pub fn hms_of(r: Reading) -> (s: String)
    requires
        r.wf(),
    ensures
        s@ == hms_text(r),
{
    let mut s: String = String::new();
    push_two_digits(&mut s, (r.secs / 3600) % 24);
    s.push(':');
    push_two_digits(&mut s, (r.secs / 60) % 60);
    s.push(':');
    push_two_digits(&mut s, r.secs % 60);
    s.push('.');
    s.push(digit((r.millis / 100) as u8));
    push_two_digits(&mut s, (r.millis % 100) as u64);
    assert(s@ =~= hms_text(r));
    s
}

/// The current UTC time of day, `HH:MM:SS.mmm`.
pub fn hms_millis() -> (s: String)
    ensures
        exists|t: SystemTime| (#[trigger] reading_at(t)).wf() && s@ == hms_text(reading_at(t)),
{
    let r: Reading = read_clock();
    hms_of(r)
}

/// A reading is the time since the epoch as it came; a time before the epoch is
/// the epoch.
pub proof fn law_reading_is_the_time(secs: u64, millis: u32)
    ensures
        epoch_reading(Some((secs, millis))).secs == secs,
        epoch_reading(Some((secs, millis))).millis == millis,
        epoch_reading(None).secs == 0,
        epoch_reading(None).millis == 0,
{
}

/// The milliseconds of a reading hold its seconds and its milliseconds.
pub proof fn law_millis_hold_the_reading(r: Reading)
    requires
        r.millis < 1000,
    ensures
        reading_millis(r) / 1000 == r.secs,
        reading_millis(r) % 1000 == r.millis,
{
}

proof fn lemma_two_digits(n: nat)
    requires
        n < 100,
    ensures
        digits_value(two_digits(n)) == n,
        '0' <= two_digits(n)[0] <= '9',
        '0' <= two_digits(n)[1] <= '9',
{
    let t = two_digits(n);
    assert(t.drop_last().drop_last() =~= Seq::empty());
    assert(t.drop_last().last() == digit_char(n / 10));
    assert(t.last() == digit_char(n % 10));
    assert(digits_value(t.drop_last().drop_last()) == 0);
    assert(digits_value(t.drop_last()) == n / 10);
}

proof fn lemma_parts_of_a_day(secs: nat)
    ensures
        ((secs / 3600) % 24) * 3600 + ((secs / 60) % 60) * 60 + secs % 60 == secs % 86400,
{
    let minutes = secs / 60;
    let hours = secs / 3600;
    assert(hours == minutes / 60);
    assert(secs == minutes * 60 + secs % 60);
    assert(minutes == hours * 60 + minutes % 60);
    assert(hours == (hours / 24) * 24 + hours % 24);
    assert(secs == (hours / 24) * 86400 + (hours % 24) * 3600 + (minutes % 60) * 60 + secs % 60);
}

proof fn lemma_three_digits(s: Seq<char>, n: nat)
    requires
        n < 1000,
        s.len() == 3,
        s[0] == digit_char(n / 100),
        s[1] == digit_char((n % 100) / 10),
        s[2] == digit_char(n % 10),
    ensures
        digits_value(s) == n,
        forall|i: int| 0 <= i < 3 ==> '0' <= #[trigger] s[i] <= '9',
{
    let two = s.drop_last();
    let one = two.drop_last();
    assert(one.drop_last() =~= Seq::empty());
    assert(digits_value(one.drop_last()) == 0);
    assert(digits_value(one) == n / 100);
    assert(digits_value(two) == n / 10);
}

/// A time of day has the form `HH:MM:SS.mmm`, and what it shows is the time that
/// has passed since midnight, to the millisecond.
pub proof fn law_time_of_day(r: Reading)
    requires
        r.millis < 1000,
    ensures
        ({
            let t = hms_text(r);
            let h = digits_value(t.subrange(0, 2));
            let m = digits_value(t.subrange(3, 5));
            let s = digits_value(t.subrange(6, 8));
            &&& t.len() == 12
            &&& t[2] == ':' && t[5] == ':' && t[8] == '.'
            &&& forall|i: int|
                0 <= i < 12 && i != 2 && i != 5 && i != 8 ==> '0' <= #[trigger] t[i] <= '9'
            &&& m < 60 && s < 60
            &&& h * 3600 + m * 60 + s == r.secs % 86400
            &&& digits_value(t.subrange(9, 12)) == r.millis
        }),
{
    let t = hms_text(r);
    let secs = r.secs as nat;
    let millis = r.millis as nat;
    lemma_two_digits((secs / 3600) % 24);
    lemma_two_digits((secs / 60) % 60);
    lemma_two_digits(secs % 60);
    assert(t.subrange(0, 2) =~= two_digits((secs / 3600) % 24));
    assert(t.subrange(3, 5) =~= two_digits((secs / 60) % 60));
    assert(t.subrange(6, 8) =~= two_digits(secs % 60));
    lemma_parts_of_a_day(secs);
    let last = t.subrange(9, 12);
    lemma_three_digits(last, millis);
    assert forall|i: int| 0 <= i < 12 && i != 2 && i != 5 && i != 8 implies '0' <= #[trigger] t[i]
        <= '9' by {
        if i >= 9 {
            assert(t[i] == last[i - 9]);
        }
    }
}

/// The reading of a point in time is how far it is from the epoch.
pub proof fn law_reading_of_a_time(t: SystemTime)
    ensures
        time_since_epoch(t) matches Some((secs, millis)) ==> reading_at(t).secs == secs
            && reading_at(t).millis == millis,
        time_since_epoch(t) is None ==> reading_at(t).secs == 0 && reading_at(t).millis == 0,
        reading_at(t).wf() <==> reading_at(t).millis < 1000,
{
}

} // verus!
