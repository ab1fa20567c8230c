//! Sessions: the record that a successful login leaves in the store.

use crate::text::decimal_digits;
use crate::text::push_decimal;
use std::sync::atomic::AtomicUsize;
use std::time::Duration;
use std::time::Instant;
use std::time::SystemTime;
use std::time::SystemTimeError;
use vstd::prelude::*;

verus! {

/// `std::time::Instant`, a reading of the monotonic clock.
#[verifier::external_type_specification]
#[verifier::external_body]
pub struct ExInstant(Instant);

/// `std::time::SystemTime`, a reading of the system clock.
#[verifier::external_type_specification]
#[verifier::external_body]
pub struct ExSystemTime(SystemTime);

/// `std::time::SystemTimeError`, which `SystemTime::duration_since` returns
/// where the second time is the later one.
#[verifier::external_type_specification]
#[verifier::external_body]
pub struct ExSystemTimeError(SystemTimeError);

/// `Instant::now` reads the monotonic clock; nothing is known of the value.
pub assume_specification[ Instant::now ]() -> Instant
;

/// `SystemTime::now` reads the system clock; nothing is known of the value.
pub assume_specification[ SystemTime::now ]() -> SystemTime
;

/// `SystemTime::duration_since` gives the time elapsed since `earlier`, or
/// an error where `earlier` is the later of the two.
pub assume_specification[ SystemTime::duration_since ](
    now: &SystemTime,
    earlier: SystemTime,
) -> Result<Duration, SystemTimeError>
;

/// `Duration::as_secs`: the whole seconds of a duration.
pub assume_specification[ Duration::as_secs ](d: &Duration) -> u64
;

/// `Duration::subsec_nanos`: the part of a duration below one second, in
/// nanoseconds.
pub assume_specification[ Duration::subsec_nanos ](d: &Duration) -> u32
;

/// The start of 1970 on the system clock, `std::time::UNIX_EPOCH`.
#[verifier::external_body]
fn unix_epoch() -> SystemTime {
    std::time::UNIX_EPOCH
}

/// The next value of a counter, which then moves on by one.
fn next_count(counter: &AtomicUsize) -> usize {
    counter.fetch_add(1, std::sync::atomic::Ordering::SeqCst)
}

/// A session: who logged in, under which identifier, and when.
#[derive(Debug)]
pub struct Session {
    pub username: String,
    pub session_id: String,
    pub last_active: Instant,
}

impl Clone for Session {
    fn clone(&self) -> (r: Self)
        ensures
            r.username@ == self.username@,
            r.session_id@ == self.session_id@,
            r.last_active == self.last_active,
    {
        Session {
            username: self.username.clone(),
            session_id: self.session_id.clone(),
            last_active: self.last_active,
        }
    }
}

/// The text of a session identifier: the three numbers in decimal, one
/// after the other.
pub open spec fn session_id_text(secs: nat, nanos: nat, count: nat) -> Seq<char> {
    decimal_digits(secs) + decimal_digits(nanos) + decimal_digits(count)
}

impl Session {
    /// The identifier made of a time, in seconds and nanoseconds, and a
    /// count.
    pub fn session_id_from(secs: u64, nanos: u32, count: usize) -> (r: String)
        ensures
            r@ == session_id_text(secs as nat, nanos as nat, count as nat),
    {
        let mut out = String::new();
        push_decimal(&mut out, secs);
        push_decimal(&mut out, nanos as u64);
        push_decimal(&mut out, count as u64);
        out
    }

    /// The identifier for a reading of the clock: the time since the start
    /// of 1970 followed by the next value of `counter`, where the clock is
    /// not set before 1970; `None`, and the counter left alone, where it is.
    pub fn session_id_at(
        since_the_epoch: Result<Duration, SystemTimeError>,
        counter: &AtomicUsize,
    ) -> (r: Option<String>)
        ensures
            r is Some <==> since_the_epoch is Ok,
            r matches Some(id) ==> exists|secs: nat, nanos: nat, count: nat|
                id@ == session_id_text(secs, nanos, count),
    {
        match since_the_epoch {
            Ok(since) => {
                let count = next_count(counter);
                let secs = since.as_secs();
                let nanos = since.subsec_nanos();
                let id = Session::session_id_from(secs, nanos, count);
                assert(id@ == session_id_text(secs as nat, nanos as nat, count as nat));
                Some(id)
            },
            Err(_) => None,
        }
    }

    /// A fresh identifier: the time since the start of 1970 followed by the
    /// next value of `counter`. `None` where the system clock is set before
    /// 1970.
    pub fn generate_session_id(counter: &AtomicUsize) -> (r: Option<String>)
        ensures
            r matches Some(id) ==> exists|secs: nat, nanos: nat, count: nat|
                id@ == session_id_text(secs, nanos, count),
    {
        let start = SystemTime::now();
        Session::session_id_at(start.duration_since(unix_epoch()), counter)
    }

    /// A session for `username` that is active now.
    pub fn new(username: String, session_id: String) -> (r: Session)
        ensures
            r.username@ == username@,
            r.session_id@ == session_id@,
    {
        Session { username, session_id, last_active: Instant::now() }
    }
}

} // verus!
