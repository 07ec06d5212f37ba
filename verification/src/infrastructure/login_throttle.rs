//! In-memory per-IP login attempt throttling.
//!
//! Times are nanoseconds on a monotonic clock that starts when the throttle is
//! created. Every operation has a form that takes the current time as an
//! argument (`*_at`) and a form that reads the clock itself.

use std::collections::HashMap;
use std::time::Instant;
use vstd::prelude::*;

verus! {

/// Consecutive failures that trigger a lockout.
pub const MAX_FAILURES: u32 = 3;

/// Lockout length once triggered, in nanoseconds (five minutes).
pub const LOCKOUT_NS: u64 = 300_000_000_000;

/// Nanoseconds in a second.
pub const NANOS_PER_SEC: u64 = 1_000_000_000;

/// The monotonic clock's instant type.
#[verifier::external_type_specification]
#[verifier::external_body]
pub struct ExInstant(std::time::Instant);

/// Calls `Instant::now`. Nothing is claimed of the instant it returns.
#[verifier::external_body]
fn clock_start() -> Instant {
    Instant::now()
}

/// Calls `Instant::elapsed` on `origin` and converts the duration to whole
/// nanoseconds. Nothing is claimed of the value: it depends on the clock.
#[verifier::external_body]
fn clock_nanos(origin: &Instant) -> u64 {
    origin.elapsed().as_nanos() as u64
}

/// A client address: an IPv4 address as its 32 bits, an IPv6 address as its 128 bits.
#[derive(Debug, Clone, Copy, PartialEq, Eq, Hash, Structural)]
pub enum ClientIp {
    /// IPv4 address, most significant octet first.
    V4(u32),
    /// IPv6 address, most significant segment first.
    V6(u128),
}

/// Failure bookkeeping for one address.
#[derive(Debug, Clone, Copy, PartialEq, Eq, Structural)]
pub struct Attempts {
    /// Consecutive failures since the last lockout or success.
    pub failures: u32,
    /// End of the current (or last) lockout, in clock nanoseconds.
    pub locked_until: Option<u128>,
}

/// The state of an address that has no entry yet.
pub open spec fn fresh() -> Attempts {
    Attempts { failures: 0, locked_until: None }
}

/// The entry of `ip`, if any.
pub open spec fn entry_of(m: Map<ClientIp, Attempts>, ip: ClientIp) -> Option<Attempts> {
    if m.contains_key(ip) {
        Some(m[ip])
    } else {
        None
    }
}

/// Whether an entry is inside an active lockout at time `now`.
pub open spec fn locked_at(a: Attempts, now: u64) -> bool {
    a.locked_until matches Some(u) && u > now
}

/// Whole seconds left of a lockout ending at `until`, at least one.
pub open spec fn seconds_left(until: u128, now: u64) -> int {
    let s = (until - now) / (NANOS_PER_SEC as int);
    if s < 1 { 1 } else { s }
}

/// What `locked_secs` answers for an entry at time `now`.
pub open spec fn lock_answer(entry: Option<Attempts>, now: u64) -> Option<u64> {
    match entry {
        Some(a) => if locked_at(a, now) {
            Some(seconds_left(a.locked_until->0, now) as u64)
        } else {
            None
        },
        None => None,
    }
}

/// The entries after `locked_secs` looked at `ip` at time `now`: an expired
/// lockout is cleared so a fresh cycle begins.
pub open spec fn after_lock_check(m: Map<ClientIp, Attempts>, ip: ClientIp, now: u64) -> Map<ClientIp, Attempts> {
    match entry_of(m, ip) {
        Some(a) => if a.locked_until is Some && !locked_at(a, now) {
            m.remove(ip)
        } else {
            m
        },
        None => m,
    }
}

/// One failed attempt at time `now`: ignored during an active lockout; otherwise
/// counted, and reaching `max` starts a lockout of `lockout` nanoseconds and
/// resets the count.
pub open spec fn failure_step(a: Attempts, now: u64, max: u32, lockout: u64) -> Attempts {
    if locked_at(a, now) {
        a
    } else if a.failures + 1 >= max {
        Attempts { failures: 0, locked_until: Some((now + lockout) as u128) }
    } else {
        Attempts { failures: (a.failures + 1) as u32, locked_until: a.locked_until }
    }
}

/// The entry that a failure starts from: the current one, or a fresh one.
pub open spec fn current_or_fresh(m: Map<ClientIp, Attempts>, ip: ClientIp) -> Attempts {
    if m.contains_key(ip) { m[ip] } else { fresh() }
}

/// A stored entry's count is below the limit (or zero), and its lockout end is a
/// clock reading plus a lockout length.
pub open spec fn entry_sound(a: Attempts, max: u32) -> bool {
    &&& a.failures < max || a.failures == 0
    &&& a.locked_until matches Some(u) ==> u <= 2 * (u64::MAX as u128)
}

/// Per-IP login throttle with process-local state.
///
/// After `max_failures` consecutive wrong passwords an IP is locked out for
/// `lockout` nanoseconds; every attempt during the lockout (even with the
/// correct password) is refused without extending the timer. State is
/// cleared on restart, by design.
#[derive(Debug)]
pub struct LoginThrottle {
    v4: HashMap<u32, Attempts>,
    v6: HashMap<u128, Attempts>,
    max_failures: u32,
    lockout_ns: u64,
    origin: Instant,
    last_reading: u64,
}

impl View for LoginThrottle {
    type V = Map<ClientIp, Attempts>;

    closed spec fn view(&self) -> Map<ClientIp, Attempts> {
        Map::new(
            |k: ClientIp| match k {
                ClientIp::V4(a) => self.v4@.contains_key(a),
                ClientIp::V6(b) => self.v6@.contains_key(b),
            },
            |k: ClientIp| match k {
                ClientIp::V4(a) => self.v4@[a],
                ClientIp::V6(b) => self.v6@[b],
            },
        )
    }
}

impl LoginThrottle {
    /// Consecutive failures that start a lockout.
    pub closed spec fn limit(&self) -> u32 {
        self.max_failures
    }

    /// The latest clock reading, in nanoseconds since creation: the time at
    /// which the last clock-reading operation judged or counted an attempt.
    pub closed spec fn clock_reading(&self) -> u64 {
        self.last_reading
    }

    /// Lockout length in nanoseconds.
    pub closed spec fn lockout(&self) -> u64 {
        self.lockout_ns
    }

    /// Every stored entry is sound.
    pub closed spec fn wf(&self) -> bool {
        &&& forall|a: u32| #[trigger] self.v4@.contains_key(a) ==> entry_sound(self.v4@[a], self.max_failures)
        &&& forall|b: u128| #[trigger] self.v6@.contains_key(b) ==> entry_sound(self.v6@[b], self.max_failures)
    }

    /// Create a throttle with the default limits (3 failures, 5 minutes).
    pub fn new() -> (r: Self)
        ensures
            r.wf(),
            r@ == Map::<ClientIp, Attempts>::empty(),
            r.limit() == MAX_FAILURES,
            r.lockout() == LOCKOUT_NS,
            r.clock_reading() == 0,
    {
        Self::with_limits(MAX_FAILURES, LOCKOUT_NS)
    }

    /// Throttle with custom limits.
    pub fn with_limits(max_failures: u32, lockout_ns: u64) -> (r: Self)
        ensures
            r.wf(),
            r@ == Map::<ClientIp, Attempts>::empty(),
            r.limit() == max_failures,
            r.lockout() == lockout_ns,
            r.clock_reading() == 0,
    {
        broadcast use vstd::std_specs::hash::group_hash_axioms;
        let r = LoginThrottle {
            v4: HashMap::new(),
            v6: HashMap::new(),
            max_failures,
            lockout_ns,
            origin: clock_start(),
            last_reading: 0,
        };
        assert(r@ =~= Map::<ClientIp, Attempts>::empty());
        r
    }

    fn get_entry(&self, ip: ClientIp) -> (r: Option<Attempts>)
        requires
            self.wf(),
        ensures
            r == entry_of(self@, ip),
            r matches Some(a) ==> entry_sound(a, self.limit()),
    {
        broadcast use vstd::std_specs::hash::group_hash_axioms;
        match ip {
            ClientIp::V4(a) => match self.v4.get(&a) {
                Some(e) => Some(*e),
                None => None,
            },
            ClientIp::V6(b) => match self.v6.get(&b) {
                Some(e) => Some(*e),
                None => None,
            },
        }
    }

    fn put_entry(&mut self, ip: ClientIp, e: Attempts)
        requires
            old(self).wf(),
            entry_sound(e, old(self).limit()),
        ensures
            final(self).wf(),
            final(self)@ == old(self)@.insert(ip, e),
            final(self).limit() == old(self).limit(),
            final(self).lockout() == old(self).lockout(),
            final(self).clock_reading() == old(self).clock_reading(),
    {
        broadcast use vstd::std_specs::hash::group_hash_axioms;
        match ip {
            ClientIp::V4(a) => {
                self.v4.insert(a, e);
            },
            ClientIp::V6(b) => {
                self.v6.insert(b, e);
            },
        }
        assert(self@ =~= old(self)@.insert(ip, e));
    }

    fn drop_entry(&mut self, ip: ClientIp)
        requires
            old(self).wf(),
        ensures
            final(self).wf(),
            final(self)@ == old(self)@.remove(ip),
            final(self).limit() == old(self).limit(),
            final(self).lockout() == old(self).lockout(),
            final(self).clock_reading() == old(self).clock_reading(),
    {
        broadcast use vstd::std_specs::hash::group_hash_axioms;
        match ip {
            ClientIp::V4(a) => {
                self.v4.remove(&a);
            },
            ClientIp::V6(b) => {
                self.v6.remove(&b);
            },
        }
        assert(self@ =~= old(self)@.remove(ip));
    }

    /// Remaining lockout seconds for `ip` at time `now`, or `None` when login is
    /// allowed. An expired lockout is cleared so a fresh cycle begins.
    pub fn locked_secs_at(&mut self, ip: ClientIp, now: u64) -> (r: Option<u64>)
        requires
            old(self).wf(),
        ensures
            final(self).wf(),
            r == lock_answer(entry_of(old(self)@, ip), now),
            final(self)@ == after_lock_check(old(self)@, ip, now),
            final(self)@ == apply_op(old(self)@, ThrottleOp::Check(ip, now), old(self).limit(), old(self).lockout()),
            final(self).limit() == old(self).limit(),
            final(self).lockout() == old(self).lockout(),
            final(self).clock_reading() == old(self).clock_reading(),
    {
        let entry = self.get_entry(ip);
        match entry {
            None => None,
            Some(a) => match a.locked_until {
                Some(until) => {
                    if until > now as u128 {
                        let secs: u128 = (until - now as u128) / (NANOS_PER_SEC as u128);
                        let secs: u128 = if secs < 1 { 1 } else { secs };
                        assert(secs <= u64::MAX as u128);
                        Some(secs as u64)
                    } else {
                        self.drop_entry(ip);
                        None
                    }
                },
                None => None,
            },
        }
    }

    /// Record a failed attempt at time `now`; once the limit is hit the lockout
    /// starts. Calls during an active lockout do not extend it.
    pub fn record_failure_at(&mut self, ip: ClientIp, now: u64)
        requires
            old(self).wf(),
        ensures
            final(self).wf(),
            final(self)@ == old(self)@.insert(
                ip,
                failure_step(current_or_fresh(old(self)@, ip), now, old(self).limit(), old(self).lockout()),
            ),
            final(self)@ == apply_op(old(self)@, ThrottleOp::Failure(ip, now), old(self).limit(), old(self).lockout()),
            final(self).limit() == old(self).limit(),
            final(self).lockout() == old(self).lockout(),
            final(self).clock_reading() == old(self).clock_reading(),
    {
        let a = match self.get_entry(ip) {
            Some(a) => a,
            None => Attempts { failures: 0, locked_until: None },
        };
        let next = match a.locked_until {
            Some(until) if until > now as u128 => a,
            _ => {
                let failures = a.failures + 1;
                if failures >= self.max_failures {
                    Attempts { failures: 0, locked_until: Some(now as u128 + self.lockout_ns as u128) }
                } else {
                    Attempts { failures, locked_until: a.locked_until }
                }
            },
        };
        self.put_entry(ip, next);
    }

    /// Clear all failure state for `ip` after a successful login.
    pub fn record_success(&mut self, ip: ClientIp)
        requires
            old(self).wf(),
        ensures
            final(self).wf(),
            final(self)@ == old(self)@.remove(ip),
            final(self)@ == apply_op(old(self)@, ThrottleOp::Success(ip), old(self).limit(), old(self).lockout()),
            final(self).limit() == old(self).limit(),
            final(self).lockout() == old(self).lockout(),
            final(self).clock_reading() == old(self).clock_reading(),
    {
        self.drop_entry(ip);
    }

    /// Reads the clock: nanoseconds since the throttle was created. The monotonic
    /// clock never goes back, so the reading is the clock's; it is also kept no
    /// smaller than the previous reading.
    fn read_clock(&mut self) -> (now: u64)
        requires
            old(self).wf(),
        ensures
            final(self).wf(),
            now >= old(self).clock_reading(),
            final(self).clock_reading() == now,
            final(self)@ == old(self)@,
            final(self).limit() == old(self).limit(),
            final(self).lockout() == old(self).lockout(),
    {
        let elapsed = clock_nanos(&self.origin);
        let now = if elapsed < self.last_reading { self.last_reading } else { elapsed };
        self.last_reading = now;
        assert(self@ =~= old(self)@);
        now
    }

    /// Remaining lockout seconds for `ip` now, or `None` when login is allowed.
    /// An expired lockout is cleared so a fresh cycle begins. The lockout is
    /// judged at a fresh clock reading, on the same clock and in the same unit
    /// that `record_failure` counts failures at, never earlier than any
    /// previous reading.
    pub fn locked_secs(&mut self, ip: ClientIp) -> (r: Option<u64>)
        requires
            old(self).wf(),
        ensures
            final(self).wf(),
            exists|now: u64|
                r == lock_answer(entry_of(old(self)@, ip), now) && final(self)@ == after_lock_check(
                    old(self)@,
                    ip,
                    now,
                ),
            final(self).clock_reading() >= old(self).clock_reading(),
            r == lock_answer(entry_of(old(self)@, ip), final(self).clock_reading()),
            final(self)@ == apply_op(old(self)@, ThrottleOp::Check(ip, final(self).clock_reading()), old(self).limit(), old(self).lockout()),
            final(self).limit() == old(self).limit(),
            final(self).lockout() == old(self).lockout(),
    {
        let now = self.read_clock();
        self.locked_secs_at(ip, now)
    }

    /// Record a failed attempt now; once the limit is hit the lockout starts.
    /// Calls during an active lockout do not extend it. The failure is counted
    /// at a fresh clock reading, on the same clock and in the same unit that
    /// `locked_secs` judges at, never earlier than any previous reading.
    pub fn record_failure(&mut self, ip: ClientIp)
        requires
            old(self).wf(),
        ensures
            final(self).wf(),
            exists|now: u64|
                final(self)@ == old(self)@.insert(
                    ip,
                    #[trigger] failure_step(current_or_fresh(old(self)@, ip), now, old(self).limit(), old(self).lockout()),
                ),
            final(self).clock_reading() >= old(self).clock_reading(),
            final(self)@ == apply_op(old(self)@, ThrottleOp::Failure(ip, final(self).clock_reading()), old(self).limit(), old(self).lockout()),
            final(self).limit() == old(self).limit(),
            final(self).lockout() == old(self).lockout(),
    {
        let now = self.read_clock();
        self.record_failure_at(ip, now);
    }
}

impl Default for LoginThrottle {
    fn default() -> (r: Self)
        ensures
            r.wf(),
            r@ == Map::<ClientIp, Attempts>::empty(),
            r.limit() == MAX_FAILURES,
            r.lockout() == LOCKOUT_NS,
            r.clock_reading() == 0,
    {
        Self::new()
    }
}

/// The entry after failures at each of `times`, in order.
pub open spec fn fail_all(a: Attempts, times: Seq<u64>, max: u32, lockout: u64) -> Attempts
    decreases times.len(),
{
    if times.len() == 0 {
        a
    } else {
        failure_step(fail_all(a, times.drop_last(), max, lockout), times.last(), max, lockout)
    }
}

/// From a fresh entry, fewer than `max` consecutive failures never lock the
/// address and are counted; the `max`-th failure locks it until the time of that
/// failure plus the lockout length, and resets the count.
pub proof fn law_lockout_after_max_failures(times: Seq<u64>, max: u32, lockout: u64)
    requires
        max >= 1,
        times.len() <= max,
    ensures
        times.len() < max ==> fail_all(fresh(), times, max, lockout) == (Attempts {
            failures: times.len() as u32,
            locked_until: None,
        }),
        times.len() == max ==> fail_all(fresh(), times, max, lockout) == (Attempts {
            failures: 0,
            locked_until: Some((times.last() + lockout) as u128),
        }),
    decreases times.len(),
{
    if times.len() > 0 {
        law_lockout_after_max_failures(times.drop_last(), max, lockout);
    }
}

/// While no lockout is active, `locked_secs` allows the login.
pub proof fn law_unlocked_allows(entry: Option<Attempts>, now: u64)
    requires
        entry matches Some(a) ==> !locked_at(a, now),
    ensures
        lock_answer(entry, now) == None::<u64>,
{
}

/// During a lockout that started at `start` and lasts `lockout` nanoseconds,
/// `locked_secs` refuses with at least one and at most the lockout's whole
/// seconds (one when the lockout is shorter than a second).
pub proof fn law_locked_answer_bounds(start: u64, lockout: u64, now: u64)
    requires
        start <= now,
        (now as int) < start + lockout,
    ensures
        lock_answer(Some(Attempts { failures: 0, locked_until: Some((start + lockout) as u128) }), now) matches Some(s)
            && 1 <= s && (s <= lockout / NANOS_PER_SEC || s == 1),
{
    let until = (start + lockout) as u128;
    assert((until - now) / 1_000_000_000 <= lockout / 1_000_000_000) by (nonlinear_arith)
        requires
            until - now <= lockout,
            until - now >= 0,
    ;
}

/// A failed attempt during an active lockout changes nothing: the timer is not extended.
pub proof fn law_lockout_not_extended(a: Attempts, now: u64, max: u32, lockout: u64)
    requires
        locked_at(a, now),
    ensures
        failure_step(a, now, max, lockout) == a,
{
}

/// Once a lockout has expired, `locked_secs` allows the login and clears the
/// entry, so the next failure starts a fresh count.
pub proof fn law_expired_lockout_fresh_cycle(m: Map<ClientIp, Attempts>, ip: ClientIp, now: u64, later: u64, max: u32, lockout: u64)
    requires
        m.contains_key(ip),
        m[ip].locked_until matches Some(u) && u <= now,
        max > 1,
    ensures
        lock_answer(entry_of(m, ip), now) == None::<u64>,
        !after_lock_check(m, ip, now).contains_key(ip),
        failure_step(current_or_fresh(after_lock_check(m, ip, now), ip), later, max, lockout) == (Attempts {
            failures: 1,
            locked_until: None,
        }),
{
}

/// A successful login clears the address: it is allowed, and its count starts afresh.
pub proof fn law_success_clears(m: Map<ClientIp, Attempts>, ip: ClientIp, now: u64)
    ensures
        lock_answer(entry_of(m.remove(ip), ip), now) == None::<u64>,
        current_or_fresh(m.remove(ip), ip) == fresh(),
{
}

/// What happens to one address leaves every other address's entry as it was.
pub proof fn law_addresses_independent(m: Map<ClientIp, Attempts>, ip: ClientIp, other: ClientIp, now: u64, e: Attempts)
    requires
        ip != other,
    ensures
        entry_of(after_lock_check(m, ip, now), other) == entry_of(m, other),
        entry_of(m.insert(ip, e), other) == entry_of(m, other),
        entry_of(m.remove(ip), other) == entry_of(m, other),
{
}

/// One throttle operation on an address: a failed attempt at a time, a
/// successful login, or a lockout check at a time.
pub enum ThrottleOp {
    Failure(ClientIp, u64),
    Success(ClientIp),
    Check(ClientIp, u64),
}

/// The address an operation is about.
pub open spec fn op_ip(op: ThrottleOp) -> ClientIp {
    match op {
        ThrottleOp::Failure(ip, _) => ip,
        ThrottleOp::Success(ip) => ip,
        ThrottleOp::Check(ip, _) => ip,
    }
}

/// The entries after one operation (what `record_failure_at`, `record_success`
/// and `locked_secs_at` do to them).
pub open spec fn apply_op(m: Map<ClientIp, Attempts>, op: ThrottleOp, max: u32, lockout: u64) -> Map<ClientIp, Attempts> {
    match op {
        ThrottleOp::Failure(ip, now) => m.insert(ip, failure_step(current_or_fresh(m, ip), now, max, lockout)),
        ThrottleOp::Success(ip) => m.remove(ip),
        ThrottleOp::Check(ip, now) => after_lock_check(m, ip, now),
    }
}

/// The entries after a sequence of operations, in order.
pub open spec fn apply_ops(m: Map<ClientIp, Attempts>, ops: Seq<ThrottleOp>, max: u32, lockout: u64) -> Map<ClientIp, Attempts>
    decreases ops.len(),
{
    if ops.len() == 0 {
        m
    } else {
        apply_op(apply_ops(m, ops.drop_last(), max, lockout), ops.last(), max, lockout)
    }
}

/// Any sequence of failures, successes and checks on other addresses, at any
/// times, leaves an address's entry as it was, so `locked_secs` answers for it
/// at any time exactly what it answered before.
pub proof fn law_other_addresses_unaffected(
    m: Map<ClientIp, Attempts>,
    ops: Seq<ThrottleOp>,
    y: ClientIp,
    now: u64,
    max: u32,
    lockout: u64,
)
    requires
        forall|i: int| 0 <= i < ops.len() ==> op_ip(#[trigger] ops[i]) != y,
    ensures
        entry_of(apply_ops(m, ops, max, lockout), y) == entry_of(m, y),
        lock_answer(entry_of(apply_ops(m, ops, max, lockout), y), now) == lock_answer(entry_of(m, y), now),
    decreases ops.len(),
{
    if ops.len() > 0 {
        let prev = ops.drop_last();
        assert forall|i: int| 0 <= i < prev.len() implies op_ip(#[trigger] prev[i]) != y by {
            assert(prev[i] == ops[i]);
        }
        law_other_addresses_unaffected(m, prev, y, now, max, lockout);
        let mid = apply_ops(m, prev, max, lockout);
        let op = ops.last();
        assert(op_ip(ops[ops.len() - 1]) != y);
        match op {
            ThrottleOp::Failure(ip, t) => {
                law_addresses_independent(mid, ip, y, t, failure_step(current_or_fresh(mid, ip), t, max, lockout));
            },
            ThrottleOp::Success(ip) => {
                law_addresses_independent(mid, ip, y, 0, fresh());
            },
            ThrottleOp::Check(ip, t) => {
                law_addresses_independent(mid, ip, y, t, fresh());
            },
        }
    }
}

/// A run of at most `max` consecutive failures from an entry with no counted
/// failures whose lockout (if any) has ended before each of them: fewer than
/// `max` are only counted and leave the old lockout end in place; the `max`-th
/// locks the address until its time plus the lockout length. In particular,
/// after a lockout has ended it takes `max` further failures to lock again.
pub proof fn law_relock_after_expiry(old_end: Option<u128>, times: Seq<u64>, max: u32, lockout: u64)
    requires
        max >= 1,
        times.len() <= max,
        forall|i: int| 0 <= i < times.len() ==> (old_end matches Some(u) ==> u <= #[trigger] times[i]),
    ensures
        times.len() < max ==> fail_all(Attempts { failures: 0, locked_until: old_end }, times, max, lockout) == (Attempts {
            failures: times.len() as u32,
            locked_until: old_end,
        }),
        times.len() == max ==> fail_all(Attempts { failures: 0, locked_until: old_end }, times, max, lockout) == (Attempts {
            failures: 0,
            locked_until: Some((times.last() + lockout) as u128),
        }),
    decreases times.len(),
{
    if times.len() > 0 {
        let prev = times.drop_last();
        assert forall|i: int| 0 <= i < prev.len() implies (old_end matches Some(u) ==> u <= #[trigger] prev[i]) by {
            assert(prev[i] == times[i]);
        }
        law_relock_after_expiry(old_end, prev, max, lockout);
        assert(old_end matches Some(u) ==> u <= times[times.len() - 1]);
    }
}

/// Failures before a lockout's end, however many, leave the entry as it is: the
/// lockout end stays where the locking failure put it.
pub proof fn law_lockout_end_stays(a: Attempts, times: Seq<u64>, max: u32, lockout: u64)
    requires
        a.locked_until is Some,
        forall|i: int| 0 <= i < times.len() ==> (#[trigger] times[i] as u128) < a.locked_until->0,
    ensures
        fail_all(a, times, max, lockout) == a,
    decreases times.len(),
{
    if times.len() > 0 {
        let prev = times.drop_last();
        assert forall|i: int| 0 <= i < prev.len() implies (#[trigger] prev[i] as u128) < a.locked_until->0 by {
            assert(prev[i] == times[i]);
        }
        law_lockout_end_stays(a, prev, max, lockout);
        assert((times[times.len() - 1] as u128) < a.locked_until->0);
    }
}

/// For a lockout ending at `end`, `locked_secs` refuses at any earlier time with
/// the whole seconds left (at least one), keeps the entry, and allows the login
/// from `end` on.
pub proof fn law_answer_until_end(m: Map<ClientIp, Attempts>, ip: ClientIp, now: u64)
    requires
        m.contains_key(ip),
        m[ip].locked_until is Some,
    ensures
        (now as u128) < m[ip].locked_until->0 ==> {
            &&& lock_answer(entry_of(m, ip), now) == Some(seconds_left(m[ip].locked_until->0, now) as u64)
            &&& seconds_left(m[ip].locked_until->0, now) >= 1
            &&& after_lock_check(m, ip, now) == m
        },
        (now as u128) >= m[ip].locked_until->0 ==> lock_answer(entry_of(m, ip), now) == None::<u64>,
{
}

/// A failure that locks an address at clock reading `t` keeps it locked for
/// exactly the lockout length: `locked_secs` refuses at every reading from `t`
/// up to `t + lockout` (with at least one and at most the lockout's whole
/// seconds left) and allows the login at every reading from `t + lockout` on.
pub proof fn law_lock_lasts_lockout(a: Attempts, t: u64, later: u64, max: u32, lockout: u64)
    requires
        !locked_at(a, t),
        a.failures + 1 >= max,
    ensures
        failure_step(a, t, max, lockout).locked_until == Some((t + lockout) as u128),
        (later as int) >= t + lockout ==> lock_answer(Some(failure_step(a, t, max, lockout)), later) == None::<u64>,
        t <= later && (later as int) < t + lockout ==> (lock_answer(Some(failure_step(a, t, max, lockout)), later) matches Some(s)
            && 1 <= s && (s <= lockout / NANOS_PER_SEC || s == 1)),
{
    if t <= later && (later as int) < t + lockout {
        law_locked_answer_bounds(t, lockout, later);
    }
}

} // verus!
