use vstd::prelude::*;

verus! {

use vstd::arithmetic::div_mod::lemma_basic_div;
use vstd::arithmetic::div_mod::lemma_div_pos_is_pos;

/// Outcome of one admission check: the request is either admitted (a token
/// was available and has been consumed) or rejected (the bucket was empty).
/// Rejection is a normal outcome, not an error.
#[derive(Clone, Copy, Debug, PartialEq, Eq, Structural)]
pub enum Decision {
    Admit,
    Reject,
}

/// Why construction of a bucket was refused.
#[derive(Clone, Copy, Debug, PartialEq, Eq, Structural)]
pub enum ConfigError {
    /// The refill rate was zero or negative.
    NonPositiveRefillRate,
    /// The initial level was negative or exceeded the capacity.
    InvalidLevel,
}

/// A token bucket: a bounded pool of tokens that regenerates over time.
/// One token is consumed per admitted request; `refill_rate` milliseconds of
/// elapsed wall-clock time generate one new token, up to `max_tokens`.
///
/// Refill is lazy: it is applied at the start of each `request` call, before
/// the admission check and before the decrement. Once any whole token is
/// credited, the fractional remainder of the elapsed time is discarded (the
/// refill timestamp jumps to the instant of the call), a deliberate
/// simplification that loses sub-token progress under bursty traffic.
#[derive(Clone, Copy, Debug, PartialEq, Eq, Structural)]
pub struct TokenBucket {
    /// Capacity of the bucket; constant after construction.
    pub max_tokens: i64,
    /// Tokens currently available; always within `[0, max_tokens]`.
    pub current_level: i64,
    /// Milliseconds required to generate one token; constant, always positive.
    pub refill_rate: i64,
    /// Millisecond timestamp up to which refill has already been credited.
    pub last_refill_time: i64,
}

/// The conditions under which a bucket may be constructed: a level within
/// `[0, max_tokens]` (which forces a non-negative capacity) and a positive
/// refill rate.
pub open spec fn config_ok(max_tokens: i64, initial_level: i64, refill_rate: i64) -> bool {
    &&& 0 <= initial_level
    &&& initial_level <= max_tokens
    &&& 0 < refill_rate
}

impl TokenBucket {
    /// Well-formedness: the level stays within the capacity and the refill
    /// rate is positive (so refill never divides by zero).
    pub open spec fn valid(self) -> bool {
        &&& 0 <= self.current_level
        &&& self.current_level <= self.max_tokens
        &&& 0 < self.refill_rate
    }

    /// Wall-clock time elapsed since refill was last credited, clamped below
    /// at zero (a clock that moved backward credits nothing) and above at
    /// `i64::MAX` (the widest span the arithmetic handles).
    pub open spec fn elapsed_ms(self, now: i64) -> int {
        let diff = now - self.last_refill_time;
        if diff < 0 {
            0
        } else if diff > i64::MAX {
            i64::MAX as int
        } else {
            diff
        }
    }

    /// Whole tokens earned by the elapsed time, truncating: fractional
    /// progress toward the next token counts for nothing.
    pub open spec fn tokens_generated(self, now: i64) -> int {
        self.elapsed_ms(now) / (self.refill_rate as int)
    }

    /// Room left in the bucket.
    pub open spec fn room(self) -> int {
        self.max_tokens - self.current_level
    }

    /// Tokens actually credited: the earned tokens, capped at the room left
    /// so the bucket never overfills.
    pub open spec fn credited(self, now: i64) -> int {
        if self.tokens_generated(now) > self.room() {
            self.room()
        } else {
            self.tokens_generated(now)
        }
    }

    /// The bucket after lazy refill at instant `now`: the credited tokens are
    /// added, and if any token at all was credited the refill timestamp
    /// advances to `now`, discarding the fractional remainder.
    pub open spec fn refilled(self, now: i64) -> TokenBucket {
        TokenBucket {
            current_level: (self.current_level + self.credited(now)) as i64,
            last_refill_time: if self.credited(now) > 0 {
                now
            } else {
                self.last_refill_time
            },
            ..self
        }
    }

    /// One full admission check at instant `now`: refill first, then admit
    /// (and consume one token) exactly when the refilled level is nonzero.
    pub open spec fn step(self, now: i64) -> (TokenBucket, Decision) {
        let r = self.refilled(now);
        if r.current_level == 0 {
            (r, Decision::Reject)
        } else {
            (
                TokenBucket { current_level: (r.current_level - 1) as i64, ..r },
                Decision::Admit,
            )
        }
    }

    /// Builds a bucket whose refill timestamp is the given instant, after
    /// checking the configuration. The refill rate is checked first: with a
    /// zero or negative rate the error is `NonPositiveRefillRate` whatever
    /// the levels are; otherwise an out-of-range level is `InvalidLevel`.
    pub fn new_at(max_tokens: i64, initial_level: i64, refill_rate: i64, now: i64) -> (r: Result<
        TokenBucket,
        ConfigError,
    >)
        ensures
            r is Ok <==> config_ok(max_tokens, initial_level, refill_rate),
            r matches Ok(b) ==> b == (TokenBucket {
                max_tokens,
                current_level: initial_level,
                refill_rate,
                last_refill_time: now,
            }),
            r matches Ok(b) ==> b.valid(),
            r matches Err(e) ==> e == (if refill_rate <= 0 {
                ConfigError::NonPositiveRefillRate
            } else {
                ConfigError::InvalidLevel
            }),
    {
        if refill_rate <= 0 {
            return Err(ConfigError::NonPositiveRefillRate);
        }
        if initial_level < 0 || initial_level > max_tokens {
            return Err(ConfigError::InvalidLevel);
        }
        Ok(
            TokenBucket {
                max_tokens,
                current_level: initial_level,
                refill_rate,
                last_refill_time: now,
            },
        )
    }

    /// Builds a bucket whose refill timestamp is the current wall-clock
    /// instant. Fails fast on an invalid configuration: a rejected
    /// construction never yields a usable bucket.
    pub fn new(max_tokens: i64, initial_level: i64, refill_rate: i64) -> (r: Result<
        TokenBucket,
        ConfigError,
    >)
        ensures
            r is Ok <==> config_ok(max_tokens, initial_level, refill_rate),
            r matches Ok(b) ==> {
                &&& b.valid()
                &&& b.max_tokens == max_tokens
                &&& b.current_level == initial_level
                &&& b.refill_rate == refill_rate
            },
            r matches Err(e) ==> e == (if refill_rate <= 0 {
                ConfigError::NonPositiveRefillRate
            } else {
                ConfigError::InvalidLevel
            }),
    {
        let now: i64 = now_millis();
        Self::new_at(max_tokens, initial_level, refill_rate, now)
    }

    /// One admission check against the clock reading `now`, exactly one
    /// `step` of the bucket: lazy refill, then reject if the bucket is still
    /// empty, else consume one token and admit.
    pub fn request_at(&mut self, now: i64) -> (d: Decision)
        requires
            old(self).valid(),
        ensures
            (*final(self), d) == old(self).step(now),
            final(self).valid(),
            final(self).max_tokens == old(self).max_tokens,
            final(self).refill_rate == old(self).refill_rate,
            final(self).last_refill_time >= old(self).last_refill_time,
            d == Decision::Admit <==> old(self).refilled(now).current_level > 0,
            d == Decision::Reject ==> final(self).current_level == 0,
    {
        proof {
            lemma_step_preserves_valid(*self, now);
            lemma_monotonic_refill_time(*self, now);
            lemma_admit_iff_nonzero(*self, now);
        }
        let wide: i128 = (now as i128) - (self.last_refill_time as i128);
        let elapsed: i64 = if wide <= 0 {
            0
        } else if wide > (i64::MAX as i128) {
            i64::MAX
        } else {
            wide as i64
        };
        assert(elapsed as int == self.elapsed_ms(now));
        let generated_wide: u64 = (elapsed as u64) / (self.refill_rate as u64);
        assert(generated_wide as int == self.tokens_generated(now));
        let room: i64 = self.max_tokens - self.current_level;
        let credited: i64 = if generated_wide > (room as u64) {
            room
        } else {
            generated_wide as i64
        };
        assert(credited as int == self.credited(now));
        self.current_level = self.current_level + credited;
        if credited > 0 {
            self.last_refill_time = now;
        }
        assert(*self == old(self).refilled(now));
        if self.current_level == 0 {
            Decision::Reject
        } else {
            self.current_level = self.current_level - 1;
            Decision::Admit
        }
    }

    /// One admission check against the wall clock. The outcome is one `step`
    /// of the bucket at whatever instant the clock returned; whatever that
    /// instant was, the bucket stays well formed, its configuration is
    /// untouched, and its refill timestamp never moves backward.
    pub fn request(&mut self) -> (d: Decision)
        requires
            old(self).valid(),
        ensures
            exists|now: i64| (*final(self), d) == old(self).step(now),
            final(self).valid(),
            final(self).max_tokens == old(self).max_tokens,
            final(self).refill_rate == old(self).refill_rate,
            final(self).last_refill_time >= old(self).last_refill_time,
            d == Decision::Reject ==> final(self).current_level == 0,
    {
        let now: i64 = now_millis();
        self.request_at(now)
    }
}

/// The current wall-clock time as milliseconds since the Unix epoch.
///
/// Relies on chrono::Utc::now and chrono::DateTime::timestamp_millis: the
/// reading is whatever the system clock says (chrono promises nothing of it,
/// not even monotonicity, and aborts if the system clock is set before the
/// Unix epoch), so nothing is stated of the result.
#[verifier::external_body]
fn now_millis() -> (r: i64) {
    chrono::Utc::now().timestamp_millis()
}

/// A step from a well-formed bucket yields a well-formed bucket: the level
/// stays within `[0, max_tokens]` after every admission check.
pub proof fn lemma_step_preserves_valid(b: TokenBucket, now: i64)
    requires
        b.valid(),
    ensures
        b.refilled(now).valid(),
        b.step(now).0.valid(),
{
    lemma_div_pos_is_pos(b.elapsed_ms(now), b.refill_rate as int);
}

/// A step admits exactly when the refilled level is nonzero; a rejecting
/// step leaves the level at zero and an admitting step consumes exactly one
/// token from the refilled level.
pub proof fn lemma_admit_iff_nonzero(b: TokenBucket, now: i64)
    requires
        b.valid(),
    ensures
        b.step(now).1 == Decision::Admit <==> b.refilled(now).current_level > 0,
        b.step(now).1 == Decision::Reject ==> b.step(now).0.current_level == 0,
        b.step(now).1 == Decision::Admit ==> b.step(now).0.current_level == b.refilled(
            now,
        ).current_level - 1,
{
    lemma_step_preserves_valid(b, now);
}

/// Refill never pushes the level above the capacity, however much wall-clock
/// time has elapsed, and never takes tokens away.
pub proof fn lemma_no_overfill(b: TokenBucket, now: i64)
    requires
        b.valid(),
    ensures
        b.refilled(now).current_level <= b.max_tokens,
        b.refilled(now).current_level >= b.current_level,
{
    lemma_div_pos_is_pos(b.elapsed_ms(now), b.refill_rate as int);
}

/// The bucket after a sequence of admission checks, one per clock reading in
/// `times`, taken in order.
pub open spec fn run_all(b: TokenBucket, times: Seq<i64>) -> TokenBucket
    decreases times.len(),
{
    if times.len() == 0 {
        b
    } else {
        run_all(b.step(times[0]).0, times.skip(1))
    }
}

/// How many of the admission checks at the clock readings in `times`, taken
/// in order, admit.
pub open spec fn admit_count(b: TokenBucket, times: Seq<i64>) -> int
    decreases times.len(),
{
    if times.len() == 0 {
        0
    } else {
        (if b.step(times[0]).1 == Decision::Admit {
            1int
        } else {
            0int
        }) + admit_count(b.step(times[0]).0, times.skip(1))
    }
}

/// How many of the admission checks at the clock readings in `times`, taken
/// in order, reject.
pub open spec fn reject_count(b: TokenBucket, times: Seq<i64>) -> int
    decreases times.len(),
{
    if times.len() == 0 {
        0
    } else {
        (if b.step(times[0]).1 == Decision::Reject {
            1int
        } else {
            0int
        }) + reject_count(b.step(times[0]).0, times.skip(1))
    }
}

/// For every sequence of clock readings, a well-formed bucket stays well
/// formed: `0 <= current_level <= max_tokens` holds after every call.
pub proof fn lemma_run_all_valid(b: TokenBucket, times: Seq<i64>)
    requires
        b.valid(),
    ensures
        run_all(b, times).valid(),
    decreases times.len(),
{
    if times.len() > 0 {
        lemma_step_preserves_valid(b, times[0]);
        lemma_run_all_valid(b.step(times[0]).0, times.skip(1));
    }
}

/// Every admission check either admits or rejects, so over any sequence of
/// checks the two counts add up to the number of checks.
pub proof fn lemma_every_check_decided(b: TokenBucket, times: Seq<i64>)
    ensures
        admit_count(b, times) + reject_count(b, times) == times.len(),
    decreases times.len(),
{
    if times.len() > 0 {
        lemma_every_check_decided(b.step(times[0]).0, times.skip(1));
    }
}

/// Serialized admission checks during a window in which no token is
/// generated (every clock reading falls short of the bucket's refill
/// timestamp plus one refill interval) admit exactly `min(N, current_level)`
/// requests out of N and reject the rest, regardless of the order of the
/// readings: with the level at the capacity C, that is exactly C admissions
/// and N - C rejections.
pub proof fn lemma_zero_refill_admission_count(b: TokenBucket, times: Seq<i64>)
    requires
        b.valid(),
        forall|i: int|
            0 <= i < times.len() ==> times[i] < b.last_refill_time + b.refill_rate,
    ensures
        admit_count(b, times) == if times.len() <= b.current_level {
            times.len() as int
        } else {
            b.current_level as int
        },
        reject_count(b, times) == times.len() - admit_count(b, times),
    decreases times.len(),
{
    lemma_every_check_decided(b, times);
    if times.len() > 0 {
        let now = times[0];
        lemma_basic_div(b.elapsed_ms(now), b.refill_rate as int);
        assert(b.tokens_generated(now) == 0);
        assert(b.credited(now) == 0);
        let b2 = b.step(now).0;
        assert(b2.last_refill_time == b.last_refill_time);
        lemma_step_preserves_valid(b, now);
        assert(forall|i: int|
            0 <= i < times.skip(1).len() ==> times.skip(1)[i] < b2.last_refill_time
                + b2.refill_rate);
        lemma_zero_refill_admission_count(b2, times.skip(1));
    }
}

/// The refill timestamp never decreases across a step: it either stays where
/// it was or advances to the instant of a call that credited a token, and a
/// token is only ever credited by an instant later than the timestamp.
pub proof fn lemma_monotonic_refill_time(b: TokenBucket, now: i64)
    requires
        b.valid(),
    ensures
        b.step(now).0.last_refill_time >= b.last_refill_time,
{
    if b.credited(now) > 0 {
        if b.elapsed_ms(now) == 0 {
            lemma_basic_div(0, b.refill_rate as int);
        }
        assert(b.elapsed_ms(now) > 0);
        assert(now > b.last_refill_time);
    }
}

} // verus!
