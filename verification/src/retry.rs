//! How long to rest between two tries, and when to stop trying.

use vstd::prelude::*;

use crate::error::{lowercase, ApiError, ErrorView};
use crate::text::contains;

verus! {

/// The first number of more than 53 binary digits.
pub const WIDE: u128 = 0x20_0000_0000_0000;

/// The distance between the numbers of 53 significant binary digits round `n`.
pub open spec fn unit(n: nat) -> nat
    decreases n,
{
    if n < WIDE {
        1
    } else {
        2 * unit(n / 2)
    }
}

/// The number of 53 significant binary digits that is nearest to `n`; of two,
/// the one whose last digit is even.
pub open spec fn nearest(n: nat) -> nat {
    let u = unit(n);
    let below = n / u;
    let over = n % u;
    if 2 * over > u || (2 * over == u && below % 2 == 1) {
        (below + 1) * u
    } else {
        below * u
    }
}

/// `n` and its half, both rounded to 53 significant binary digits on the way,
/// and the fraction dropped.
pub open spec fn half_more(n: nat) -> nat {
    nearest(3 * nearest(n)) / 2
}

/// `n`, or the nearest number that fits in 64 bits.
pub open spec fn saturated(n: int) -> int {
    if n > i64::MAX {
        i64::MAX as int
    } else if n < i64::MIN {
        i64::MIN as int
    } else {
        n
    }
}

/// One and a half times `n`, as double-precision arithmetic has it, without the
/// fraction.
pub open spec fn grown(n: int) -> int {
    if n < 0 {
        saturated(-half_more((-n) as nat))
    } else {
        saturated(half_more(n as nat) as int)
    }
}

/// The lesser of two numbers.
pub open spec fn lesser(a: int, b: int) -> int {
    if a < b {
        a
    } else {
        b
    }
}

proof fn lemma_unit(n: nat)
    ensures
        1 <= unit(n),
        n > 0 ==> unit(n) <= n,
        2 * n >= WIDE ==> unit(n) * WIDE <= 2 * n,
    decreases n,
{
    if n >= WIDE {
        lemma_unit(n / 2);
    }
}

proof fn lemma_nearest(n: nat)
    ensures
        2 * nearest(n) <= 2 * n + unit(n),
        2 * n <= 2 * nearest(n) + unit(n),
        n < WIDE ==> nearest(n) == n,
{
    lemma_unit(n);
    let u = unit(n);
    let below = n / u;
    let over = n % u;
    assert(n == below * u + over && 0 <= over < u) by (nonlinear_arith)
        requires
            u >= 1,
            below == n / u,
            over == n % u,
    ;
    assert((below + 1) * u == below * u + u) by (nonlinear_arith);
    assert(below * 1 == below) by (nonlinear_arith);
    if n < WIDE {
        assert(u == 1);
        assert(over == 0);
        assert(below * u == below * 1);
    }
}

fn unit_of(n: u128) -> (u: u128)
    requires
        n < 0x1000 * WIDE * 0x1000,
    ensures
        u == unit(n as nat),
        1 <= u,
        n > 0 ==> u <= n,
    decreases n,
{
    if n < WIDE {
        1
    } else {
        2 * unit_of(n / 2)
    }
}

fn rounded(n: u128) -> (r: u128)
    requires
        n < 0x1000 * WIDE * 0x1000,
    ensures
        r == nearest(n as nat),
{
    let u: u128 = unit_of(n);
    let below: u128 = n / u;
    let over: u128 = n % u;
    assert(below * u <= n && over < u) by (nonlinear_arith)
        requires
            u >= 1,
            below == n / u,
            over == n % u,
    ;
    assert((below + 1) * u == below * u + u) by (nonlinear_arith);
    if 2 * over > u || (2 * over == u && below % 2 == 1) {
        (below + 1) * u
    } else {
        below * u
    }
}

fn saturate(n: i128) -> (fit: i64)
    ensures
        fit == saturated(n as int),
{
    if n > i64::MAX as i128 {
        i64::MAX
    } else if n < i64::MIN as i128 {
        i64::MIN
    } else {
        n as i64
    }
}

/// One and a half times `n`, as double-precision arithmetic has it, without the
/// fraction.
pub fn three_halves(n: i64) -> (more: i64)
    ensures
        more == grown(n as int),
{
    let size: u128 = if n < 0 {
        (-(n as i128)) as u128
    } else {
        n as u128
    };
    proof {
        lemma_unit(size as nat);
        lemma_nearest(size as nat);
        lemma_unit(3 * nearest(size as nat));
        lemma_nearest(3 * nearest(size as nat));
    }
    let first: u128 = rounded(size);
    let more: i128 = (rounded(3 * first) / 2) as i128;
    if n < 0 {
        saturate(-more)
    } else {
        saturate(more)
    }
}

/// How the tries go: how long is rested at first and at most, in seconds, how
/// many tries there may be (any number, unless it is positive), how many there
/// were, and how long is rested after the next.
#[derive(Clone, Copy, Debug, PartialEq)]
pub struct Retry {
    pub initial: i64,
    pub max: i64,
    pub limit: i64,
    pub tries: u64,
    pub backoff: i64,
}

/// What is done after a try that failed.
#[derive(Debug, PartialEq)]
pub enum Verdict {
    /// No further try can succeed.
    Refused,
    /// After a rest of so many seconds, another try.
    Rest { retry: Retry, seconds: u64 },
    /// It is not known whether another try could succeed.
    Unexpected,
}

/// A number of seconds, read as 64 binary digits without a sign.
pub open spec fn as_seconds(n: int) -> int {
    if n < 0 {
        n + 0x1_0000_0000_0000_0000
    } else {
        n
    }
}

fn seconds_of(n: i64) -> (seconds: u64)
    ensures
        seconds == as_seconds(n as int),
{
    if n < 0 {
        u64::MAX - ((-(n + 1)) as u64)
    } else {
        n as u64
    }
}

/// The rest after a rate limit: twice as long, up to the longest.
pub open spec fn doubled(backoff: int, max: int) -> int {
    lesser(saturated(2 * backoff), max)
}

/// The rest after the next try: half as long again, and up to ten seconds more,
/// up to the longest and not below the first.
pub open spec fn next_backoff(backoff: int, jitter: int, initial: int, max: int) -> int {
    let next = lesser(saturated(grown(backoff) + jitter), max);
    if next < initial {
        initial
    } else {
        next
    }
}

/// The seconds that the clock adds to a rest.
pub open spec fn jitter_of(nanos: u32) -> int {
    (nanos % 11) as int
}

impl Retry {
    /// Whether there may be another try.
    pub open spec fn may_try(self) -> bool {
        self.limit <= 0 || self.tries < self.limit
    }

    /// After a try that failed.
    pub open spec fn after_try(self, error: ErrorView) -> Verdict {
        if error.non_retryable() {
            Verdict::Refused
        } else if error.retryable() {
            let backoff = if error.rate_limited() {
                doubled(self.backoff as int, self.max as int) as i64
            } else {
                self.backoff
            };
            Verdict::Rest {
                retry: Retry { backoff, ..self },
                seconds: as_seconds(backoff as int) as u64,
            }
        } else {
            Verdict::Unexpected
        }
    }

    /// After a rest, at the end of which the clock stood at `nanos` nanoseconds
    /// past a full second.
    pub open spec fn after_rest(self, nanos: u32) -> Retry {
        Retry {
            tries: if self.tries == u64::MAX {
                0
            } else {
                (self.tries + 1) as u64
            },
            backoff: next_backoff(
                self.backoff as int,
                jitter_of(nanos),
                self.initial as int,
                self.max as int,
            ) as i64,
            ..self
        }
    }

    /// Before the first try.
    pub fn start(initial: i64, max: i64, limit: i64) -> (retry: Retry)
        ensures
            retry == (Retry { initial, max, limit, tries: 0, backoff: initial }),
    {
        Retry { initial, max, limit, tries: 0, backoff: initial }
    }

    /// Whether there may be another try.
    pub fn may_go_on(&self) -> (may: bool)
        ensures
            may == self.may_try(),
    {
        self.limit <= 0 || self.tries < self.limit as u64
    }

    /// Judges a try that failed.
    pub fn judge(self, error: &ApiError) -> (verdict: Verdict)
        ensures
            verdict == self.after_try(error@),
            error@.status() == 500 && error@.lacks_room() ==> verdict is Rest,
    {
        if error.is_non_retryable() {
            return Verdict::Refused;
        }
        if !error.is_retryable() {
            return Verdict::Unexpected;
        }
        let mut backoff: i64 = self.backoff;
        if error.is_rate_limited() {
            let twice: i64 = saturate(2 * backoff as i128);
            backoff = if twice < self.max {
                twice
            } else {
                self.max
            };
        }
        let retry: Retry = Retry {
            initial: self.initial,
            max: self.max,
            limit: self.limit,
            tries: self.tries,
            backoff,
        };
        Verdict::Rest { retry, seconds: seconds_of(backoff) }
    }

    /// Goes on after a rest, at the end of which the clock stood at `nanos`
    /// nanoseconds past a full second.
    pub fn wake(self, nanos: u32) -> (retry: Retry)
        ensures
            retry == self.after_rest(nanos),
    {
        let jitter: i64 = (nanos % 11) as i64;
        let more: i64 = saturate(three_halves(self.backoff) as i128 + jitter as i128);
        let capped: i64 = if more < self.max {
            more
        } else {
            self.max
        };
        Retry {
            initial: self.initial,
            max: self.max,
            limit: self.limit,
            tries: self.tries.wrapping_add(1),
            backoff: if capped < self.initial {
                self.initial
            } else {
                capped
            },
        }
    }
}

/// Up to fifty-one binary digits, the growth is by exactly a half, rounded
/// towards zero.
pub proof fn law_growth_is_by_half(n: int)
    requires
        -0x8_0000_0000_0000 <= n <= 0x8_0000_0000_0000,
    ensures
        n >= 0 ==> grown(n) == 3 * n / 2,
        n < 0 ==> grown(n) == -(3 * -n / 2),
{
    let size: nat = if n < 0 {
        (-n) as nat
    } else {
        n as nat
    };
    lemma_nearest(size);
    lemma_nearest(3 * size);
}

/// A rest is never shorter than the one before, up to the longest rest; and it
/// is longer, unless it was below two seconds.
pub proof fn law_backoff_grows(retry: Retry, nanos: u32)
    requires
        0 <= retry.backoff <= retry.max,
    ensures
        retry.after_rest(nanos).backoff >= retry.backoff,
        2 <= retry.backoff < retry.max ==> retry.after_rest(nanos).backoff > retry.backoff,
{
    let b = retry.backoff as nat;
    lemma_unit(b);
    lemma_nearest(b);
    lemma_unit(3 * nearest(b));
    lemma_nearest(3 * nearest(b));
}

/// A rest is at least half as long again as the one before, up to the longest
/// rest, and at most ten seconds more than that.
pub proof fn law_backoff_is_exponential(retry: Retry, nanos: u32)
    requires
        0 <= retry.backoff <= 0x8_0000_0000_0000,
    ensures
        ({
            let next = retry.after_rest(nanos).backoff;
            &&& next >= lesser(3 * retry.backoff / 2, retry.max as int)
            &&& next <= 3 * retry.backoff / 2 + 10 || next == retry.initial
        }),
{
    law_growth_is_by_half(retry.backoff as int);
}

/// Every rest but the first lies between the first and the longest, where the
/// first is not above the longest; and otherwise is the first.
pub proof fn law_backoff_stays_in_bounds(retry: Retry, nanos: u32)
    ensures
        ({
            let next = retry.after_rest(nanos);
            &&& retry.initial <= next.backoff
            &&& next.backoff <= retry.max || next.backoff == retry.initial
            &&& next.initial == retry.initial
            &&& next.max == retry.max
            &&& next.limit == retry.limit
        }),
{
}

/// After a rate limit the rest is twice as long, up to the longest; after any
/// other error that may pass it is as long as planned. Nothing else changes.
pub proof fn law_rate_limit_doubles(retry: Retry, error: ErrorView)
    requires
        0 <= retry.backoff <= retry.max,
        retry.after_try(error) is Rest,
    ensures
        ({
            let rested = retry.after_try(error)->retry;
            let seconds = retry.after_try(error)->seconds;
            &&& error.rate_limited() ==> seconds == lesser(2 * retry.backoff, retry.max as int)
            &&& !error.rate_limited() ==> seconds == retry.backoff
            &&& rested == (Retry { backoff: rested.backoff, ..retry })
            &&& rested.backoff == seconds
            &&& retry.backoff <= rested.backoff <= retry.max
        }),
{
}

/// There is another try only after an error that may pass and is not known to
/// stay; and after every such error there is a rest first.
pub proof fn law_rest_follows_passing_errors(retry: Retry, error: ErrorView)
    ensures
        retry.after_try(error) is Rest <==> error.retryable() && !error.non_retryable(),
        retry.after_try(error) is Refused <==> error.non_retryable(),
{
}

/// Where the number of tries is limited, there are never more; where it is not,
/// there may always be another.
pub proof fn law_tries_are_limited(retry: Retry)
    ensures
        retry.limit > 0 && retry.may_try() ==> retry.tries + 1 <= retry.limit,
        retry.limit > 0 && retry.tries >= retry.limit ==> !retry.may_try(),
        retry.limit > 0 && retry.tries < retry.limit ==> retry.may_try(),
        retry.limit <= 0 ==> retry.may_try(),
{
}

/// The next rest is one and a half times the last, rounded towards zero, and as
/// many seconds more as the clock's nanoseconds leave over when divided by eleven;
/// but at most the longest, and then at least the first. Each rest counts a try.
pub proof fn law_next_rest_is_exact(retry: Retry, nanos: u32)
    requires
        -0x8_0000_0000_0000 <= retry.backoff <= 0x8_0000_0000_0000,
    ensures
        ({
            let b = retry.backoff as int;
            let more = if b >= 0 {
                3 * b / 2
            } else {
                -(3 * -b / 2)
            } + nanos as int % 11;
            let next = retry.after_rest(nanos).backoff as int;
            &&& more > retry.max && retry.initial <= retry.max ==> next == retry.max
            &&& more <= retry.max && more >= retry.initial ==> next == more
            &&& more < retry.initial || retry.max < retry.initial ==> next == retry.initial
        }),
        retry.tries < u64::MAX ==> retry.after_rest(nanos).tries == retry.tries + 1,
{
    law_growth_is_by_half(retry.backoff as int);
}

/// A rest after a failed try lasts as long as was planned, unless the service
/// limits the rate: then twice as long, within 64 bits, and at most the longest.
/// The number of seconds is read without a sign.
pub proof fn law_rest_lasts_as_planned(retry: Retry, error: ErrorView)
    requires
        retry.after_try(error) is Rest,
    ensures
        ({
            let rested = retry.after_try(error)->retry;
            let seconds = retry.after_try(error)->seconds as int;
            let b = rested.backoff as int;
            &&& rested == (Retry { backoff: rested.backoff, ..retry })
            &&& error.status() != 429 ==> b == retry.backoff
            &&& error.status() == 429 && 2 * retry.backoff >= retry.max ==> b == retry.max
            &&& error.status() == 429 && i64::MIN <= 2 * retry.backoff < retry.max ==> b == 2
                * retry.backoff
            &&& b >= 0 ==> seconds == b
            &&& b < 0 ==> seconds == b + 0x1_0000_0000_0000_0000
        }),
{
}

/// A passing fault of the service is always rested on: a rate limit, a gateway in
/// trouble, and a 500 whose message tells of a region without room or of a fault
/// that passes, unless the message tells of a limit.
pub proof fn law_passing_faults_are_rested_on(retry: Retry, message: Seq<char>, status: u16)
    requires
        status == 500 || status == 502 || status == 503 || status == 504 || status == 429,
        status == 500 ==> contains(lowercase(message), "internal"@) || contains(
            lowercase(message),
            "timeout"@,
        ) || contains(lowercase(message), "temporary"@) || contains(
            lowercase(message),
            "out of host capacity"@,
        ),
        !contains(lowercase(message), "limitexceeded"@) || contains(
            lowercase(message),
            "out of host capacity"@,
        ),
    ensures
        retry.after_try(ErrorView::Http { status, message }) is Rest,
{
}

proof fn lemma_unit_is_small(n: nat)
    ensures
        n < WIDE * unit(n),
    decreases n,
{
    if n >= WIDE {
        lemma_unit_is_small(n / 2);
    }
}

/// Whether a number is rounded to `k` times the distance round it: that is at most
/// half the distance away, and where two are as near the even one.
pub open spec fn is_nearest_multiple(n: nat, k: nat) -> bool {
    let u = unit(n);
    &&& nearest(n) == k * u
    &&& 2 * nearest(n) <= 2 * n + u
    &&& 2 * n <= 2 * nearest(n) + u
    &&& 2 * nearest(n) == 2 * n + u || 2 * n == 2 * nearest(n) + u ==> k % 2 == 0
}

/// Rounding keeps 53 binary digits: a number of no more digits stays as it is, and
/// of any other the result is a multiple of the distance between such numbers, at
/// most half of it away, and where two are as near the even multiple.
pub proof fn law_rounding_is_to_the_nearest(n: nat)
    ensures
        n < 0x20_0000_0000_0000 ==> nearest(n) == n,
        n >= 0x20_0000_0000_0000 ==> 0x10_0000_0000_0000 * unit(n) <= n < 0x20_0000_0000_0000
            * unit(n),
        n >= 0x20_0000_0000_0000 ==> exists|k: nat| #[trigger] is_nearest_multiple(n, k),
{
    lemma_nearest(n);
    lemma_unit(n);
    lemma_unit_is_small(n);
    if n >= WIDE {
        let u = unit(n);
        let below = n / u;
        let over = n % u;
        assert(n == below * u + over && 0 <= over < u) by (nonlinear_arith)
            requires
                u >= 1,
                below == n / u,
                over == n % u,
        ;
        assert((below + 1) * u == below * u + u) by (nonlinear_arith);
        if 2 * over > u || (2 * over == u && below % 2 == 1) {
            assert(is_nearest_multiple(n, below + 1));
        } else {
            assert(is_nearest_multiple(n, below));
        }
    }
}

/// A rest grows as double-precision numbers do: to three times the rounded
/// number, rounded, and halved, without the fraction, within 64 bits.
pub proof fn law_growth_is_that_of_doubles(n: nat)
    ensures
        nearest(3 * nearest(n)) / 2 <= i64::MAX ==> grown(n as int) == nearest(3 * nearest(n)) / 2,
        nearest(3 * nearest(n)) / 2 > i64::MAX ==> grown(n as int) == i64::MAX,
        grown(-(n as int)) == if nearest(3 * nearest(n)) / 2 <= 0x8000_0000_0000_0000 {
            -(nearest(3 * nearest(n)) / 2)
        } else {
            i64::MIN as int
        },
{
    lemma_nearest(0);
}

} // verus!
