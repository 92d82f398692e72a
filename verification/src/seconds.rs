//! Seconds in single precision, held exactly as integers.

use vstd::prelude::*;

verus! {

/// The integers below it are those of 24 bits, which is what a single holds.
pub const SINGLE_RANGE: u128 = 0x100_0000;

/// Half of `SINGLE_RANGE`, which the bits of a single count its powers of two in.
pub const HALF_RANGE: u128 = 0x80_0000;

/// The power of two that a second is, counted in the smallest single.
pub const SECOND_POWER: u32 = 149;

/// The power of two that the distance from 1 to the next single is, counted in the smallest
/// single.
pub const EPSILON_POWER: u32 = 126;

/// The first bits that stand for more than every number.
pub const INFINITE_BITS: u32 = 0x7f80_0000;

/// Nanoseconds in a second.
pub const NANOS_PER_SECOND: u128 = 1_000_000_000;

/// `a / b` as the nearest integer; of two that are as near, the even one.
pub open spec fn rounded(a: nat, b: nat) -> nat {
    let floor = a / b;
    let rest = a % b;
    if 2 * rest > b || (2 * rest == b && floor % 2 == 1) {
        floor + 1
    } else {
        floor
    }
}

/// `a / b` as the nearest integer; of two that are as near, the even one.
pub fn round_ratio(a: u128, b: u128) -> (quotient: u128)
    requires
        b > 0,
    ensures
        quotient == rounded(a as nat, b as nat),
        quotient <= a + 1,
{
    let floor: u128 = a / b;
    let rest: u128 = a % b;
    assert(floor <= a && rest < b && (floor == a ==> b == 1 || a == 0)) by (nonlinear_arith)
        requires
            b > 0,
            floor == a / b,
            rest == a % b,
    ;
    if rest > b - rest || (rest == b - rest && floor % 2 == 1) {
        floor + 1
    } else {
        floor
    }
}

/// Two to the power `n`.
pub open spec fn two_to(n: nat) -> nat
    decreases n,
{
    if n == 0 {
        1
    } else {
        2 * two_to((n - 1) as nat)
    }
}

/// The power of two that the last of the 24 bits of a single is worth at `n`: the smallest that
/// goes fewer than `SINGLE_RANGE` times into `n`.
pub open spec fn power_at(n: nat) -> nat
    decreases n,
{
    if n < SINGLE_RANGE {
        0
    } else {
        power_at(n / 2) + 1
    }
}

/// A number of seconds that is not negative, as single precision has it, by its bits. Bits from
/// `INFINITE_BITS` on stand for more than every number.
#[derive(Debug, Clone, Copy, PartialEq, Eq, Structural)]
pub struct Seconds {
    pub bits: u32,
}

impl Seconds {
    /// Whether this is more than every number.
    pub open spec fn is_infinite(self) -> bool {
        self.bits >= INFINITE_BITS
    }

    /// The power of two that the last bit is worth, counted in the smallest single.
    pub open spec fn power(self) -> nat {
        if self.bits < HALF_RANGE {
            0
        } else {
            (self.bits / (HALF_RANGE as u32) - 1) as nat
        }
    }

    /// How often the last bit goes into the number.
    pub open spec fn times(self) -> nat {
        (self.bits - self.power() * HALF_RANGE) as nat
    }

    /// The number, counted in the smallest single, where it is one.
    pub open spec fn count(self) -> nat {
        self.times() * two_to(self.power())
    }

    /// The single nearest to a number that is counted in the smallest single; of two that are as
    /// near, the one whose last bit is 0.
    pub open spec fn nearest(count: nat) -> Seconds {
        let power = power_at(count);
        let bits = power * HALF_RANGE as nat + rounded(count, two_to(power));
        Seconds {
            bits: if bits < INFINITE_BITS {
                bits as u32
            } else {
                INFINITE_BITS
            },
        }
    }

    /// The single nearest to `nanos / NANOS_PER_SECOND`, for no more than a second: it is counted
    /// finely enough for that of a nanosecond to have all its bits.
    pub open spec fn fraction(nanos: nat) -> Seconds {
        let scaled = nanos * two_to(53);
        let power = power_at(scaled / (NANOS_PER_SECOND as nat));
        let times = rounded(scaled, NANOS_PER_SECOND as nat * two_to(power));
        Seconds::nearest(times * two_to(power) * two_to((SECOND_POWER - 53) as nat))
    }

    /// The seconds of a time span: its whole seconds and its nanoseconds are each made a single,
    /// the latter divided, and the two added.
    pub open spec fn of(nanos: u128) -> Seconds {
        let whole = nanos as nat / (NANOS_PER_SECOND as nat);
        let part = nanos as nat % (NANOS_PER_SECOND as nat);
        Seconds::nearest(whole * two_to(SECOND_POWER as nat)).sum(
            Seconds::fraction(Seconds::nearest(part).count()),
        )
    }

    /// The sum, rounded.
    pub open spec fn sum(self, other: Seconds) -> Seconds {
        if self.is_infinite() || other.is_infinite() {
            Seconds { bits: INFINITE_BITS }
        } else {
            Seconds::nearest(self.count() + other.count())
        }
    }

    /// The difference, rounded, or none where it would be negative or is of two infinities.
    pub open spec fn difference(self, other: Seconds) -> Seconds {
        if other.is_infinite() {
            Seconds { bits: 0 }
        } else if self.is_infinite() {
            Seconds { bits: INFINITE_BITS }
        } else if self.count() <= other.count() {
            Seconds { bits: 0 }
        } else {
            Seconds::nearest((self.count() - other.count()) as nat)
        }
    }

    /// Whether both are numbers whose rounded difference is below the distance from 1 to the next
    /// single.
    pub open spec fn is_near(self, other: Seconds) -> bool {
        &&& !self.is_infinite()
        &&& !other.is_infinite()
        &&& self.difference(other).count() < two_to(EPSILON_POWER as nat)
        &&& other.difference(self).count() < two_to(EPSILON_POWER as nat)
    }

    /// The nearest number of tenths of a second; of two that are as near, the even one.
    pub open spec fn tenths(self) -> nat {
        rounded(10 * self.count(), two_to(SECOND_POWER as nat))
    }
}

proof fn lemma_two_to_adds(a: nat, b: nat)
    ensures
        two_to(a + b) == two_to(a) * two_to(b),
        two_to(b) >= 1,
    decreases b,
{
    if b == 0 {
        assert(two_to(a) * 1 == two_to(a));
    } else {
        let before = (b - 1) as nat;
        lemma_two_to_adds(a, before);
        assert((a + b - 1) as nat == a + before);
        assert(2 * (two_to(a) * two_to(before)) == two_to(a) * (2 * two_to(before)))
            by (nonlinear_arith);
    }
}

proof fn lemma_two_to_grows(a: nat, b: nat)
    requires
        a <= b,
    ensures
        1 <= two_to(a) <= two_to(b),
    decreases b,
{
    lemma_two_to_adds(0, a);
    if a < b {
        lemma_two_to_grows(a, (b - 1) as nat);
    }
}

/// Some powers of two.
proof fn lemma_powers()
    ensures
        two_to(7) == 0x80,
        two_to(23) == HALF_RANGE,
        two_to(24) == SINGLE_RANGE,
        two_to(26) == 4 * SINGLE_RANGE,
        two_to(53) == 0x20_0000_0000_0000,
        two_to(64) == 0x1_0000_0000_0000_0000,
        two_to(104) == 0x100_0000_0000_0000_0000_0000_0000,
        HALF_RANGE * two_to(105) > u128::MAX,
{
    assert(two_to(7) == 0x80) by {
        reveal_with_fuel(two_to, 8);
    }
    assert(two_to(12) == 0x1000) by {
        reveal_with_fuel(two_to, 13);
    }
    lemma_two_to_adds(12, 12);
    assert(two_to(24) == 0x1000 * 0x1000);
    assert(two_to(24) == 2 * two_to(23));
    assert(two_to(26) == 2 * two_to(25) && two_to(25) == 2 * two_to(24));
    lemma_two_to_adds(26, 26);
    assert(two_to(52) == 0x400_0000 * 0x400_0000) by (nonlinear_arith)
        requires
            two_to(52) == two_to(26) * two_to(26),
            two_to(26) == 0x400_0000,
    ;
    assert(two_to(53) == 2 * two_to(52));
    lemma_two_to_adds(52, 12);
    assert(two_to(64) == 0x10_0000_0000_0000 * 0x1000) by (nonlinear_arith)
        requires
            two_to(64) == two_to(52) * two_to(12),
            two_to(52) == 0x10_0000_0000_0000,
            two_to(12) == 0x1000,
    ;
    lemma_two_to_adds(52, 52);
    assert(two_to(104) == 0x10_0000_0000_0000 * 0x10_0000_0000_0000) by (nonlinear_arith)
        requires
            two_to(104) == two_to(52) * two_to(52),
            two_to(52) == 0x10_0000_0000_0000,
    ;
    assert(two_to(105) == 2 * two_to(104));
}

/// The power at a number is the one that leaves its quotient 24 bits.
proof fn lemma_power_is(n: nat, power: nat)
    requires
        n < SINGLE_RANGE * two_to(power),
        power == 0 || HALF_RANGE * two_to(power) <= n,
    ensures
        power_at(n) == power,
    decreases power,
{
    if power > 0 {
        lemma_two_to_adds(0, (power - 1) as nat);
        assert(n >= SINGLE_RANGE);
        lemma_power_is(n / 2, (power - 1) as nat);
    }
}

proof fn lemma_power_bounds(n: nat)
    ensures
        n < SINGLE_RANGE * two_to(power_at(n)),
        power_at(n) == 0 || HALF_RANGE * two_to(power_at(n)) <= n,
    decreases n,
{
    if n >= SINGLE_RANGE {
        lemma_power_bounds(n / 2);
    }
}

/// Counted twice as finely, a number with all its bits has them all one power higher.
proof fn lemma_power_scales(n: nat, by: nat)
    requires
        n >= HALF_RANGE || by == 0,
    ensures
        power_at(n * two_to(by)) == power_at(n) + by,
    decreases by,
{
    if by == 0 {
        assert(n * 1 == n);
    } else {
        let before = (by - 1) as nat;
        lemma_power_scales(n, before);
        lemma_two_to_adds(0, before);
        assert(n * two_to(by) == 2 * (n * two_to(before))) by (nonlinear_arith)
            requires
                two_to(by) == 2 * two_to(before),
        ;
        assert(n * two_to(before) >= n) by (nonlinear_arith)
            requires
                two_to(before) >= 1,
        ;
        assert((2 * (n * two_to(before))) / 2 == n * two_to(before));
    }
}

proof fn lemma_rounded_scales(a: nat, b: nat, by: nat)
    requires
        b > 0,
        by > 0,
    ensures
        rounded(a * by, b * by) == rounded(a, b),
{
    let floor = a / b;
    let rest = a % b;
    vstd::arithmetic::div_mod::lemma_fundamental_div_mod(a as int, b as int);
    assert(floor * b == b * floor) by (nonlinear_arith);
    assert(a * by == floor * (b * by) + rest * by && 0 <= rest * by < b * by && b * by > 0)
        by (nonlinear_arith)
        requires
            a == floor * b + rest,
            0 <= rest < b,
            by > 0,
    ;
    vstd::arithmetic::div_mod::lemma_fundamental_div_mod_converse(
        (a * by) as int,
        (b * by) as int,
        floor as int,
        (rest * by) as int,
    );
    assert((2 * (rest * by) > b * by <==> 2 * rest > b) && (2 * (rest * by) == b * by <==> 2 * rest
        == b)) by (nonlinear_arith)
        requires
            by > 0,
    ;
}

proof fn lemma_rounded_below(n: nat, step: nat, range: nat)
    requires
        step > 0,
        n < range * step,
    ensures
        rounded(n, step) <= range,
{
    assert(n / step < range) by (nonlinear_arith)
        requires
            step > 0,
            n < range * step,
    ;
}

/// What the parts of a number of seconds are.
pub proof fn lemma_parts(seconds: Seconds)
    ensures
        seconds.times() < SINGLE_RANGE,
        seconds.power() == 0 || seconds.times() >= HALF_RANGE,
        seconds.bits == seconds.power() * HALF_RANGE + seconds.times(),
        !seconds.is_infinite() ==> seconds.power() <= 253,
        seconds.bits == 0 <==> seconds.count() == 0,
{
    lemma_two_to_adds(0, seconds.power());
    let times = seconds.times();
    let unit = two_to(seconds.power());
    let quotient = seconds.bits / 0x80_0000;
    assert(quotient * 0x80_0000 <= seconds.bits < quotient * 0x80_0000 + 0x80_0000);
    assert(times * unit == 0 <==> times == 0) by (nonlinear_arith)
        requires
            unit >= 1,
    ;
}

/// Seconds are singles: each number of them is the single nearest to itself.
pub proof fn law_seconds_are_singles(seconds: Seconds)
    requires
        !seconds.is_infinite(),
    ensures
        Seconds::nearest(seconds.count()) == seconds,
{
    lemma_parts(seconds);
    let times = seconds.times();
    let power = seconds.power();
    let unit = two_to(power);
    lemma_two_to_adds(0, power);
    assert(times * unit < SINGLE_RANGE * unit) by (nonlinear_arith)
        requires
            times < SINGLE_RANGE,
            unit >= 1,
    ;
    if power > 0 {
        assert(HALF_RANGE * unit <= times * unit) by (nonlinear_arith)
            requires
                HALF_RANGE <= times,
        ;
    }
    lemma_power_is(times * unit, power);
    assert((times * unit) / unit == times && (times * unit) % unit == 0) by (nonlinear_arith)
        requires
            unit >= 1,
    ;
}

/// What is far below the last bit of a number changes neither its sum nor its difference with it.
proof fn lemma_far_apart(large: Seconds, small: nat)
    requires
        !large.is_infinite(),
        large.power() > 0,
        4 * small < two_to(large.power()),
    ensures
        Seconds::nearest(large.count() + small) == large,
        small <= large.count(),
        Seconds::nearest((large.count() - small) as nat) == large,
{
    lemma_parts(large);
    let times = large.times();
    let power = large.power();
    let unit = two_to(power);
    let half = two_to((power - 1) as nat);
    let count = large.count();
    assert(unit == 2 * half);
    lemma_two_to_adds(0, (power - 1) as nat);
    assert(HALF_RANGE * unit <= count <= (SINGLE_RANGE - 1) * unit) by (nonlinear_arith)
        requires
            count == times * unit,
            HALF_RANGE <= times <= SINGLE_RANGE - 1,
    ;
    lemma_power_is(count + small, power);
    vstd::arithmetic::div_mod::lemma_fundamental_div_mod_converse(
        (count + small) as int,
        unit as int,
        times as int,
        small as int,
    );
    let below = (count - small) as nat;
    if small == 0 {
    } else if times > HALF_RANGE {
        assert(HALF_RANGE * unit + unit <= count) by (nonlinear_arith)
            requires
                count == times * unit,
                HALF_RANGE + 1 <= times,
        ;
        lemma_power_is(below, power);
        assert(below == (times - 1) * unit + (unit - small)) by (nonlinear_arith)
            requires
                count == times * unit,
                below == count - small,
        ;
        vstd::arithmetic::div_mod::lemma_fundamental_div_mod_converse(
            below as int,
            unit as int,
            times - 1,
            unit - small,
        );
    } else {
        assert(count == SINGLE_RANGE * half);
        lemma_power_is(below, (power - 1) as nat);
        vstd::arithmetic::div_mod::lemma_fundamental_div_mod_converse(
            below as int,
            half as int,
            SINGLE_RANGE - 1,
            half - small,
        );
    }
}

/// The power at `n`, and two to it.
fn find_power(n: u128) -> (found: (u32, u128))
    ensures
        found.0 == power_at(n as nat),
        found.1 == two_to(found.0 as nat),
        found.0 <= 104,
        1 <= found.1,
        found.1 == 1 || found.1 <= n,
    decreases n,
{
    proof {
        lemma_power_bounds(n as nat);
        if power_at(n as nat) > 104 {
            lemma_two_to_grows(105, power_at(n as nat));
            lemma_powers();
        }
    }
    if n < SINGLE_RANGE {
        return (0, 1);
    }
    let (power, unit) = find_power(n / 2);
    (power + 1, 2 * unit)
}

fn power_of_two(n: u32) -> (power: u128)
    requires
        n <= 104,
    ensures
        power == two_to(n as nat),
        1 <= power <= 0x100_0000_0000_0000_0000_0000_0000,
{
    let mut power: u128 = 1;
    let mut i: u32 = 0;
    proof {
        lemma_powers();
        lemma_two_to_grows(n as nat, 104);
    }
    while i < n
        invariant
            i <= n <= 104,
            power == two_to(i as nat),
            two_to(104) == 0x100_0000_0000_0000_0000_0000_0000,
        decreases n - i,
    {
        proof {
            lemma_two_to_grows((i + 1) as nat, 104);
        }
        power = 2 * power;
        i += 1;
    }
    power
}

proof fn lemma_count_bound(seconds: Seconds)
    ensures
        seconds.count() < SINGLE_RANGE * two_to(seconds.power()),
        seconds.power() > 0 ==> HALF_RANGE * two_to(seconds.power()) <= seconds.count(),
        two_to(seconds.power()) >= 1,
{
    lemma_parts(seconds);
    lemma_two_to_adds(0, seconds.power());
    let times = seconds.times();
    let unit = two_to(seconds.power());
    assert(times * unit < SINGLE_RANGE * unit) by (nonlinear_arith)
        requires
            times < SINGLE_RANGE,
            unit >= 1,
    ;
    if seconds.power() > 0 {
        assert(HALF_RANGE * unit <= times * unit) by (nonlinear_arith)
            requires
                HALF_RANGE <= times,
        ;
    }
}

/// The single nearest to a number of nanoseconds below a second.
proof fn lemma_nanos_are_small(nanos: nat)
    requires
        nanos < NANOS_PER_SECOND,
    ensures
        Seconds::nearest(nanos).power() <= 7,
        Seconds::nearest(nanos).count() < 0x8000_0000,
{
    let power = power_at(nanos);
    lemma_power_bounds(nanos);
    lemma_powers();
    if power > 6 {
        lemma_two_to_grows(7, power);
    }
    lemma_two_to_adds(0, power);
    lemma_rounded_below(nanos, two_to(power), SINGLE_RANGE as nat);
    let seconds = Seconds::nearest(nanos);
    assert(seconds.bits <= 8 * HALF_RANGE);
    lemma_parts(seconds);
    lemma_count_bound(seconds);
    lemma_two_to_grows(seconds.power(), 7);
}

proof fn lemma_smaller_is_far(large: Seconds, small: Seconds)
    requires
        large.power() > small.power() + 64,
    ensures
        4 * small.count() < two_to(large.power()),
{
    lemma_count_bound(small);
    lemma_powers();
    lemma_two_to_adds(small.power(), 26);
    let unit = two_to(small.power());
    assert(4 * (SINGLE_RANGE * unit) == unit * two_to(26)) by (nonlinear_arith)
        requires
            two_to(26) == 4 * SINGLE_RANGE,
    ;
    lemma_two_to_grows(small.power() + 26, large.power());
}

proof fn lemma_lower_power_is_less(small: Seconds, large: Seconds)
    requires
        small.power() < large.power(),
    ensures
        small.count() <= large.count(),
{
    lemma_count_bound(small);
    lemma_count_bound(large);
    lemma_two_to_grows(small.power() + 1, large.power());
}

/// Two numbers in the unit of the smaller.
proof fn lemma_common_unit(large: Seconds, small: Seconds, factor: nat)
    requires
        large.power() >= small.power(),
        factor == two_to((large.power() - small.power()) as nat),
    ensures
        large.count() == (large.times() * factor) * two_to(small.power()),
        large.count() + small.count() == (large.times() * factor + small.times()) * two_to(
            small.power(),
        ),
{
    let unit = two_to(small.power());
    lemma_two_to_adds((large.power() - small.power()) as nat, small.power());
    let times = large.times();
    let others = small.times();
    assert(times * (factor * unit) == (times * factor) * unit) by (nonlinear_arith);
    assert((times * factor) * unit + others * unit == (times * factor + others) * unit)
        by (nonlinear_arith);
}

proof fn lemma_whole_tenths(seconds: Seconds, over: nat)
    requires
        seconds.power() == SECOND_POWER + over,
    ensures
        seconds.tenths() == 10 * (seconds.times() * two_to(over)),
{
    let second = two_to(SECOND_POWER as nat);
    lemma_two_to_adds(over, SECOND_POWER as nat);
    let times = seconds.times();
    let factor = two_to(over);
    let tenths = 10 * (times * factor);
    assert(10 * (times * (factor * second)) == tenths * second) by (nonlinear_arith)
        requires
            tenths == 10 * (times * factor),
    ;
    assert((tenths * second) / second == tenths && (tenths * second) % second == 0)
        by (nonlinear_arith)
        requires
            second >= 1,
    ;
}

proof fn lemma_part_tenths(seconds: Seconds, under: nat)
    requires
        seconds.power() + under == SECOND_POWER,
    ensures
        seconds.tenths() == rounded(10 * seconds.times(), two_to(under)),
{
    let unit = two_to(seconds.power());
    lemma_two_to_adds(under, seconds.power());
    lemma_two_to_adds(0, under);
    let times = seconds.times();
    assert(10 * (times * unit) == (10 * times) * unit) by (nonlinear_arith);
    lemma_rounded_scales(10 * times, two_to(under), unit);
}

proof fn lemma_no_tenths(times: nat, under: nat)
    requires
        times < SINGLE_RANGE,
        under > 64,
    ensures
        rounded(10 * times, two_to(under)) == 0,
{
    lemma_two_to_grows(64, under);
    lemma_powers();
    vstd::arithmetic::div_mod::lemma_fundamental_div_mod_converse(
        (10 * times) as int,
        two_to(under) as int,
        0,
        (10 * times) as int,
    );
}

impl Seconds {
    /// The single nearest to `n`, counted in the power `power` of the smallest single.
    fn near_scaled(n: u128, power: u32) -> (seconds: Seconds)
        requires
            power <= 300,
        ensures
            seconds == Seconds::nearest(n as nat * two_to(power as nat)),
    {
        let ghost count = n as nat * two_to(power as nat);
        let mut shifted: u128 = n;
        let mut left: u32 = power;
        while shifted < HALF_RANGE && left > 0
            invariant
                left <= 300,
                count == shifted as nat * two_to(left as nat),
            decreases left,
        {
            assert(shifted * (2 * two_to((left - 1) as nat)) == (2 * shifted) * two_to(
                (left - 1) as nat,
            )) by (nonlinear_arith);
            shifted = 2 * shifted;
            left -= 1;
        }
        let (found, unit) = find_power(shifted);
        let times: u128 = round_ratio(shifted, unit);
        proof {
            lemma_power_bounds(shifted as nat);
            lemma_rounded_below(shifted as nat, unit as nat, SINGLE_RANGE as nat);
            lemma_power_scales(shifted as nat, left as nat);
            lemma_two_to_adds(found as nat, left as nat);
            lemma_rounded_scales(shifted as nat, unit as nat, two_to(left as nat));
        }
        let bits: u128 = (found + left) as u128 * HALF_RANGE + times;
        if bits < INFINITE_BITS as u128 {
            Seconds { bits: bits as u32 }
        } else {
            Seconds { bits: INFINITE_BITS }
        }
    }

    /// The power of two that the last bit is worth, and how often it goes into the number.
    fn parts(self) -> (parts: (u32, u128))
        ensures
            parts.0 == self.power(),
            parts.1 == self.times(),
            parts.1 < SINGLE_RANGE,
            parts.0 == 0 || parts.1 >= HALF_RANGE,
            !self.is_infinite() ==> parts.0 <= 253,
    {
        proof {
            lemma_parts(self);
        }
        let power: u32 = if self.bits < HALF_RANGE as u32 {
            0
        } else {
            self.bits / (HALF_RANGE as u32) - 1
        };
        (power, self.bits as u128 - power as u128 * HALF_RANGE)
    }

    /// The seconds of a time span of so many nanoseconds.
    pub fn of_nanos(nanos: u128) -> (seconds: Seconds)
        ensures
            seconds == Seconds::of(nanos),
    {
        let whole = Seconds::near_scaled(nanos / NANOS_PER_SECOND, SECOND_POWER);
        let (power, times) = Seconds::near_scaled(nanos % NANOS_PER_SECOND, 0).parts();
        proof {
            let part = nanos as nat % (NANOS_PER_SECOND as nat);
            assert(two_to(0) == 1);
            assert(part * 1 == part);
            lemma_nanos_are_small(part);
        }
        let fraction = Seconds::find_fraction(times * power_of_two(power));
        whole.plus(fraction)
    }

    fn find_fraction(nanos: u128) -> (seconds: Seconds)
        requires
            nanos < 0x8000_0000,
        ensures
            seconds == Seconds::fraction(nanos as nat),
    {
        proof {
            lemma_powers();
        }
        let scaled: u128 = nanos * 0x20_0000_0000_0000;
        let floor: u128 = scaled / NANOS_PER_SECOND;
        let (power, unit) = find_power(floor);
        assert(NANOS_PER_SECOND * unit > 0);
        let times: u128 = round_ratio(scaled, NANOS_PER_SECOND * unit);
        proof {
            lemma_power_bounds(floor as nat);
            let spacing = NANOS_PER_SECOND as nat * unit as nat;
            assert(scaled < SINGLE_RANGE * spacing) by (nonlinear_arith)
                requires
                    scaled < (floor + 1) * NANOS_PER_SECOND,
                    floor + 1 <= SINGLE_RANGE * unit,
                    spacing == NANOS_PER_SECOND * unit,
            ;
            lemma_rounded_below(scaled as nat, spacing, SINGLE_RANGE as nat);
            assert(times * unit <= SINGLE_RANGE * unit) by (nonlinear_arith)
                requires
                    times <= SINGLE_RANGE,
            ;
        }
        Seconds::near_scaled(times * unit, SECOND_POWER - 53)
    }

    /// The sum, rounded.
    pub fn plus(self, other: Seconds) -> (sum: Seconds)
        ensures
            sum == self.sum(other),
    {
        if self.bits >= INFINITE_BITS || other.bits >= INFINITE_BITS {
            return Seconds { bits: INFINITE_BITS };
        }
        let (power, _) = self.parts();
        let (other_power, _) = other.parts();
        if power >= other_power {
            self.plus_smaller(other)
        } else {
            other.plus_smaller(self)
        }
    }

    fn plus_smaller(self, other: Seconds) -> (sum: Seconds)
        requires
            !self.is_infinite(),
            !other.is_infinite(),
            self.power() >= other.power(),
        ensures
            sum == Seconds::nearest(self.count() + other.count()),
    {
        let (power, times) = self.parts();
        let (other_power, other_times) = other.parts();
        if power - other_power > 64 {
            proof {
                lemma_smaller_is_far(self, other);
                lemma_far_apart(self, other.count());
            }
            return self;
        }
        let factor: u128 = power_of_two(power - other_power);
        proof {
            lemma_common_unit(self, other, factor as nat);
        }
        assert(times * factor <= 0xff_ffff * 0x100_0000_0000_0000_0000_0000_0000)
            by (nonlinear_arith)
            requires
                times <= 0xff_ffff,
                factor <= 0x100_0000_0000_0000_0000_0000_0000,
        ;
        Seconds::near_scaled(times * factor + other_times, other_power)
    }

    /// The difference, rounded, or none where it would be negative or is of two infinities.
    pub fn minus(self, other: Seconds) -> (rest: Seconds)
        ensures
            rest == self.difference(other),
    {
        if other.bits >= INFINITE_BITS {
            return Seconds { bits: 0 };
        }
        if self.bits >= INFINITE_BITS {
            return Seconds { bits: INFINITE_BITS };
        }
        let (power, times) = self.parts();
        let (other_power, other_times) = other.parts();
        if power < other_power {
            proof {
                lemma_lower_power_is_less(self, other);
            }
            return Seconds { bits: 0 };
        }
        if power - other_power > 64 {
            proof {
                lemma_smaller_is_far(self, other);
                lemma_far_apart(self, other.count());
                lemma_count_bound(self);
            }
            return self;
        }
        let factor: u128 = power_of_two(power - other_power);
        proof {
            lemma_common_unit(self, other, factor as nat);
        }
        assert(times * factor <= 0xff_ffff * 0x100_0000_0000_0000_0000_0000_0000)
            by (nonlinear_arith)
            requires
                times <= 0xff_ffff,
                factor <= 0x100_0000_0000_0000_0000_0000_0000,
        ;
        let ours: u128 = times * factor;
        proof {
            let unit = two_to(other_power as nat);
            lemma_two_to_adds(0, other_power as nat);
            assert(ours * unit <= other_times * unit <==> ours <= other_times) by (nonlinear_arith)
                requires
                    unit >= 1,
            ;
        }
        if ours <= other_times {
            return Seconds { bits: 0 };
        }
        proof {
            let unit = two_to(other_power as nat);
            assert((ours - other_times) * unit == ours * unit - other_times * unit)
                by (nonlinear_arith);
        }
        Seconds::near_scaled(ours - other_times, other_power)
    }

    /// Whether the two differ by less than single precision tells apart at one second.
    pub fn near(self, other: Seconds) -> (near: bool)
        ensures
            near == self.is_near(other),
    {
        if self.bits >= INFINITE_BITS || other.bits >= INFINITE_BITS {
            return false;
        }
        self.minus(other).is_below_epsilon() && other.minus(self).is_below_epsilon()
    }

    fn is_below_epsilon(self) -> (below: bool)
        ensures
            below == (self.count() < two_to(EPSILON_POWER as nat)),
    {
        let (power, times) = self.parts();
        proof {
            let unit = two_to(power as nat);
            lemma_two_to_adds(0, power as nat);
            lemma_powers();
            lemma_two_to_adds(102, 24);
            lemma_two_to_adds(103, 23);
            if power <= 102 {
                lemma_two_to_grows(power as nat, 102);
                assert(times * unit < SINGLE_RANGE * two_to(102)) by (nonlinear_arith)
                    requires
                        times < SINGLE_RANGE,
                        1 <= unit <= two_to(102),
                ;
            } else {
                lemma_two_to_grows(103, power as nat);
                assert(HALF_RANGE * two_to(103) <= times * unit) by (nonlinear_arith)
                    requires
                        HALF_RANGE <= times,
                        two_to(103) <= unit,
                ;
            }
        }
        power <= 102
    }

    /// The nearest number of tenths of a second, as whole seconds and the tenths above them;
    /// nothing where this is more than every number.
    pub fn in_tenths(self) -> (parts: Option<(u128, u128)>)
        ensures
            match parts {
                Some((whole, tenth)) => !self.is_infinite() && whole == self.tenths() / 10 && tenth
                    == self.tenths() % 10,
                None => self.is_infinite(),
            },
    {
        if self.bits >= INFINITE_BITS {
            return None;
        }
        let (power, times) = self.parts();
        if power >= SECOND_POWER {
            let over: u32 = power - SECOND_POWER;
            proof {
                lemma_whole_tenths(self, over as nat);
            }
            let factor: u128 = power_of_two(over);
            assert(times * factor <= 0xff_ffff * 0x100_0000_0000_0000_0000_0000_0000)
                by (nonlinear_arith)
                requires
                    times <= 0xff_ffff,
                    factor <= 0x100_0000_0000_0000_0000_0000_0000,
            ;
            let whole: u128 = times * factor;
            assert((10 * whole as nat) / 10 == whole && (10 * whole as nat) % 10 == 0);
            return Some((whole, 0));
        }
        let under: u32 = SECOND_POWER - power;
        let tenths: u128 = if under <= 64 {
            round_ratio(10 * times, power_of_two(under))
        } else {
            0
        };
        proof {
            lemma_part_tenths(self, under as nat);
            if under > 64 {
                lemma_no_tenths(times as nat, under as nat);
            }
        }
        Some((tenths / 10, tenths % 10))
    }
}

/// A sum that needs no rounding is undone by the difference.
pub proof fn lemma_exact_sum_is_undone(a: Seconds, b: Seconds)
    requires
        !a.is_infinite(),
        !b.is_infinite(),
        !a.sum(b).is_infinite(),
        a.sum(b).count() == a.count() + b.count(),
    ensures
        a.sum(b).difference(b) == a,
{
    lemma_parts(a);
    law_seconds_are_singles(a);
}

/// Rounding a quotient misses it by no more than a half.
pub proof fn law_rounding_is_to_the_nearest(a: nat, b: nat)
    requires
        b > 0,
    ensures
        -(b as int) <= 2 * (rounded(a, b) * b - a) <= b,
        2 * (rounded(a, b) * b - a) == b || 2 * (a - rounded(a, b) * b) == b ==> rounded(a, b) % 2
            == 0,
{
    let floor = a / b;
    let rest = a % b;
    assert(a == floor * b + rest && 0 <= rest < b) by (nonlinear_arith)
        requires
            b > 0,
            floor == a / b,
            rest == a % b,
    ;
    assert((floor + 1) * b == floor * b + b) by (nonlinear_arith);
}

proof fn lemma_nearest_count(n: nat)
    requires
        !Seconds::nearest(n).is_infinite(),
    ensures
        Seconds::nearest(n).count() == rounded(n, two_to(power_at(n))) * two_to(power_at(n)),
{
    let power = power_at(n);
    let unit = two_to(power);
    lemma_power_bounds(n);
    lemma_two_to_adds(0, power);
    let r = rounded(n, unit);
    lemma_rounded_below(n, unit, SINGLE_RANGE as nat);
    let single = Seconds::nearest(n);
    if power == 0 {
        assert(unit == 1);
        assert(n / unit == n && n % unit == 0) by (nonlinear_arith)
            requires
                unit == 1,
        ;
        assert(r == n);
        assert(r < SINGLE_RANGE);
    } else {
        assert(n / unit >= HALF_RANGE) by (nonlinear_arith)
            requires
                HALF_RANGE * unit <= n,
                unit > 0,
        ;
        assert(r >= HALF_RANGE);
    }
    assert(single.bits == power * HALF_RANGE + r);
    if r < SINGLE_RANGE {
        assert(single.power() == power);
        assert(single.times() == r);
    } else {
        assert(power > 0);
        assert(single.power() == power + 1);
        assert(single.times() == HALF_RANGE);
        assert(two_to(power + 1) == 2 * unit);
        assert(HALF_RANGE * (2 * unit) == SINGLE_RANGE * unit) by (nonlinear_arith);
    }
}

/// The single that is nearest to a number misses it by no more than one part in as many as a
/// single tells apart.
pub proof fn law_nearest_single_is_near(n: nat)
    requires
        !Seconds::nearest(n).is_infinite(),
    ensures
        -(n as int) <= 0x100_0000 * (Seconds::nearest(n).count() - n) <= n,
        n < 0x100_0000 ==> Seconds::nearest(n).count() == n,
{
    let power = power_at(n);
    let unit = two_to(power);
    lemma_nearest_count(n);
    lemma_power_bounds(n);
    lemma_two_to_adds(0, power);
    law_rounding_is_to_the_nearest(n, unit);
    let count = Seconds::nearest(n).count();
    if power == 0 {
        assert(unit == 1);
        assert(rounded(n, 1) * 1 == n);
    } else {
        let off = count - n;
        assert(-(n as int) <= 0x100_0000 * off <= n) by (nonlinear_arith)
            requires
                0x80_0000 * unit <= n,
                -(unit as int) <= 2 * off <= unit,
        ;
    }
}

/// A sum and a difference of seconds miss what they stand for by no more than one part in as many
/// as a single tells apart; there are no seconds below none.
pub proof fn law_seconds_add_up(a: Seconds, b: Seconds)
    requires
        !a.is_infinite(),
        !b.is_infinite(),
    ensures
        !a.sum(b).is_infinite() ==> -(a.count() + b.count()) <= 0x100_0000 * (a.sum(b).count() - (
        a.count() + b.count())) <= a.count() + b.count(),
        a.sum(b) == b.sum(a),
        a.count() <= b.count() ==> a.difference(b).count() == 0,
        a.count() > b.count() && !a.difference(b).is_infinite() ==> -(a.count() - b.count())
            <= 0x100_0000 * (a.difference(b).count() - (a.count() - b.count())) <= a.count()
            - b.count(),
{
    if !a.sum(b).is_infinite() {
        law_nearest_single_is_near(a.count() + b.count());
    }
    if a.count() > b.count() {
        if !a.difference(b).is_infinite() {
            law_nearest_single_is_near((a.count() - b.count()) as nat);
        }
    } else {
        lemma_parts(Seconds { bits: 0 });
    }
}

} // verus!
