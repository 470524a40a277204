use vstd::prelude::*;

verus! {

/// Largest number of fractional digits a `Decimal` may carry.
pub const MAX_SCALE: u32 = 19;

/// `10^n`.
pub open spec fn pow10(n: nat) -> nat
    decreases n,
{
    if n == 0 {
        1
    } else {
        10 * pow10((n - 1) as nat)
    }
}

/// An exact decimal coordinate: `(-1)^negative * units / 10^scale`.
///
/// The sign is kept apart from the magnitude, so that a negated zero
/// is written `-0`, as a negated floating-point zero is.
#[derive(Clone, Copy, Debug)]
pub struct Decimal {
    pub negative: bool,
    pub units: u64,
    pub scale: u32,
}

impl Decimal {
    pub open spec fn wf(self) -> bool {
        self.scale <= MAX_SCALE
    }

    /// Signed numerator of the value over `denom()`.
    pub open spec fn numer(self) -> int {
        if self.negative {
            -(self.units as int)
        } else {
            self.units as int
        }
    }

    pub open spec fn denom(self) -> nat {
        pow10(self.scale as nat)
    }

    /// `self <= o` as rational numbers.
    pub open spec fn spec_le(self, o: Decimal) -> bool {
        self.numer() * o.denom() <= o.numer() * self.denom()
    }

    /// `self < o` as rational numbers.
    pub open spec fn spec_lt(self, o: Decimal) -> bool {
        self.numer() * o.denom() < o.numer() * self.denom()
    }

    /// `self` and `o` stand for the same rational number.
    pub open spec fn same_value(self, o: Decimal) -> bool {
        self.numer() * o.denom() == o.numer() * self.denom()
    }

    pub open spec fn spec_neg(self) -> Decimal {
        Decimal { negative: !self.negative, ..self }
    }

    pub open spec fn spec_one() -> Decimal {
        Decimal { negative: false, units: 1, scale: 0 }
    }

    pub fn new(negative: bool, units: u64, scale: u32) -> (r: Decimal)
        requires
            scale <= MAX_SCALE,
        ensures
            r == (Decimal { negative, units, scale }),
            r.wf(),
    {
        Decimal { negative, units, scale }
    }

    /// The value `1`.
    pub fn one() -> (r: Decimal)
        ensures
            r == Decimal::spec_one(),
            r.wf(),
    {
        Decimal { negative: false, units: 1, scale: 0 }
    }

    /// The same magnitude with the opposite sign.
    pub fn neg(&self) -> (r: Decimal)
        ensures
            r == self.spec_neg(),
    {
        Decimal { negative: !self.negative, ..*self }
    }

    /// Compares the two values as rational numbers; the sign of a zero
    /// plays no part.
    pub fn le(&self, o: &Decimal) -> (r: bool)
        requires
            self.wf(),
            o.wf(),
        ensures
            r == self.spec_le(*o),
    {
        let da = pow10_u64(self.scale);
        let db = pow10_u64(o.scale);
        let a: u128 = mul_u64(self.units, db);
        let b: u128 = mul_u64(o.units, da);
        proof {
            vstd::arithmetic::mul::lemma_mul_unary_negation(self.units as int, o.denom() as int);
            vstd::arithmetic::mul::lemma_mul_unary_negation(o.units as int, self.denom() as int);
        }
        if self.negative {
            if o.negative {
                b <= a
            } else {
                true
            }
        } else {
            if o.negative {
                a == 0 && b == 0
            } else {
                a <= b
            }
        }
    }
}

proof fn lemma_pow10_positive(n: nat)
    ensures
        pow10(n) >= 1,
    decreases n,
{
    if n > 0 {
        lemma_pow10_positive((n - 1) as nat);
    }
}

proof fn lemma_pow10_monotone(m: nat, n: nat)
    requires
        m <= n,
    ensures
        pow10(m) <= pow10(n),
    decreases n,
{
    if m < n {
        lemma_pow10_monotone(m, (n - 1) as nat);
        lemma_pow10_positive((n - 1) as nat);
    }
}

proof fn lemma_pow10_max()
    ensures
        pow10(MAX_SCALE as nat) == 10000000000000000000nat,
{
    reveal_with_fuel(pow10, 20);
}

/// `10^n` for the scales a `Decimal` may carry.
pub fn pow10_u64(n: u32) -> (r: u64)
    requires
        n <= MAX_SCALE,
    ensures
        r == pow10(n as nat),
{
    let mut r: u64 = 1;
    let mut i: u32 = 0;
    while i < n
        invariant
            i <= n <= MAX_SCALE,
            r == pow10(i as nat),
        decreases n - i,
    {
        proof {
            lemma_pow10_monotone((i + 1) as nat, MAX_SCALE as nat);
            lemma_pow10_max();
        }
        r = r * 10;
        i = i + 1;
    }
    r
}

fn mul_u64(a: u64, b: u64) -> (r: u128)
    ensures
        r == a * b,
{
    proof {
        vstd::arithmetic::mul::lemma_mul_upper_bound(a as int, u64::MAX as int, b as int, u64::MAX as int);
    }
    (a as u128) * (b as u128)
}

/// The character of a decimal digit.
pub open spec fn digit_char(d: nat) -> char {
    if d == 0 {
        '0'
    } else if d == 1 {
        '1'
    } else if d == 2 {
        '2'
    } else if d == 3 {
        '3'
    } else if d == 4 {
        '4'
    } else if d == 5 {
        '5'
    } else if d == 6 {
        '6'
    } else if d == 7 {
        '7'
    } else if d == 8 {
        '8'
    } else {
        '9'
    }
}

/// Decimal digits of `n`, without leading zeros (`0` is written `0`).
pub open spec fn nat_text(n: nat) -> Seq<char>
    decreases n,
{
    if n < 10 {
        seq![digit_char(n)]
    } else {
        nat_text(n / 10).push(digit_char(n % 10))
    }
}

/// The last `w` decimal digits of `n`, padded with leading zeros.
pub open spec fn fixed_text(n: nat, w: nat) -> Seq<char>
    decreases w,
{
    if w == 0 {
        seq![]
    } else {
        fixed_text(n / 10, (w - 1) as nat).push(digit_char(n % 10))
    }
}

/// A fraction of `w` digits with its trailing zeros taken off, as the
/// remaining digits and their count.
pub open spec fn trim_zeros(f: nat, w: nat) -> (nat, nat)
    decreases w,
{
    if w > 0 && f % 10 == 0 {
        trim_zeros(f / 10, (w - 1) as nat)
    } else {
        (f, w)
    }
}

/// The shortest plain text of a decimal: an optional `-`, the integer
/// part, and the fractional digits after a `.` unless they are all zero.
pub open spec fn decimal_text(d: Decimal) -> Seq<char> {
    let sign: Seq<char> = if d.negative { seq!['-'] } else { seq![] };
    let ip = d.units as nat / d.denom();
    let fp = d.units as nat % d.denom();
    let (f, w) = trim_zeros(fp, d.scale as nat);
    let frac: Seq<char> = if w == 0 { seq![] } else { seq!['.'] + fixed_text(f, w) };
    sign + nat_text(ip) + frac
}

fn digit_str(d: u64) -> (r: &'static str)
    requires
        d < 10,
    ensures
        r@ == seq![digit_char(d as nat)],
{
    proof {
        reveal_strlit("0");
        reveal_strlit("1");
        reveal_strlit("2");
        reveal_strlit("3");
        reveal_strlit("4");
        reveal_strlit("5");
        reveal_strlit("6");
        reveal_strlit("7");
        reveal_strlit("8");
        reveal_strlit("9");
    }
    if d == 0 {
        "0"
    } else if d == 1 {
        "1"
    } else if d == 2 {
        "2"
    } else if d == 3 {
        "3"
    } else if d == 4 {
        "4"
    } else if d == 5 {
        "5"
    } else if d == 6 {
        "6"
    } else if d == 7 {
        "7"
    } else if d == 8 {
        "8"
    } else {
        "9"
    }
}

fn push_nat(out: &mut String, n: u64)
    ensures
        final(out)@ == old(out)@ + nat_text(n as nat),
    decreases n,
{
    if n >= 10 {
        push_nat(out, n / 10);
    }
    out.append(digit_str(n % 10));
}

fn push_fixed(out: &mut String, n: u64, w: u32)
    ensures
        final(out)@ == old(out)@ + fixed_text(n as nat, w as nat),
    decreases w,
{
    if w > 0 {
        push_fixed(out, n / 10, w - 1);
        out.append(digit_str(n % 10));
    }
}

fn trim_fraction(f: u64, w: u32) -> (r: (u64, u32))
    ensures
        (r.0 as nat, r.1 as nat) == trim_zeros(f as nat, w as nat),
    decreases w,
{
    if w > 0 && f % 10 == 0 {
        trim_fraction(f / 10, w - 1)
    } else {
        (f, w)
    }
}

impl Decimal {
    /// Appends `decimal_text(*self)` to `out`.
    pub fn write_text(&self, out: &mut String)
        requires
            self.wf(),
        ensures
            final(out)@ == old(out)@ + decimal_text(*self),
    {
        proof {
            reveal_strlit("-");
            reveal_strlit(".");
        }
        let ghost start = out@;
        if self.negative {
            out.append("-");
        }
        let den = pow10_u64(self.scale);
        proof {
            lemma_pow10_positive(self.scale as nat);
        }
        push_nat(out, self.units / den);
        let (f, w) = trim_fraction(self.units % den, self.scale);
        if w > 0 {
            out.append(".");
            push_fixed(out, f, w);
        }
        assert(out@ =~= start + decimal_text(*self));
    }
}

} // verus!
