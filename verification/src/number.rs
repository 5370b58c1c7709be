//! Numbers as text: reading them in base ten or sixteen, and writing them with
//! a minimum number of digits.
use vstd::prelude::*;
use vstd::slice::slice_subrange;

verus! {

// ── Digits ──────────────────────────────────────────────────────────────
/// The value of a digit, where `c` is one in base ten or sixteen.
pub open spec fn digit_value(c: char, base: nat) -> Option<nat> {
    if '0' <= c <= '9' {
        Some((c as u32 - '0' as u32) as nat)
    } else if base == 16 && 'a' <= c <= 'f' {
        Some((c as u32 - 'a' as u32 + 10) as nat)
    } else if base == 16 && 'A' <= c <= 'F' {
        Some((c as u32 - 'A' as u32 + 10) as nat)
    } else {
        None
    }
}

pub open spec fn all_digits(s: Seq<char>, base: nat) -> bool {
    forall|i: int| 0 <= i < s.len() ==> digit_value(#[trigger] s[i], base) is Some
}

/// What the digits say, the most significant first.
pub open spec fn value_of(s: Seq<char>, base: nat) -> nat
    decreases s.len(),
{
    if s.len() == 0 {
        0
    } else {
        value_of(s.drop_last(), base) * base + digit_value(s.last(), base)->0
    }
}

// ── Reading ─────────────────────────────────────────────────────────────
/// The digits of a number, after the plus sign that may stand before them.
pub open spec fn digits_of(s: Seq<char>) -> Seq<char> {
    if s.len() > 1 && s[0] == '+' {
        s.skip(1)
    } else {
        s
    }
}

/// The number that `s` writes: one digit at least, nothing but digits, and no
/// more than `max`.
pub open spec fn number(s: Seq<char>, base: nat, max: nat) -> Option<nat> {
    let d = digits_of(s);
    if d.len() > 0 && all_digits(d, base) && value_of(d, base) <= max {
        Some(value_of(d, base))
    } else {
        None
    }
}

proof fn lemma_value_grows(s: Seq<char>, base: nat, i: int)
    requires
        0 <= i <= s.len(),
        base >= 1,
    ensures
        value_of(s.take(i), base) <= value_of(s, base),
    decreases s.len() - i,
{
    if i < s.len() {
        lemma_value_grows(s, base, i + 1);
        assert(s.take(i + 1).drop_last() =~= s.take(i));
        let v = value_of(s.take(i), base);
        assert(v <= v * base) by (nonlinear_arith)
            requires
                base >= 1,
        ;
    } else {
        assert(s.take(i) =~= s);
    }
}

fn digit(c: char, base: u64) -> (r: Option<u64>)
    requires
        base == 10 || base == 16,
    ensures
        match r {
            Some(d) => digit_value(c, base as nat) == Some(d as nat) && d < base,
            None => digit_value(c, base as nat) is None,
        },
{
    if '0' <= c && c <= '9' {
        Some((c as u8 - 48) as u64)
    } else if base == 16 && 'a' <= c && c <= 'f' {
        Some((c as u8 - 87) as u64)
    } else if base == 16 && 'A' <= c && c <= 'F' {
        Some((c as u8 - 55) as u64)
    } else {
        None
    }
}

/// Reads a number of at most `max` in base ten or sixteen.
pub fn read_number(s: &[char], base: u64, max: u64) -> (r: Option<u64>)
    requires
        base == 10 || base == 16,
    ensures
        match r {
            Some(v) => number(s@, base as nat, max as nat) == Some(v as nat),
            None => number(s@, base as nat, max as nat) is None,
        },
{
    let d = if s.len() > 1 && s[0] == '+' {
        slice_subrange(s, 1, s.len())
    } else {
        s
    };
    assert(d@ =~= digits_of(s@));
    if d.len() == 0 {
        return None;
    }
    let mut acc: u64 = 0;
    let mut i: usize = 0;
    while i < d.len()
        invariant
            base == 10 || base == 16,
            i <= d@.len(),
            d@ == digits_of(s@),
            acc <= max,
            acc == value_of(d@.take(i as int), base as nat),
            all_digits(d@.take(i as int), base as nat),
        decreases d.len() - i,
    {
        let k = digit(d[i], base);
        assert(d@.take(i + 1).drop_last() =~= d@.take(i as int));
        assert(d@.take(i + 1).last() == d@[i as int]);
        match k {
            None => {
                return None;
            },
            Some(k) => {
                assert(acc * base <= 0xffff_ffff_ffff_ffff * 16) by (nonlinear_arith)
                    requires
                        acc <= 0xffff_ffff_ffff_ffff,
                        base <= 16,
                ;
                let next: u128 = acc as u128 * base as u128 + k as u128;
                assert(next == value_of(d@.take(i + 1), base as nat));
                if next > max as u128 {
                    proof {
                        lemma_value_grows(d@, base as nat, i + 1);
                    }
                    return None;
                }
                acc = next as u64;
                assert forall|j: int| 0 <= j < i + 1 implies digit_value(
                    #[trigger] d@.take(i + 1)[j],
                    base as nat,
                ) is Some by {
                    if j < i {
                        assert(d@.take(i + 1)[j] == d@.take(i as int)[j]);
                    }
                }
            },
        }
        i += 1;
    }
    assert(d@.take(i as int) =~= d@);
    Some(acc)
}

// ── Writing ─────────────────────────────────────────────────────────────
/// The digit that stands for `d`; letters are in the case asked for.
pub open spec fn digit_char(d: nat, upper: bool) -> char {
    if d < 10 {
        ('0' as u32 + d) as char
    } else if upper {
        ('A' as u32 + d - 10) as char
    } else {
        ('a' as u32 + d - 10) as char
    }
}

pub proof fn lemma_quotient_is_smaller(v: nat, base: nat)
    requires
        v >= base >= 2,
    ensures
        v / base < v,
{
    assert(v / base < v) by (nonlinear_arith)
        requires
            v >= base,
            base >= 2,
    ;
}

/// The shortest way to write `v`.
pub open spec fn shortest(v: nat, base: nat, upper: bool) -> Seq<char>
    decreases v,
{
    if v < base || base < 2 {
        seq![digit_char(v, upper)]
    } else {
        proof {
            lemma_quotient_is_smaller(v, base);
        }
        shortest(v / base, base, upper).push(digit_char(v % base, upper))
    }
}

pub open spec fn zeros(n: nat) -> Seq<char> {
    Seq::new(n, |i: int| '0')
}

/// `s` with zeros before it, where it is shorter than `width`.
pub open spec fn zero_padded(s: Seq<char>, width: nat) -> Seq<char> {
    if s.len() < width {
        zeros((width - s.len()) as nat) + s
    } else {
        s
    }
}

pub open spec fn decimal(v: nat) -> Seq<char> {
    shortest(v, 10, false)
}

pub open spec fn hex_upper(v: nat, width: nat) -> Seq<char> {
    zero_padded(shortest(v, 16, true), width)
}

pub open spec fn hex_lower(v: nat, width: nat) -> Seq<char> {
    zero_padded(shortest(v, 16, false), width)
}

fn push_digit(out: &mut String, d: u64, upper: bool)
    requires
        d < 16,
    ensures
        final(out)@ == old(out)@.push(digit_char(d as nat, upper)),
{
    let d: u8 = d as u8;
    if d < 10 {
        out.push((48 + d) as char);
    } else if upper {
        out.push((55 + d) as char);
    } else {
        out.push((87 + d) as char);
    }
}

fn push_shortest(out: &mut String, v: u64, base: u64, upper: bool)
    requires
        base == 10 || base == 16,
    ensures
        final(out)@ == old(out)@ + shortest(v as nat, base as nat, upper),
    decreases v,
{
    if v < base {
        push_digit(out, v, upper);
    } else {
        push_shortest(out, v / base, base, upper);
        push_digit(out, v % base, upper);
    }
}

fn count_digits(v: u64, base: u64) -> (n: u64)
    requires
        base == 10 || base == 16,
    ensures
        n == shortest(v as nat, base as nat, true).len(),
        n == shortest(v as nat, base as nat, false).len(),
        1 <= n <= v + 1,
    decreases v,
{
    if v < base {
        1
    } else {
        1 + count_digits(v / base, base)
    }
}

fn push_padded(out: &mut String, v: u64, base: u64, upper: bool, width: u64)
    requires
        base == 10 || base == 16,
    ensures
        final(out)@ == old(out)@ + zero_padded(shortest(v as nat, base as nat, upper), width as nat),
{
    let n: u64 = count_digits(v, base);
    let mut k: u64 = n;
    while k < width
        invariant
            n <= k,
            k <= width || k == n,
            out@ == old(out)@ + zeros((k - n) as nat),
        decreases width - k,
    {
        out.push('0');
        k += 1;
    }
    push_shortest(out, v, base, upper);
    let ghost digits = shortest(v as nat, base as nat, upper);
    if n < width {
        assert(out@ =~= old(out)@ + (zeros((width - n) as nat) + digits));
    } else {
        assert(out@ =~= old(out)@ + digits);
    }
}

pub fn push_decimal(out: &mut String, v: u64)
    ensures
        final(out)@ == old(out)@ + decimal(v as nat),
{
    push_shortest(out, v, 10, false);
}

/// Appends `v` in base ten with at least `width` digits.
pub fn push_decimal_padded(out: &mut String, v: u64, width: u64)
    ensures
        final(out)@ == old(out)@ + zero_padded(decimal(v as nat), width as nat),
{
    push_padded(out, v, 10, false, width);
}

pub fn push_hex_upper(out: &mut String, v: u64, width: u64)
    ensures
        final(out)@ == old(out)@ + hex_upper(v as nat, width as nat),
{
    push_padded(out, v, 16, true, width);
}

pub fn push_hex_lower(out: &mut String, v: u64, width: u64)
    ensures
        final(out)@ == old(out)@ + hex_lower(v as nat, width as nat),
{
    push_padded(out, v, 16, false, width);
}

// ── Writing and reading agree ───────────────────────────────────────────
proof fn lemma_digit_round_trip(d: nat, base: nat, upper: bool)
    requires
        base == 10 || base == 16,
        d < base,
    ensures
        digit_value(digit_char(d, upper), base) == Some(d),
        digit_char(d, upper) != '+',
{
}

proof fn lemma_shortest(v: nat, base: nat, upper: bool)
    requires
        base == 10 || base == 16,
    ensures
        shortest(v, base, upper).len() > 0,
        all_digits(shortest(v, base, upper), base),
        value_of(shortest(v, base, upper), base) == v,
        shortest(v, base, upper)[0] != '+',
    decreases v,
{
    let s = shortest(v, base, upper);
    if v < base {
        lemma_digit_round_trip(v, base, upper);
        assert(s.drop_last() =~= Seq::empty());
        reveal_with_fuel(value_of, 2);
    } else {
        let head = shortest(v / base, base, upper);
        lemma_shortest(v / base, base, upper);
        lemma_digit_round_trip(v % base, base, upper);
        assert(s.drop_last() =~= head);
        assert forall|i: int| 0 <= i < s.len() implies digit_value(#[trigger] s[i], base) is Some by {
            if i < head.len() {
                assert(s[i] == head[i]);
            }
        }
        assert((v / base) * base + v % base == v) by (nonlinear_arith)
            requires
                base > 0,
        ;
    }
}

proof fn lemma_leading_zeros(s: Seq<char>, base: nat, n: nat)
    requires
        base == 10 || base == 16,
        all_digits(s, base),
    ensures
        all_digits(zeros(n) + s, base),
        value_of(zeros(n) + s, base) == value_of(s, base),
    decreases s.len() + n,
{
    let z = zeros(n) + s;
    assert forall|i: int| 0 <= i < z.len() implies digit_value(#[trigger] z[i], base) is Some by {
        if i >= n {
            assert(z[i] == s[i - n]);
        }
    }
    if s.len() > 0 {
        assert(z.drop_last() =~= zeros(n) + s.drop_last());
        assert(all_digits(s.drop_last(), base)) by {
            assert forall|i: int| 0 <= i < s.len() - 1 implies digit_value(
                #[trigger] s.drop_last()[i],
                base,
            ) is Some by {
                assert(s.drop_last()[i] == s[i]);
            }
        }
        lemma_leading_zeros(s.drop_last(), base, n);
    } else if n > 0 {
        assert(z.drop_last() =~= zeros((n - 1) as nat) + s);
        lemma_leading_zeros(s, base, (n - 1) as nat);
        assert(value_of(z, base) == value_of(z.drop_last(), base) * base + 0);
        assert(value_of(s, base) == 0);
    } else {
        assert(z =~= s);
    }
}

pub proof fn lemma_hex_upper_is_digits(v: nat, width: nat)
    ensures
        all_digits(hex_upper(v, width), 16),
{
    let s = shortest(v, 16, true);
    lemma_shortest(v, 16, true);
    if s.len() < width {
        lemma_leading_zeros(s, 16, (width - s.len()) as nat);
    }
}

/// A number written in base ten or sixteen, with zeros before it or without,
/// reads back as itself wherever it is within the limit.
pub proof fn law_written_number_reads_back(v: nat, base: nat, upper: bool, width: nat, max: nat)
    requires
        base == 10 || base == 16,
        v <= max,
    ensures
        number(zero_padded(shortest(v, base, upper), width), base, max) == Some(v),
{
    let s = shortest(v, base, upper);
    lemma_shortest(v, base, upper);
    let p = zero_padded(s, width);
    if s.len() < width {
        lemma_leading_zeros(s, base, (width - s.len()) as nat);
        assert(p[0] == '0');
    }
    assert(p[0] != '+');
    assert(digits_of(p) == p);
}

/// The digits are `0` to `9` for zero to nine and `a` to `f`, in either case, for ten
/// to fifteen; nothing else is a digit, and letters are digits in base sixteen only.
pub proof fn law_digits(c: char, base: nat)
    requires
        base == 10 || base == 16,
    ensures
        ({
            let u = c as u32;
            let v = digit_value(c, base);
            &&& 48 <= u <= 57 ==> v == Some((u - 48) as nat)
            &&& base == 16 && 97 <= u <= 102 ==> v == Some((u - 87) as nat)
            &&& base == 16 && 65 <= u <= 70 ==> v == Some((u - 55) as nat)
            &&& v is Some ==> 48 <= u <= 57 || base == 16 && (97 <= u <= 102 || 65 <= u <= 70)
            &&& v is Some ==> v->0 < base
        }),
{
}

/// Each digit behind others makes the number `base` times as large and adds its
/// value; a single digit is its value.
pub proof fn law_next_digit(s: Seq<char>, c: char, base: nat)
    requires
        base == 10 || base == 16,
        digit_value(c, base) is Some,
    ensures
        value_of(seq![c], base) == digit_value(c, base)->0,
        value_of(s.push(c), base) == value_of(s, base) * base + digit_value(c, base)->0,
{
    assert(s.push(c).drop_last() =~= s);
    assert(seq![c].drop_last() =~= Seq::empty());
    reveal_with_fuel(value_of, 2);
}

/// A text is a number exactly where it holds a digit and, but for one plus sign in
/// front, nothing but digits, and stays within the limit. What it says is what its
/// digits say.
pub proof fn law_numbers(s: Seq<char>, base: nat, max: nat)
    requires
        base == 10 || base == 16,
    ensures
        s.len() == 0 ==> number(s, base, max) is None,
        s.len() > 0 && s[0] != '+' ==> (number(s, base, max) is Some <==> all_digits(s, base)
            && value_of(s, base) <= max),
        number(s, base, max) is Some && s[0] != '+' ==> number(s, base, max) == Some(
            value_of(s, base),
        ),
        number(s, base, max) matches Some(v) ==> v <= max,
        all_digits(s, base) && s.len() > 0 ==> number(seq!['+'] + s, base, max) == number(
            s,
            base,
            max,
        ),
        number(seq!['+'], base, max) is None,
{
    let plus = seq!['+'] + s;
    assert(plus.skip(1) =~= s);
    if s.len() > 0 {
        assert(plus.len() > 1);
        if all_digits(s, base) {
            assert(digit_value(s[0], base) is Some);
        }
    }
    let one = seq!['+'];
    assert(digit_value(one[0], base) is None);
}

/// A number is written without a zero in front, unless it is zero itself, and in
/// digits of the case asked for.
pub proof fn law_written_without_spare_zeros(v: nat, base: nat, upper: bool)
    requires
        base == 10 || base == 16,
    ensures
        v > 0 ==> shortest(v, base, upper)[0] != '0',
        shortest(0, base, upper) == seq!['0'],
        forall|i: int|
            0 <= i < shortest(v, base, upper).len() ==> {
                let c = #[trigger] shortest(v, base, upper)[i];
                upper ==> !('a' <= c <= 'z')
            },
        forall|i: int|
            0 <= i < shortest(v, base, upper).len() ==> {
                let c = #[trigger] shortest(v, base, upper)[i];
                !upper ==> !('A' <= c <= 'Z')
            },
    decreases v,
{
    let s = shortest(v, base, upper);
    if v >= base {
        lemma_quotient_is_smaller(v, base);
        assert(v / base > 0) by (nonlinear_arith)
            requires
                v >= base,
                base > 0,
        ;
        law_written_without_spare_zeros(v / base, base, upper);
        lemma_shortest(v / base, base, upper);
        let head = shortest(v / base, base, upper);
        assert forall|i: int| 0 <= i < s.len() implies {
            let c = #[trigger] s[i];
            (upper ==> !('a' <= c <= 'z')) && (!upper ==> !('A' <= c <= 'Z'))
        } by {
            if i < head.len() {
                assert(s[i] == head[i]);
            }
        }
        assert(s[0] == head[0]);
    }
}

/// Zeros fill a number up to its width; a number that needs more digits keeps them.
pub proof fn law_padded_numbers_are_as_wide_as_asked(v: nat, base: nat, upper: bool, width: nat)
    requires
        base == 10 || base == 16,
    ensures
        ({
            let s = shortest(v, base, upper);
            let p = zero_padded(s, width);
            &&& p.len() >= width
            &&& p.len() >= s.len()
            &&& p.len() == width || p == s
            &&& p.skip(p.len() - s.len()) == s
            &&& forall|i: int| 0 <= i < p.len() - s.len() ==> #[trigger] p[i] == '0'
        }),
{
    let s = shortest(v, base, upper);
    let p = zero_padded(s, width);
    assert(p.skip(p.len() - s.len()) =~= s);
}

/// A number below a power of the base needs no more digits than the power says.
pub proof fn law_four_digits_of_sixteen_bits(v: nat, upper: bool)
    requires
        v <= 0xFFFF,
    ensures
        zero_padded(shortest(v, 16, upper), 4).len() == 4,
{
    reveal_with_fuel(shortest, 4);
}

/// Two numbers that are written alike are the same.
pub proof fn law_different_numbers_are_written_differently(
    a: nat,
    b: nat,
    base: nat,
    upper: bool,
    width: nat,
)
    requires
        base == 10 || base == 16,
        a != b,
    ensures
        zero_padded(shortest(a, base, upper), width) != zero_padded(
            shortest(b, base, upper),
            width,
        ),
{
    let max = a + b;
    law_written_number_reads_back(a, base, upper, width, max);
    law_written_number_reads_back(b, base, upper, width, max);
}

/// A number is written in digits alone, one at least.
pub proof fn lemma_written_in_digits(v: nat, base: nat, upper: bool)
    requires
        base == 10 || base == 16,
    ensures
        shortest(v, base, upper).len() > 0,
        all_digits(shortest(v, base, upper), base),
        value_of(shortest(v, base, upper), base) == v,
{
    lemma_shortest(v, base, upper);
}

/// Decimal and hex texts read back in their base, and hex is padded to its width in the
/// letter case that it is named after.
pub proof fn law_decimal_and_hex(v: nat, width: nat, max: nat)
    requires
        v <= max,
    ensures
        number(decimal(v), 10, max) == Some(v),
        number(hex_upper(v, width), 16, max) == Some(v),
        number(hex_lower(v, width), 16, max) == Some(v),
        hex_upper(v, width).len() >= width && hex_lower(v, width).len() >= width,
        hex_upper(10, 1) == seq!['A'] && hex_lower(10, 1) == seq!['a'],
{
    law_written_number_reads_back(v, 10, false, 0, max);
    law_written_number_reads_back(v, 16, true, width, max);
    law_written_number_reads_back(v, 16, false, width, max);
    assert(hex_upper(10, 1) =~= seq!['A']);
    assert(hex_lower(10, 1) =~= seq!['a']);
}

} // verus!
