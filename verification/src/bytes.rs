//! Byte classes, runs of bytes of one class, fixed words, line breaks and
//! decimal numbers: the lexical layer under the chart grammar.

use vstd::prelude::*;

verus! {

pub const TAB: u8 = 9;

pub const NEWLINE: u8 = 10;

pub const RETURN: u8 = 13;

pub const SPACE: u8 = 32;

pub const HASH: u8 = 35;

pub const COMMA: u8 = 44;

pub const MINUS: u8 = 45;

pub const DOT: u8 = 46;

pub const SLASH: u8 = 47;

pub const ZERO: u8 = 48;

pub const NINE: u8 = 57;

pub const COLON: u8 = 58;

pub const UPPER_A: u8 = 65;

pub const UPPER_Z: u8 = 90;

/// The sets of bytes that the grammar scans runs of.
#[derive(Clone, Copy, Debug, PartialEq, Eq)]
pub enum ByteClass {
    /// Space, tab, carriage return, newline.
    Space,
    /// Space or tab.
    Blank,
    /// `0` to `9`.
    Digit,
    /// `A` to `Z` and `0` to `9`: what a header key is made of.
    TagChar,
    /// Anything but a newline.
    LineBody,
}

pub open spec fn in_class(c: ByteClass, b: u8) -> bool {
    match c {
        ByteClass::Space => b == SPACE || b == TAB || b == RETURN || b == NEWLINE,
        ByteClass::Blank => b == SPACE || b == TAB,
        ByteClass::Digit => ZERO <= b <= NINE,
        ByteClass::TagChar => (UPPER_A <= b <= UPPER_Z) || (ZERO <= b <= NINE),
        ByteClass::LineBody => b != NEWLINE,
    }
}

pub fn class_holds(c: ByteClass, b: u8) -> (r: bool)
    ensures
        r == in_class(c, b),
{
    match c {
        ByteClass::Space => b == SPACE || b == TAB || b == RETURN || b == NEWLINE,
        ByteClass::Blank => b == SPACE || b == TAB,
        ByteClass::Digit => ZERO <= b && b <= NINE,
        ByteClass::TagChar => (UPPER_A <= b && b <= UPPER_Z) || (ZERO <= b && b <= NINE),
        ByteClass::LineBody => b != NEWLINE,
    }
}

/// Where the longest run of bytes of class `c` that starts at `i` ends.
pub open spec fn run_end(s: Seq<u8>, i: int, c: ByteClass) -> int
    decreases s.len() - i,
{
    if 0 <= i < s.len() && in_class(c, s[i]) {
        run_end(s, i + 1, c)
    } else {
        i
    }
}

/// A run ends inside the text, holds bytes of its class only, and stops at
/// the end of the text or before a byte outside the class.
pub proof fn lemma_run_end(s: Seq<u8>, i: int, c: ByteClass)
    requires
        0 <= i <= s.len(),
    ensures
        i <= run_end(s, i, c) <= s.len(),
        forall|k: int| i <= k < run_end(s, i, c) ==> in_class(c, #[trigger] s[k]),
        run_end(s, i, c) < s.len() ==> !in_class(c, s[run_end(s, i, c)]),
    decreases s.len() - i,
{
    if i < s.len() && in_class(c, s[i]) {
        lemma_run_end(s, i + 1, c);
    }
}

/// A position that a run of its class reaches, and at which the run must
/// stop, is the run's end.
pub proof fn lemma_run_end_is(s: Seq<u8>, i: int, e: int, c: ByteClass)
    requires
        0 <= i <= e <= s.len(),
        forall|k: int| i <= k < e ==> in_class(c, #[trigger] s[k]),
        e < s.len() ==> !in_class(c, s[e]),
    ensures
        run_end(s, i, c) == e,
    decreases e - i,
{
    if i < e {
        lemma_run_end_is(s, i + 1, e, c);
    }
}

pub fn scan_run(input: &[u8], pos: usize, c: ByteClass) -> (end: usize)
    requires
        pos <= input@.len(),
    ensures
        end == run_end(input@, pos as int, c),
        pos <= end <= input@.len(),
{
    let mut j: usize = pos;
    while j < input.len() && class_holds(c, input[j])
        invariant
            pos <= j <= input@.len(),
            run_end(input@, pos as int, c) == run_end(input@, j as int, c),
        decreases input@.len() - j,
    {
        j += 1;
    }
    j
}

/// Whether the word `w` stands in `s` at position `i`.
pub open spec fn word_at(s: Seq<u8>, i: int, w: Seq<u8>) -> bool {
    0 <= i && i + w.len() <= s.len() && s.subrange(i, i + w.len()) == w
}

pub fn has_word(input: &[u8], pos: usize, w: &[u8]) -> (r: bool)
    requires
        pos <= input@.len(),
    ensures
        r == word_at(input@, pos as int, w@),
{
    if w.len() > input.len() - pos {
        return false;
    }
    let mut k: usize = 0;
    while k < w.len()
        invariant
            pos + w@.len() <= input@.len(),
            input@.len() == input.len(),
            k <= w@.len(),
            forall|j: int| 0 <= j < k ==> input@[pos + j] == w@[j],
        decreases w@.len() - k,
    {
        if input[pos + k] != w[k] {
            assert(input@.subrange(pos as int, pos + w@.len())[k as int] != w@[k as int]);
            return false;
        }
        k += 1;
    }
    assert(input@.subrange(pos as int, pos + w@.len()) =~= w@);
    true
}

/// The end of a line at `i`: the end of the text, a newline, or a carriage
/// return and a newline. The result is the position behind the break.
pub open spec fn line_break(s: Seq<u8>, i: int) -> Option<int> {
    if i >= s.len() {
        Some(i)
    } else if s[i] == NEWLINE {
        Some(i + 1)
    } else if s[i] == RETURN && i + 1 < s.len() && s[i + 1] == NEWLINE {
        Some(i + 2)
    } else {
        None
    }
}

pub fn take_line_break(input: &[u8], pos: usize) -> (r: Option<usize>)
    requires
        pos <= input@.len(),
    ensures
        match r {
            Some(e) => line_break(input@, pos as int) == Some(e as int) && pos <= e
                <= input@.len(),
            None => line_break(input@, pos as int) is None,
        },
{
    if pos >= input.len() {
        Some(pos)
    } else if input[pos] == NEWLINE {
        Some(pos + 1)
    } else if input[pos] == RETURN && pos + 1 < input.len() && input[pos + 1] == NEWLINE {
        Some(pos + 2)
    } else {
        None
    }
}

/// The number that the decimal digits of `s` from `i` up to `j` write.
pub open spec fn decimal(s: Seq<u8>, i: int, j: int) -> nat
    decreases j - i,
{
    if j <= i {
        0
    } else {
        decimal(s, i, j - 1) * 10 + (s[j - 1] - ZERO) as nat
    }
}

pub open spec fn pow10(n: nat) -> nat
    decreases n,
{
    if n == 0 {
        1
    } else {
        10 * pow10((n - 1) as nat)
    }
}

/// A number of `j - i` digits is below the `j - i`-th power of ten.
pub proof fn lemma_decimal_bound(s: Seq<u8>, i: int, j: int)
    requires
        0 <= i <= j <= s.len(),
        forall|k: int| i <= k < j ==> in_class(ByteClass::Digit, #[trigger] s[k]),
    ensures
        decimal(s, i, j) < pow10((j - i) as nat),
    decreases j - i,
{
    if i < j {
        lemma_decimal_bound(s, i, j - 1);
        assert(in_class(ByteClass::Digit, s[j - 1]));
    }
}

/// Up to nine digits stay below a thousand million.
pub proof fn lemma_pow10_nine(n: nat)
    requires
        n <= 9,
    ensures
        pow10(n) <= 1_000_000_000,
    decreases n,
{
    reveal_with_fuel(pow10, 11);
}

/// Reads the number written by at most nine digits.
pub fn read_decimal(input: &[u8], from: usize, to: usize) -> (n: u32)
    requires
        from <= to <= input@.len(),
        to - from <= 9,
        forall|k: int| from <= k < to ==> in_class(ByteClass::Digit, #[trigger] input@[k]),
    ensures
        n == decimal(input@, from as int, to as int),
{
    let mut acc: u64 = 0;
    let mut k: usize = from;
    while k < to
        invariant
            from <= k <= to <= input@.len(),
            to - from <= 9,
            forall|m: int| from <= m < to ==> in_class(ByteClass::Digit, #[trigger] input@[m]),
            acc == decimal(input@, from as int, k as int),
        decreases to - k,
    {
        proof {
            lemma_decimal_bound(input@, from as int, k as int);
            lemma_pow10_nine((k - from) as nat);
            assert(in_class(ByteClass::Digit, input@[k as int]));
        }
        acc = acc * 10 + (input[k] - ZERO) as u64;
        k += 1;
    }
    proof {
        lemma_decimal_bound(input@, from as int, to as int);
        lemma_pow10_nine((to - from) as nat);
    }
    acc as u32
}

/// A decimal number as a chart writes it: a sign, up to nine digits before
/// the dot and up to nine behind it. Its value is `whole` plus `fraction`
/// over ten to the power `fraction_digits`, negated where `negative` holds.
#[derive(Clone, Copy, Debug, PartialEq, Eq)]
pub struct Decimal {
    pub negative: bool,
    pub whole: u32,
    pub fraction: u32,
    pub fraction_digits: u8,
}

/// The number one.
pub open spec fn decimal_one() -> Decimal {
    Decimal { negative: false, whole: 1, fraction: 0, fraction_digits: 0 }
}

/// The number zero.
pub open spec fn decimal_zero() -> Decimal {
    Decimal { negative: false, whole: 0, fraction: 0, fraction_digits: 0 }
}

/// The number written at `i`: an optional minus, one to nine digits, and
/// optionally a dot with one to nine digits behind it. A dot must have its
/// digits.
pub open spec fn number_parse(s: Seq<u8>, i: int) -> Option<(int, Decimal)> {
    let negative = 0 <= i < s.len() && s[i] == MINUS;
    let a0 = if negative {
        i + 1
    } else {
        i
    };
    let a1 = run_end(s, a0, ByteClass::Digit);
    let b0 = a1 + 1;
    let b1 = run_end(s, b0, ByteClass::Digit);
    if !(1 <= a1 - a0 <= 9) {
        None
    } else if a1 < s.len() && s[a1] == DOT {
        if 1 <= b1 - b0 <= 9 {
            Some(
                (
                    b1,
                    Decimal {
                        negative,
                        whole: decimal(s, a0, a1) as u32,
                        fraction: decimal(s, b0, b1) as u32,
                        fraction_digits: (b1 - b0) as u8,
                    },
                ),
            )
        } else {
            None
        }
    } else {
        Some(
            (a1, Decimal { negative, whole: decimal(s, a0, a1) as u32, fraction: 0, fraction_digits: 0 }),
        )
    }
}

pub fn number_at(input: &[u8], pos: usize) -> (r: Option<(usize, Decimal)>)
    requires
        pos <= input@.len(),
    ensures
        match r {
            Some((e, d)) => number_parse(input@, pos as int) == Some((e as int, d)) && pos < e
                <= input@.len(),
            None => number_parse(input@, pos as int) is None,
        },
{
    let total = input.len();
    let negative = pos < total && input[pos] == MINUS;
    let a0 = if negative {
        pos + 1
    } else {
        pos
    };
    let a1 = scan_run(input, a0, ByteClass::Digit);
    if a1 == a0 || a1 - a0 > 9 {
        return None;
    }
    proof {
        lemma_run_end(input@, a0 as int, ByteClass::Digit);
    }
    let whole = read_decimal(input, a0, a1);
    if a1 < total && input[a1] == DOT {
        let b0 = a1 + 1;
        let b1 = scan_run(input, b0, ByteClass::Digit);
        if b1 == b0 || b1 - b0 > 9 {
            return None;
        }
        proof {
            lemma_run_end(input@, b0 as int, ByteClass::Digit);
        }
        let fraction = read_decimal(input, b0, b1);
        Some((b1, Decimal { negative, whole, fraction, fraction_digits: (b1 - b0) as u8 }))
    } else {
        Some((a1, Decimal { negative, whole, fraction: 0, fraction_digits: 0 }))
    }
}

/// The number that `v` writes from its first byte to its last.
pub open spec fn number_of(v: Seq<u8>) -> Option<Decimal> {
    match number_parse(v, 0) {
        Some((e, d)) => if e == v.len() {
            Some(d)
        } else {
            None
        },
        None => None,
    }
}

pub fn read_number(v: &[u8]) -> (r: Option<Decimal>)
    ensures
        r == number_of(v@),
{
    match number_at(v, 0) {
        Some((e, d)) => if e == v.len() {
            Some(d)
        } else {
            None
        },
        None => None,
    }
}

pub fn bytes_equal(a: &[u8], b: &[u8]) -> (r: bool)
    ensures
        r == (a@ == b@),
{
    if a.len() != b.len() {
        return false;
    }
    let mut k: usize = 0;
    while k < a.len()
        invariant
            a@.len() == b@.len(),
            k <= a@.len(),
            forall|j: int| 0 <= j < k ==> a@[j] == b@[j],
        decreases a@.len() - k,
    {
        if a[k] != b[k] {
            return false;
        }
        k += 1;
    }
    assert(a@ =~= b@);
    true
}

/// An owned copy of the bytes of `input` from `from` up to `to`.
pub fn copy_range(input: &[u8], from: usize, to: usize) -> (v: Vec<u8>)
    requires
        from <= to <= input@.len(),
    ensures
        v@ == input@.subrange(from as int, to as int),
{
    let mut v: Vec<u8> = Vec::new();
    let mut k: usize = from;
    while k < to
        invariant
            from <= k <= to <= input@.len(),
            v@ == input@.subrange(from as int, k as int),
        decreases to - k,
    {
        v.push(input[k]);
        assert(v@ =~= input@.subrange(from as int, k + 1));
        k += 1;
    }
    v
}

} // verus!
