//! Character-level building blocks: case folding, white space, and decimal
//! numbers, each with a mathematical definition over `Seq<char>`.

use vstd::prelude::*;

verus! {

/// The characters of each text.
pub open spec fn text_views(texts: Seq<String>) -> Seq<Seq<char>> {
    Seq::new(texts.len(), |i: int| texts[i]@)
}

/// The characters of a text that may be absent.
pub open spec fn option_text_view(text: Option<String>) -> Option<Seq<char>> {
    match text {
        Some(t) => Some(t@),
        None => None,
    }
}

/// The characters of each text, where there is one.
pub open spec fn option_text_views(texts: Seq<Option<String>>) -> Seq<Option<Seq<char>>> {
    Seq::new(texts.len(), |i: int| option_text_view(texts[i]))
}

/// Code point of `c` once an ASCII upper-case letter is replaced by its
/// lower-case form. Every other character keeps its own code point.
pub open spec fn lower_code(c: char) -> u32 {
    if 'A' <= c && c <= 'Z' {
        (c as u32 + 32) as u32
    } else {
        c as u32
    }
}

/// Code point that `c` folds to when letters are compared without regard to
/// case under Unicode simple case folding, restricted to what can fold to an
/// ASCII letter: besides the ASCII upper-case letters these are the long s
/// (U+017F, folds to `s`) and the Kelvin sign (U+212A, folds to `k`).
pub open spec fn fold_code(c: char) -> u32 {
    if c == '\u{17f}' {
        115
    } else if c == '\u{212a}' {
        107
    } else {
        lower_code(c)
    }
}

/// Two texts are equal up to the case of their ASCII letters.
pub open spec fn same_ignoring_ascii_case(a: Seq<char>, b: Seq<char>) -> bool {
    &&& a.len() == b.len()
    &&& forall|i: int| 0 <= i < a.len() ==> lower_code(#[trigger] a[i]) == lower_code(b[i])
}

/// `s` spells the keyword `kw` (written in lower case) when case is ignored.
pub open spec fn spells_keyword(s: Seq<char>, kw: Seq<char>) -> bool {
    &&& s.len() == kw.len()
    &&& forall|i: int| 0 <= i < kw.len() ==> fold_code(#[trigger] s[i]) == kw[i] as u32
}

/// `s` begins with a spelling of the keyword `kw`.
pub open spec fn starts_with_keyword(s: Seq<char>, kw: Seq<char>) -> bool {
    kw.len() <= s.len() && spells_keyword(s.take(kw.len() as int), kw)
}

/// White space as Unicode defines it (the `White_Space` property).
pub open spec fn is_space(c: char) -> bool {
    let u = c as u32;
    ||| 0x09 <= u <= 0x0D
    ||| u == 0x20
    ||| u == 0x85
    ||| u == 0xA0
    ||| u == 0x1680
    ||| 0x2000 <= u <= 0x200A
    ||| u == 0x2028
    ||| u == 0x2029
    ||| u == 0x202F
    ||| u == 0x205F
    ||| u == 0x3000
}

/// An ASCII digit.
pub open spec fn is_digit(c: char) -> bool {
    '0' <= c && c <= '9'
}

/// Every character of `s` is an ASCII digit.
pub open spec fn all_digits(s: Seq<char>) -> bool {
    forall|i: int| 0 <= i < s.len() ==> is_digit(#[trigger] s[i])
}

/// The number that a digit denotes.
pub open spec fn digit_value(c: char) -> nat {
    (c as u32 - 48) as nat
}

/// The digit that denotes `d`, for `d` below ten.
pub open spec fn digit_char(d: nat) -> char {
    (d + 48) as char
}

/// The number that a run of decimal digits denotes, most significant first.
pub open spec fn decimal_value(s: Seq<char>) -> nat
    decreases s.len(),
{
    if s.len() == 0 {
        0
    } else {
        decimal_value(s.drop_last()) * 10 + digit_value(s.last())
    }
}

/// The shortest decimal numeral of `n`: no leading zero, and `0` for zero.
pub open spec fn decimal_digits(n: nat) -> Seq<char>
    decreases n,
{
    if n < 10 {
        seq![digit_char(n)]
    } else {
        decimal_digits(n / 10).push(digit_char(n % 10))
    }
}

/// A numeral of a positive number: digits only, the first of them not zero.
pub open spec fn is_positive_decimal(s: Seq<char>) -> bool {
    s.len() > 0 && all_digits(s) && s[0] != '0'
}

/// The number that a positive numeral denotes, if it fits in 32 bits.
pub open spec fn positive_number(s: Seq<char>) -> Option<u32> {
    if is_positive_decimal(s) && decimal_value(s) <= u32::MAX {
        Some(decimal_value(s) as u32)
    } else {
        None
    }
}

/// The number that `s` denotes when read as an unsigned integer: an optional
/// `+`, then at least one digit, leading zeros allowed, the value within 32 bits.
pub open spec fn unsigned_number(s: Seq<char>) -> Option<u32> {
    let digits = if s.len() > 0 && s[0] == '+' {
        s.drop_first()
    } else {
        s
    };
    if digits.len() > 0 && all_digits(digits) && decimal_value(digits) <= u32::MAX {
        Some(decimal_value(digits) as u32)
    } else {
        None
    }
}

/// Number of white-space characters at the start of `s`.
pub open spec fn leading_spaces(s: Seq<char>) -> nat
    decreases s.len(),
{
    if s.len() > 0 && is_space(s[0]) {
        1 + leading_spaces(s.drop_first())
    } else {
        0
    }
}

/// Number of white-space characters at the end of `s`.
pub open spec fn trailing_spaces(s: Seq<char>) -> nat
    decreases s.len(),
{
    if s.len() > 0 && is_space(s.last()) {
        1 + trailing_spaces(s.drop_last())
    } else {
        0
    }
}

/// `s` without the white space at its start and at its end.
pub open spec fn trimmed(s: Seq<char>) -> Seq<char> {
    let rest = s.skip(leading_spaces(s) as int);
    rest.take(rest.len() - trailing_spaces(rest))
}

/// `k` is the number of white-space characters at the start of `s` if the
/// first `k` characters are white space and the next, if there is one, is not.
pub proof fn lemma_leading_spaces(s: Seq<char>, k: int)
    requires
        0 <= k <= s.len(),
        forall|i: int| 0 <= i < k ==> is_space(#[trigger] s[i]),
        k == s.len() || !is_space(s[k]),
    ensures
        leading_spaces(s) == k,
    decreases k,
{
    if k > 0 {
        lemma_leading_spaces(s.drop_first(), k - 1);
    }
}

/// `k` is the number of white-space characters at the end of `s` if the last
/// `k` characters are white space and the one before, if there is one, is not.
pub proof fn lemma_trailing_spaces(s: Seq<char>, k: int)
    requires
        0 <= k <= s.len(),
        forall|i: int| s.len() - k <= i < s.len() ==> is_space(#[trigger] s[i]),
        k == s.len() || !is_space(s[s.len() - k - 1]),
    ensures
        trailing_spaces(s) == k,
    decreases k,
{
    if k > 0 {
        lemma_trailing_spaces(s.drop_last(), k - 1);
    }
}

/// A numeral is worth at least as much as any of its prefixes.
pub proof fn lemma_decimal_value_prefix(s: Seq<char>, k: int)
    requires
        0 <= k <= s.len(),
    ensures
        decimal_value(s.take(k)) <= decimal_value(s),
    decreases s.len(),
{
    if k == s.len() {
        assert(s.take(k) =~= s);
    } else {
        assert(s.drop_last().take(k) =~= s.take(k));
        lemma_decimal_value_prefix(s.drop_last(), k);
    }
}

/// The numeral of `n` consists of digits, starts with a zero only when `n` is
/// zero, and denotes `n`.
pub proof fn lemma_decimal_digits(n: nat)
    ensures
        decimal_digits(n).len() > 0,
        all_digits(decimal_digits(n)),
        n > 0 ==> decimal_digits(n)[0] != '0',
        decimal_value(decimal_digits(n)) == n,
    decreases n,
{
    let s = decimal_digits(n);
    if n < 10 {
        assert(s.drop_last() =~= Seq::<char>::empty());
        assert(decimal_value(s.drop_last()) == 0);
    } else {
        lemma_decimal_digits(n / 10);
        let p = decimal_digits(n / 10);
        assert(s.drop_last() =~= p);
        assert(s.last() == digit_char(n % 10));
        assert(s[0] == p[0]);
        assert forall|i: int| 0 <= i < s.len() implies is_digit(#[trigger] s[i]) by {
            if i < p.len() {
                assert(s[i] == p[i]);
            }
        }
    }
}

/// A positive numeral is the numeral of the number it denotes.
pub proof fn lemma_positive_decimal_is_canonical(s: Seq<char>)
    requires
        is_positive_decimal(s),
    ensures
        decimal_value(s) > 0,
        decimal_digits(decimal_value(s)) == s,
    decreases s.len(),
{
    let init = s.drop_last();
    if s.len() == 1 {
        assert(init =~= Seq::<char>::empty());
        assert(decimal_value(init) == 0);
        assert(decimal_digits(decimal_value(s)) =~= s);
    } else {
        assert(init[0] == s[0]);
        assert forall|i: int| 0 <= i < init.len() implies is_digit(#[trigger] init[i]) by {
            assert(init[i] == s[i]);
        }
        lemma_positive_decimal_is_canonical(init);
        let v = decimal_value(s);
        let d = digit_value(s.last());
        assert(is_digit(s[s.len() - 1]));
        assert(v == decimal_value(init) * 10 + d);
        assert(v / 10 == decimal_value(init) && v % 10 == d) by (nonlinear_arith)
            requires
                v == decimal_value(init) * 10 + d,
                d < 10,
        ;
        assert(decimal_digits(v) =~= s);
    }
}

/// Reading back the numeral of a positive 32-bit number gives that number.
pub proof fn lemma_positive_number_of_digits(n: u32)
    requires
        n >= 1,
    ensures
        positive_number(decimal_digits(n as nat)) == Some(n),
{
    lemma_decimal_digits(n as nat);
}

/// Whether `c` is an ASCII digit.
pub fn is_digit_char(c: char) -> (r: bool)
    ensures
        r == is_digit(c),
{
    c >= '0' && c <= '9'
}

/// Whether `c` is white space.
pub fn is_space_char(c: char) -> (r: bool)
    ensures
        r == is_space(c),
{
    let u: u32 = c as u32;
    (0x09 <= u && u <= 0x0D) || u == 0x20 || u == 0x85 || u == 0xA0 || u == 0x1680 || (0x2000 <= u
        && u <= 0x200A) || u == 0x2028 || u == 0x2029 || u == 0x202F || u == 0x205F || u == 0x3000
}

/// The code point of `c` with ASCII upper case folded to lower case.
pub fn lower_code_of(c: char) -> (r: u32)
    ensures
        r == lower_code(c),
{
    if c >= 'A' && c <= 'Z' {
        c as u32 + 32
    } else {
        c as u32
    }
}

/// The code point that `c` folds to when case is ignored.
pub fn fold_code_of(c: char) -> (r: u32)
    ensures
        r == fold_code(c),
{
    if c == '\u{17f}' {
        115
    } else if c == '\u{212a}' {
        107
    } else {
        lower_code_of(c)
    }
}

/// The characters of `s`, in order.
pub fn chars_of(s: &str) -> (v: Vec<char>)
    ensures
        v@ == s@,
{
    let mut v: Vec<char> = Vec::new();
    for c in it: s.chars()
        invariant
            v@ == it.seq().take(it.index() as int),
    {
        v.push(c);
    }
    v
}

/// Whether `s[from..to]` spells the keyword `kw`.
pub(crate) fn spells_keyword_in(s: &Vec<char>, from: usize, to: usize, kw: &Vec<char>) -> (r: bool)
    requires
        from <= to <= s.len(),
    ensures
        r == spells_keyword(s@.subrange(from as int, to as int), kw@),
{
    if to - from != kw.len() {
        return false;
    }
    let ghost part = s@.subrange(from as int, to as int);
    let mut i: usize = 0;
    while i < kw.len()
        invariant
            from <= to <= s.len(),
            to - from == kw.len(),
            i <= kw.len(),
            part == s@.subrange(from as int, to as int),
            forall|j: int| 0 <= j < i ==> fold_code(#[trigger] part[j]) == kw[j] as u32,
        decreases kw.len() - i,
    {
        if fold_code_of(s[from + i]) != kw[i] as u32 {
            assert(part[i as int] == s[from + i]);
            return false;
        }
        assert(part[i as int] == s[from + i]);
        i += 1;
    }
    true
}

/// Whether the two texts are equal up to the case of their ASCII letters.
pub fn eq_ignoring_ascii_case(a: &Vec<char>, b: &Vec<char>) -> (r: bool)
    ensures
        r == same_ignoring_ascii_case(a@, b@),
{
    if a.len() != b.len() {
        return false;
    }
    let mut i: usize = 0;
    while i < a.len()
        invariant
            a.len() == b.len(),
            i <= a.len(),
            forall|j: int| 0 <= j < i ==> lower_code(#[trigger] a[j]) == lower_code(b[j]),
        decreases a.len() - i,
    {
        if lower_code_of(a[i]) != lower_code_of(b[i]) {
            return false;
        }
        i += 1;
    }
    true
}

/// The value of the digits `s[from..to]`, unless a character there is no
/// digit or the value exceeds 32 bits.
pub(crate) fn digits_value_in(s: &Vec<char>, from: usize, to: usize) -> (r: Option<u32>)
    requires
        from <= to <= s.len(),
    ensures
        r == (if all_digits(s@.subrange(from as int, to as int)) && decimal_value(
            s@.subrange(from as int, to as int),
        ) <= u32::MAX {
            Some(decimal_value(s@.subrange(from as int, to as int)) as u32)
        } else {
            None
        }),
{
    let ghost part = s@.subrange(from as int, to as int);
    let mut acc: u32 = 0;
    let mut i: usize = from;
    proof {
        assert(part.take(0) =~= Seq::<char>::empty());
    }
    while i < to
        invariant
            from <= i <= to <= s.len(),
            part == s@.subrange(from as int, to as int),
            all_digits(part.take(i - from)),
            acc == decimal_value(part.take(i - from)),
        decreases to - i,
    {
        let c = s[i];
        let ghost next = part.take(i - from + 1);
        proof {
            assert(part[i - from] == c);
            assert(next.drop_last() =~= part.take(i - from));
            assert(next.last() == c);
        }
        if !is_digit_char(c) {
            return None;
        }
        let d: u32 = c as u32 - 48;
        if acc > (u32::MAX - d) / 10 {
            proof {
                lemma_decimal_value_prefix(part, i - from + 1);
            }
            return None;
        }
        acc = acc * 10 + d;
        proof {
            assert forall|j: int| 0 <= j < next.len() implies is_digit(#[trigger] next[j]) by {
                if j < i - from {
                    assert(next[j] == part.take(i - from)[j]);
                }
            }
        }
        i += 1;
    }
    proof {
        assert(part.take(to - from) =~= part);
    }
    Some(acc)
}

/// Reads `s[from..to]` as the numeral of a positive number.
pub(crate) fn positive_number_in(s: &Vec<char>, from: usize, to: usize) -> (r: Option<u32>)
    requires
        from <= to <= s.len(),
    ensures
        r == positive_number(s@.subrange(from as int, to as int)),
{
    if from == to || s[from] == '0' {
        assert(s@.subrange(from as int, to as int).len() > 0 ==> s@.subrange(
            from as int,
            to as int,
        )[0] == s[from as int]);
        return None;
    }
    assert(s@.subrange(from as int, to as int)[0] == s[from as int]);
    digits_value_in(s, from, to)
}

/// Reads `s[from..to]` as an unsigned integer with an optional `+` sign.
pub(crate) fn unsigned_number_in(s: &Vec<char>, from: usize, to: usize) -> (r: Option<u32>)
    requires
        from <= to <= s.len(),
    ensures
        r == unsigned_number(s@.subrange(from as int, to as int)),
{
    let ghost part = s@.subrange(from as int, to as int);
    let start = if from < to && s[from] == '+' {
        from + 1
    } else {
        from
    };
    proof {
        if from < to {
            assert(part[0] == s[from as int]);
        }
        if start == from {
            assert(s@.subrange(start as int, to as int) =~= part);
        } else {
            assert(s@.subrange(start as int, to as int) =~= part.drop_first());
        }
    }
    if start == to {
        return None;
    }
    digits_value_in(s, start, to)
}

/// The bounds of `s[from..to]` once the white space at both ends is left out.
pub(crate) fn trim_in(s: &Vec<char>, from: usize, to: usize) -> (r: (usize, usize))
    requires
        from <= to <= s.len(),
    ensures
        from <= r.0 <= r.1 <= to,
        s@.subrange(r.0 as int, r.1 as int) == trimmed(s@.subrange(from as int, to as int)),
{
    let ghost part = s@.subrange(from as int, to as int);
    let mut a: usize = from;
    while a < to && is_space_char(s[a])
        invariant
            from <= a <= to <= s.len(),
            part == s@.subrange(from as int, to as int),
            forall|i: int| 0 <= i < a - from ==> is_space(#[trigger] part[i]),
        decreases to - a,
    {
        a += 1;
    }
    proof {
        if a < to {
            assert(part[a - from] == s[a as int]);
        }
        lemma_leading_spaces(part, a - from);
    }
    let ghost rest = part.skip(a - from);
    let mut b: usize = to;
    while b > a && is_space_char(s[b - 1])
        invariant
            from <= a <= b <= to <= s.len(),
            part == s@.subrange(from as int, to as int),
            rest == part.skip(a - from),
            forall|i: int| b - a <= i < rest.len() ==> is_space(#[trigger] rest[i]),
        decreases b - a,
    {
        b -= 1;
    }
    proof {
        if b > a {
            assert(rest[b - a - 1] == s[b - 1]);
        }
        lemma_trailing_spaces(rest, to - b);
        assert(s@.subrange(a as int, b as int) =~= rest.take(rest.len() - (to - b)));
    }
    (a, b)
}

/// The one-character text of the digit `d`.
fn digit_text(d: u32) -> (r: &'static str)
    requires
        d < 10,
    ensures
        r@ == seq![digit_char(d as nat)],
{
    proof {
        reveal_strlit("0");
        reveal_strlit("1");
        reveal_strlit("2");
        reveal_strlit("3");
        reveal_strlit("4");
        reveal_strlit("5");
        reveal_strlit("6");
        reveal_strlit("7");
        reveal_strlit("8");
        reveal_strlit("9");
    }
    let r = if d == 0 {
        "0"
    } else if d == 1 {
        "1"
    } else if d == 2 {
        "2"
    } else if d == 3 {
        "3"
    } else if d == 4 {
        "4"
    } else if d == 5 {
        "5"
    } else if d == 6 {
        "6"
    } else if d == 7 {
        "7"
    } else if d == 8 {
        "8"
    } else {
        "9"
    };
    assert(r@ =~= seq![digit_char(d as nat)]);
    r
}

/// Appends the decimal numeral of `n` to `out`.
pub fn push_decimal(out: &mut String, n: u32)
    ensures
        final(out)@ == old(out)@ + decimal_digits(n as nat),
    decreases n,
{
    if n >= 10 {
        push_decimal(out, n / 10);
    }
    out.append(digit_text(n % 10));
    proof {
        if n >= 10 {
            assert(old(out)@ + decimal_digits(n as nat) =~= (old(out)@ + decimal_digits(
                (n / 10) as nat,
            )) + seq![digit_char((n % 10) as nat)]);
        } else {
            assert(n % 10 == n);
        }
    }
}

} // verus!
