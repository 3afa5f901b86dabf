//! Numbers as text: unsigned decimal integers and the grammar of decimal
//! floating-point literals.

use crate::text::{is_digit, push_str, same_text, to_upper, upper};
use vstd::prelude::*;

verus! {

/// The value of one decimal digit.
pub open spec fn digit_value(c: char) -> nat {
    (c as u32 - '0' as u32) as nat
}

/// The digit that stands for `d`.
pub open spec fn digit_char(d: nat) -> char {
    (('0' as u32) + d) as char
}

/// Whether `s` holds decimal digits only.
pub open spec fn all_digits(s: Seq<char>) -> bool {
    forall|i: int| 0 <= i < s.len() ==> is_digit(#[trigger] s[i])
}

/// The number that the digits of `s` write in base ten.
pub open spec fn decimal(s: Seq<char>) -> nat
    decreases s.len(),
{
    if s.len() == 0 {
        0
    } else {
        10 * decimal(s.drop_last()) + digit_value(s.last())
    }
}

/// `s` without a leading plus sign.
pub open spec fn without_plus(s: Seq<char>) -> Seq<char> {
    if s.len() > 0 && s[0] == '+' {
        s.drop_first()
    } else {
        s
    }
}

/// The unsigned integer that `s` writes, where it is one of at most `max`:
/// an optional plus sign and then one or more decimal digits.
pub open spec fn unsigned(s: Seq<char>, max: nat) -> Option<nat> {
    let digits = without_plus(s);
    if digits.len() > 0 && all_digits(digits) && decimal(digits) <= max {
        Some(decimal(digits))
    } else {
        None
    }
}

/// The decimal text of `n`, without sign or leading zeros.
pub open spec fn numeral(n: nat) -> Seq<char>
    decreases n,
{
    if n < 10 {
        seq![digit_char(n)]
    } else {
        numeral(n / 10).push(digit_char(n % 10))
    }
}

/// A longer run of digits writes no smaller number than its beginning.
pub proof fn lemma_decimal_grows(s: Seq<char>, k: int)
    requires
        0 <= k <= s.len(),
    ensures
        decimal(s.take(k)) <= decimal(s),
    decreases s.len() - k,
{
    if k == s.len() {
        assert(s.take(k) == s);
    } else {
        lemma_decimal_grows(s.drop_last(), k);
        assert(s.drop_last().take(k) == s.take(k));
    }
}

/// A numeral is a non-empty run of digits that writes its number.
pub proof fn lemma_numeral(n: nat)
    ensures
        numeral(n).len() > 0,
        all_digits(numeral(n)),
        decimal(numeral(n)) == n,
    decreases n,
{
    if n < 10 {
        assert(numeral(n).drop_last() == Seq::<char>::empty());
        assert(decimal(numeral(n).drop_last()) == 0);
    } else {
        lemma_numeral(n / 10);
        assert(numeral(n).drop_last() == numeral(n / 10));
    }
}

/// Reading a numeral gives its number back.
pub proof fn lemma_unsigned_of_numeral(n: nat, max: nat)
    requires
        n <= max,
    ensures
        unsigned(numeral(n), max) == Some(n),
{
    lemma_numeral(n);
    assert(is_digit(numeral(n)[0]));
}

/// Reads an unsigned decimal integer of at most `max`.
pub fn parse_unsigned(s: &[char], max: u64) -> (r: Option<u64>)
    ensures
        match r {
            Some(n) => unsigned(s@, max as nat) == Some(n as nat),
            None => unsigned(s@, max as nat).is_none(),
        },
{
    let start: usize = if s.len() > 0 && s[0] == '+' {
        1
    } else {
        0
    };
    let ghost digits = without_plus(s@);
    assert(digits == s@.skip(start as int));
    if start == s.len() {
        return None;
    }
    let mut value: u64 = 0;
    let mut i: usize = start;
    assert(digits.take(0) == Seq::<char>::empty());
    while i < s.len()
        invariant
            start <= i <= s.len(),
            digits == s@.skip(start as int),
            digits == without_plus(s@),
            all_digits(digits.take(i - start)),
            value == decimal(digits.take(i - start)),
            value <= max,
        decreases s.len() - i,
    {
        let c = s[i];
        let ghost k = i - start;
        assert(digits[k] == c);
        assert(digits.take(k + 1).drop_last() == digits.take(k));
        if !('0' <= c && c <= '9') {
            return None;
        }
        let d: u64 = (c as u32 - '0' as u32) as u64;
        if d > max || value > (max - d) / 10 {
            proof {
                if all_digits(digits) {
                    lemma_decimal_grows(digits, k + 1);
                }
            }
            return None;
        }
        value = value * 10 + d;
        i += 1;
    }
    assert(digits.take(i - start) == digits);
    Some(value)
}

/// Appends the decimal text of `n` to `out`.
pub fn push_numeral(out: &mut Vec<char>, n: u64)
    ensures
        final(out)@ == old(out)@ + numeral(n as nat),
    decreases n,
{
    if n >= 10 {
        push_numeral(out, n / 10);
    }
    let d: u8 = (n % 10) as u8;
    out.push((48u8 + d) as char);
    proof {
        if n >= 10 {
            assert(out@ == old(out)@ + numeral(n as nat / 10).push(digit_char(n as nat % 10)));
        } else {
            assert(out@ == old(out)@ + seq![digit_char(n as nat)]);
        }
    }
}

/// The length of the longest prefix of `s` that holds digits only.
pub open spec fn digits_len(s: Seq<char>) -> nat
    decreases s.len(),
{
    if s.len() == 0 || !is_digit(s[0]) {
        0
    } else {
        1 + digits_len(s.drop_first())
    }
}

/// `s` without a leading plus or minus sign.
pub open spec fn without_sign(s: Seq<char>) -> Seq<char> {
    if s.len() > 0 && (s[0] == '+' || s[0] == '-') {
        s.drop_first()
    } else {
        s
    }
}

/// Whether `s` is empty or a decimal exponent: the letter `e` in either
/// case, an optional sign, and one or more digits.
pub open spec fn is_exponent(s: Seq<char>) -> bool {
    s.len() == 0 || ((s[0] == 'e' || s[0] == 'E') && {
        let digits = without_sign(s.drop_first());
        digits.len() > 0 && all_digits(digits)
    })
}

/// Whether `s` is a decimal number without sign: digits with at most one
/// point among them, at least one digit in all, and an optional exponent.
pub open spec fn is_number(s: Seq<char>) -> bool {
    let whole = digits_len(s) as int;
    let rest = s.skip(whole);
    if rest.len() > 0 && rest[0] == '.' {
        let fraction = digits_len(rest.drop_first()) as int;
        whole + fraction > 0 && is_exponent(rest.skip(1 + fraction))
    } else {
        whole > 0 && is_exponent(rest)
    }
}

/// Whether `s` names infinity, in any mix of upper and lower case.
pub open spec fn is_infinity(s: Seq<char>) -> bool {
    upper(s) == "INF"@ || upper(s) == "INFINITY"@
}

/// Whether `s` names the value that is no number, in any mix of case.
pub open spec fn is_nan(s: Seq<char>) -> bool {
    upper(s) == "NAN"@
}

/// Whether `s` is a floating-point literal: an optional sign, then a
/// decimal number, infinity or the value that is no number.
pub open spec fn is_float(s: Seq<char>) -> bool {
    let body = without_sign(s);
    is_number(body) || is_infinity(body) || is_nan(body)
}

/// Whether `s` is a floating-point literal that carries no sign and is a
/// number: one that cannot be negative.
pub open spec fn is_nonnegative_float(s: Seq<char>) -> bool {
    is_number(s) || is_infinity(s)
}

/// The place after the digits that start at `from`.
fn skip_digits(s: &[char], from: usize) -> (to: usize)
    requires
        from <= s.len(),
    ensures
        from <= to <= s.len(),
        to - from == digits_len(s@.skip(from as int)),
        all_digits(s@.subrange(from as int, to as int)),
{
    let mut i: usize = from;
    while i < s.len() && '0' <= s[i] && s[i] <= '9'
        invariant
            from <= i <= s.len(),
            digits_len(s@.skip(from as int)) == (i - from) + digits_len(s@.skip(i as int)),
            all_digits(s@.subrange(from as int, i as int)),
        decreases s.len() - i,
    {
        assert(s@.skip(i as int).drop_first() == s@.skip(i + 1));
        assert forall|k: int| 0 <= k < i + 1 - from implies is_digit(
            #[trigger] s@.subrange(from as int, i + 1)[k],
        ) by {
            if k < i - from {
                assert(s@.subrange(from as int, i as int)[k] == s@[from + k]);
            }
        }
        i += 1;
    }
    i
}

/// Whether what stands in `s` from `from` on is empty or an exponent.
fn exponent_at(s: &[char], from: usize) -> (b: bool)
    requires
        from <= s.len(),
    ensures
        b == is_exponent(s@.skip(from as int)),
{
    let ghost rest = s@.skip(from as int);
    if from == s.len() {
        return true;
    }
    if !(s[from] == 'e' || s[from] == 'E') {
        return false;
    }
    let signed = from + 1 < s.len() && (s[from + 1] == '+' || s[from + 1] == '-');
    let start: usize = if signed {
        from + 2
    } else {
        from + 1
    };
    let ghost digits = without_sign(rest.drop_first());
    assert(rest.drop_first() == s@.skip(from + 1));
    assert(digits == s@.skip(start as int));
    let end = skip_digits(s, start);
    proof {
        if end == s.len() {
            assert(s@.subrange(start as int, end as int) == digits);
        } else {
            lemma_digits_len_stops(digits);
            assert(!is_digit(digits[end - start]));
        }
    }
    start < s.len() && end == s.len()
}

/// The character after the leading digits of a text is no digit.
pub proof fn lemma_digits_len_stops(s: Seq<char>)
    ensures
        digits_len(s) <= s.len(),
        digits_len(s) < s.len() ==> !is_digit(s[digits_len(s) as int]),
    decreases s.len(),
{
    if s.len() == 0 || !is_digit(s[0]) {
    } else {
        lemma_digits_len_stops(s.drop_first());
        if digits_len(s) < s.len() {
            assert(s[digits_len(s) as int] == s.drop_first()[digits_len(s.drop_first()) as int]);
        }
    }
}

/// Whether what stands in `s` from `from` on is a decimal number without
/// sign.
fn number_at(s: &[char], from: usize) -> (b: bool)
    requires
        from <= s.len(),
    ensures
        b == is_number(s@.skip(from as int)),
{
    let ghost body = s@.skip(from as int);
    let mid = skip_digits(s, from);
    let ghost rest = body.skip(mid - from);
    assert(rest == s@.skip(mid as int));
    if mid < s.len() && s[mid] == '.' {
        assert(rest.drop_first() == s@.skip(mid + 1));
        let end = skip_digits(s, mid + 1);
        assert(rest.skip(1 + (end - (mid + 1))) == s@.skip(end as int));
        let exponent = exponent_at(s, end);
        (mid - from) + (end - (mid + 1)) > 0 && exponent
    } else {
        let exponent = exponent_at(s, mid);
        mid > from && exponent
    }
}

/// Whether `s` is a floating-point literal.
pub fn is_float_text(s: &[char]) -> (b: bool)
    ensures
        b == is_float(s@),
{
    let start: usize = if s.len() > 0 && (s[0] == '+' || s[0] == '-') {
        1
    } else {
        0
    };
    assert(without_sign(s@) == s@.skip(start as int));
    if number_at(s, start) {
        return true;
    }
    let body = to_upper(vstd::slice::slice_subrange(s, start, s.len()));
    assert(s@.subrange(start as int, s.len() as int) == s@.skip(start as int));
    same_text(body.as_slice(), "INF") || same_text(body.as_slice(), "INFINITY") || same_text(
        body.as_slice(),
        "NAN",
    )
}

/// Whether `s` is a floating-point literal without sign that is a number.
pub fn is_nonnegative_float_text(s: &[char]) -> (b: bool)
    ensures
        b == is_nonnegative_float(s@),
{
    assert(s@.skip(0) == s@);
    if number_at(s, 0) {
        return true;
    }
    let body = to_upper(s);
    same_text(body.as_slice(), "INF") || same_text(body.as_slice(), "INFINITY")
}

/// A floating-point number, held as the literal that writes it.
///
/// The library moves such numbers between the wire and its callers and
/// never computes with them, so it keeps the text and vouches for its
/// grammar. `text` is meant to be a literal, which `is_valid` tests.
#[derive(Clone, Debug)]
pub struct Float {
    text: String,
}

impl View for Float {
    type V = Seq<char>;

    closed spec fn view(&self) -> Seq<char> {
        self.text@
    }
}

impl Float {
    /// Whether the text held is a floating-point literal.
    pub open spec fn wf(&self) -> bool {
        is_float(self@)
    }

    /// What a text decodes to: itself, where it is a literal.
    pub open spec fn decoded(s: Seq<char>) -> Option<Seq<char>> {
        if is_float(s) {
            Some(s)
        } else {
            None
        }
    }

    /// The number zero.
    pub fn zero() -> (r: Self)
        ensures
            r@ == seq!['0'],
            r.wf(),
    {
        let mut out: Vec<char> = Vec::new();
        out.push('0');
        assert(is_float(out@)) by {
            lemma_digit_is_float('0');
        }
        Float { text: crate::text::string_of(out.as_slice()) }
    }

    /// Reads a literal.
    pub fn from_chars(s: &[char]) -> (r: Option<Self>)
        ensures
            match r {
                Some(f) => Self::decoded(s@) == Some(f@) && f.wf(),
                None => Self::decoded(s@).is_none(),
            },
    {
        if is_float_text(s) {
            Some(Float { text: crate::text::string_of(s) })
        } else {
            None
        }
    }

    /// Reads a literal.
    pub fn from_str(s: &str) -> (r: Option<Self>)
        ensures
            match r {
                Some(f) => Self::decoded(s@) == Some(f@) && f.wf(),
                None => Self::decoded(s@).is_none(),
            },
    {
        let chars = crate::text::chars_of(s);
        Self::from_chars(chars.as_slice())
    }

    /// The literal.
    pub fn as_str(&self) -> (r: &str)
        ensures
            r@ == self@,
    {
        self.text.as_str()
    }

    /// The literal, as a string of its own.
    pub fn to_string(&self) -> (r: String)
        ensures
            r@ == self@,
    {
        self.text.clone()
    }

    /// Appends the literal to `out`.
    pub fn write(&self, out: &mut Vec<char>)
        ensures
            final(out)@ == old(out)@ + self@,
    {
        push_str(out, self.text.as_str());
    }

    /// Whether the text held is a floating-point literal.
    pub fn is_valid(&self) -> (b: bool)
        ensures
            b == self.wf(),
    {
        let chars = crate::text::chars_of(self.text.as_str());
        is_float_text(chars.as_slice())
    }

    /// Whether both hold the same literal.
    pub fn same(&self, other: &Float) -> (b: bool)
        ensures
            b == (self@ == other@),
    {
        self.text == other.text
    }
}

/// A single digit is a floating-point literal.
pub proof fn lemma_digit_is_float(c: char)
    requires
        is_digit(c),
    ensures
        is_float(seq![c]),
        is_nonnegative_float(seq![c]),
{
    let s = seq![c];
    assert(s.drop_first() == Seq::<char>::empty());
    assert(digits_len(s.drop_first()) == 0);
    assert(digits_len(s) == 1);
    assert(s.skip(1) == Seq::<char>::empty());
    assert(without_sign(s) == s);
}


/// Whether `c` can stand in a decimal number: a digit, the point, the
/// letter of the exponent, or a sign.
pub open spec fn is_number_char(c: char) -> bool {
    is_digit(c) || c == '.' || c == 'e' || c == 'E' || c == '+' || c == '-'
}

/// The leading digits of a text are digits, and lie within it.
pub proof fn lemma_digits_len_digits(s: Seq<char>)
    ensures
        digits_len(s) <= s.len(),
        forall|i: int| 0 <= i < digits_len(s) ==> is_digit(#[trigger] s[i]),
    decreases s.len(),
{
    if s.len() == 0 || !is_digit(s[0]) {
    } else {
        let t = s.drop_first();
        lemma_digits_len_digits(t);
        assert forall|i: int| 0 <= i < digits_len(s) implies is_digit(#[trigger] s[i]) by {
            if i > 0 {
                assert(s[i] == t[i - 1]);
            }
        }
    }
}

/// An exponent is made of characters that can stand in a number.
pub proof fn lemma_exponent_chars(s: Seq<char>)
    requires
        is_exponent(s),
    ensures
        forall|i: int| 0 <= i < s.len() ==> is_number_char(#[trigger] s[i]),
{
    if s.len() > 0 {
        let t = s.drop_first();
        let d = without_sign(t);
        assert forall|i: int| 0 <= i < s.len() implies is_number_char(#[trigger] s[i]) by {
            if i == 0 {
            } else if d == t {
                assert(s[i] == d[i - 1]);
            } else if i == 1 {
                assert(s[1] == t[0]);
            } else {
                assert(s[i] == d[i - 2]);
            }
        }
    }
}

/// A decimal number is not empty and made of characters that can stand in
/// a number.
pub proof fn lemma_number_chars(s: Seq<char>)
    requires
        is_number(s),
    ensures
        s.len() > 0,
        forall|i: int| 0 <= i < s.len() ==> is_number_char(#[trigger] s[i]),
{
    let a = digits_len(s) as int;
    lemma_digits_len_digits(s);
    let rest = s.skip(a);
    if rest.len() > 0 && rest[0] == '.' {
        let f = rest.drop_first();
        let b = digits_len(f) as int;
        lemma_digits_len_digits(f);
        let e = rest.skip(1 + b);
        lemma_exponent_chars(e);
        assert forall|i: int| 0 <= i < s.len() implies is_number_char(#[trigger] s[i]) by {
            if i < a {
            } else if i == a {
                assert(s[i] == rest[0]);
            } else if i < a + 1 + b {
                assert(s[i] == f[i - a - 1]);
            } else {
                assert(s[i] == e[i - a - 1 - b]);
            }
        }
    } else {
        lemma_exponent_chars(rest);
        assert forall|i: int| 0 <= i < s.len() implies is_number_char(#[trigger] s[i]) by {
            if i >= a {
                assert(s[i] == rest[i - a]);
            }
        }
    }
}

/// A floating-point literal is one word: it is not empty and holds no
/// whitespace.
pub proof fn lemma_float_is_word(s: Seq<char>)
    requires
        is_float(s),
    ensures
        crate::text::is_word(s, crate::text::Spacing::Ascii),
        crate::text::is_word(s, crate::text::Spacing::Unicode),
{
    let body = without_sign(s);
    reveal_strlit("INF");
    reveal_strlit("INFINITY");
    reveal_strlit("NAN");
    if is_number(body) {
        lemma_number_chars(body);
    } else {
        assert(upper(body).len() == body.len());
        assert forall|i: int| 0 <= i < body.len() implies 'A' <= crate::text::upper_char(
            #[trigger] body[i],
        ) <= 'Z' by {
            assert(upper(body)[i] == crate::text::upper_char(body[i]));
        }
    }
    assert forall|i: int| 0 <= i < s.len() implies !crate::text::is_unicode_space(
        #[trigger] s[i],
    ) && !crate::text::is_ascii_space(s[i]) by {
        if body == s {
            if is_number(body) {
                assert(is_number_char(body[i]));
            } else {
                assert('A' <= crate::text::upper_char(body[i]) <= 'Z');
            }
        } else if i > 0 {
            assert(s[i] == body[i - 1]);
            if is_number(body) {
                assert(is_number_char(body[i - 1]));
            } else {
                assert('A' <= crate::text::upper_char(body[i - 1]) <= 'Z');
            }
        }
    }
}


/// A floating-point literal holds none of the letters `o` and `w`.
pub proof fn lemma_float_lacks_letters(s: Seq<char>)
    requires
        is_float(s),
    ensures
        forall|i: int| 0 <= i < s.len() ==> #[trigger] s[i] != 'o' && s[i] != 'w',
{
    let body = without_sign(s);
    reveal_strlit("INF");
    reveal_strlit("INFINITY");
    reveal_strlit("NAN");
    if is_number(body) {
        lemma_number_chars(body);
    } else {
        assert(upper(body).len() == body.len());
        assert forall|i: int| 0 <= i < body.len() implies crate::text::upper_char(
            #[trigger] body[i],
        ) != 'O' && crate::text::upper_char(body[i]) != 'W' by {
            assert(upper(body)[i] == crate::text::upper_char(body[i]));
        }
    }
    assert forall|i: int| 0 <= i < s.len() implies #[trigger] s[i] != 'o' && s[i] != 'w' by {
        if body == s {
            if is_number(body) {
                assert(is_number_char(body[i]));
            } else {
                assert(crate::text::upper_char(body[i]) != 'O');
            }
        } else if i > 0 {
            assert(s[i] == body[i - 1]);
            if is_number(body) {
                assert(is_number_char(body[i - 1]));
            } else {
                assert(crate::text::upper_char(body[i - 1]) != 'O');
            }
        }
    }
}

} // verus!
