//! Numeric literals: the closed set of widths and the rule that picks one.

use vstd::prelude::*;
use crate::text::{chars_of, decimal_len, decimal_width, utf8_len};
use crate::types::PrimitiveType;

verus! {

/// A numeric literal, tagged with the width it was read as.
///
/// The two floating-point variants carry the literal's text, which stands for
/// the value.
#[derive(Debug, PartialEq)]
pub enum Number {
    U8(u8),
    U16(u16),
    U32(u32),
    U64(u64),
    I8(i8),
    I16(i16),
    I32(i32),
    I64(i64),
    F32(String),
    F64(String),
}

/// Mathematical value of a [`Number`].
pub enum NumberView {
    U8(u8),
    U16(u16),
    U32(u32),
    U64(u64),
    I8(i8),
    I16(i16),
    I32(i32),
    I64(i64),
    F32(Seq<char>),
    F64(Seq<char>),
}

impl View for Number {
    type V = NumberView;

    open spec fn view(&self) -> NumberView {
        match self {
            Number::U8(v) => NumberView::U8(*v),
            Number::U16(v) => NumberView::U16(*v),
            Number::U32(v) => NumberView::U32(*v),
            Number::U64(v) => NumberView::U64(*v),
            Number::I8(v) => NumberView::I8(*v),
            Number::I16(v) => NumberView::I16(*v),
            Number::I32(v) => NumberView::I32(*v),
            Number::I64(v) => NumberView::I64(*v),
            Number::F32(s) => NumberView::F32(s@),
            Number::F64(s) => NumberView::F64(s@),
        }
    }
}

impl Clone for Number {
    fn clone(&self) -> (copy: Number)
        ensures
            copy@ == self@,
    {
        match self {
            Number::U8(v) => Number::U8(*v),
            Number::U16(v) => Number::U16(*v),
            Number::U32(v) => Number::U32(*v),
            Number::U64(v) => Number::U64(*v),
            Number::I8(v) => Number::I8(*v),
            Number::I16(v) => Number::I16(*v),
            Number::I32(v) => Number::I32(*v),
            Number::I64(v) => Number::I64(*v),
            Number::F32(s) => Number::F32(s.clone()),
            Number::F64(s) => Number::F64(s.clone()),
        }
    }
}

/// A decimal digit.
pub open spec fn is_digit(c: char) -> bool {
    '0' <= c && c <= '9'
}

/// The number that a decimal digit writes.
pub open spec fn digit_value(c: char) -> nat {
    (c as u32 - '0' as u32) as nat
}

/// Whether the text holds decimal digits only.
pub open spec fn all_digits(s: Seq<char>) -> bool {
    forall|i: int| 0 <= i < s.len() ==> is_digit(#[trigger] s[i])
}

/// The number that a string of decimal digits writes.
pub open spec fn decimal_value(s: Seq<char>) -> nat
    decreases s.len(),
{
    if s.len() == 0 {
        0
    } else {
        decimal_value(s.drop_last()) * 10 + digit_value(s.last())
    }
}

/// Whether the text begins with a plus or a minus sign.
pub open spec fn has_sign(s: Seq<char>) -> bool {
    s.len() > 0 && (s[0] == '+' || s[0] == '-')
}

/// The text that follows an optional leading sign.
pub open spec fn unsigned_part(s: Seq<char>) -> Seq<char> {
    if has_sign(s) {
        s.skip(1)
    } else {
        s
    }
}

/// The value of an integer literal: an optional sign, then one or more
/// decimal digits and nothing else.
pub open spec fn integer_literal(s: Seq<char>) -> Option<int> {
    let d = unsigned_part(s);
    if d.len() > 0 && all_digits(d) {
        Some(
            if s[0] == '-' {
                -(decimal_value(d) as int)
            } else {
                decimal_value(d) as int
            },
        )
    } else {
        None
    }
}

/// The narrowest unsigned width that holds `v`.
pub open spec fn narrowest_unsigned(v: int) -> Option<NumberView> {
    if v < 0 {
        None
    } else if v <= u8::MAX {
        Some(NumberView::U8(v as u8))
    } else if v <= u16::MAX {
        Some(NumberView::U16(v as u16))
    } else if v <= u32::MAX {
        Some(NumberView::U32(v as u32))
    } else if v <= u64::MAX {
        Some(NumberView::U64(v as u64))
    } else {
        None
    }
}

/// The narrowest signed width that holds `v`.
pub open spec fn narrowest_signed(v: int) -> Option<NumberView> {
    if i8::MIN <= v <= i8::MAX {
        Some(NumberView::I8(v as i8))
    } else if i16::MIN <= v <= i16::MAX {
        Some(NumberView::I16(v as i16))
    } else if i32::MIN <= v <= i32::MAX {
        Some(NumberView::I32(v as i32))
    } else if i64::MIN <= v <= i64::MAX {
        Some(NumberView::I64(v as i64))
    } else {
        None
    }
}

/// The width chosen for a literal without a decimal point: the narrowest
/// unsigned one that fits, else the narrowest signed one. A literal written
/// with `-` is never unsigned.
pub open spec fn integer_number(s: Seq<char>) -> Option<NumberView> {
    match integer_literal(s) {
        None => None,
        Some(v) => if s[0] == '-' {
            narrowest_signed(v)
        } else {
            narrowest_unsigned(v)
        },
    }
}

/// The end of the run of decimal digits that starts at `from`.
pub open spec fn digit_run_end(t: Seq<char>, from: int) -> int
    decreases t.len() - from,
{
    if 0 <= from < t.len() && is_digit(t[from]) {
        digit_run_end(t, from + 1)
    } else {
        from
    }
}

/// The lower-case form of an ASCII letter; any other character itself.
pub open spec fn lower(c: char) -> char {
    if 'A' <= c && c <= 'Z' {
        ((c as u32) + 32) as char
    } else {
        c
    }
}

/// `inf`, `infinity` or `nan`, in any mix of cases.
pub open spec fn is_special_float(t: Seq<char>) -> bool {
    let l = t.map_values(|c: char| lower(c));
    l == seq!['i', 'n', 'f'] || l == seq!['n', 'a', 'n'] || l == seq![
        'i',
        'n',
        'f',
        'i',
        'n',
        'i',
        't',
        'y',
    ]
}

/// An exponent that starts at `b` and fills the rest of `t`: `e` or `E`, an
/// optional sign, one or more digits.
pub open spec fn is_exponent(t: Seq<char>, b: int) -> bool {
    &&& 0 <= b < t.len()
    &&& (t[b] == 'e' || t[b] == 'E')
    &&& {
        let j = if b + 1 < t.len() && (t[b + 1] == '+' || t[b + 1] == '-') {
            b + 2
        } else {
            b + 1
        };
        let k = digit_run_end(t, j);
        k > j && k == t.len()
    }
}

/// Digits with an optional point among them and an optional exponent; at
/// least one digit stands before the exponent.
pub open spec fn is_decimal_number(t: Seq<char>) -> bool {
    let a = digit_run_end(t, 0);
    let dot = a < t.len() && t[a] == '.';
    let b = if dot {
        digit_run_end(t, a + 1)
    } else {
        a
    };
    &&& (a > 0 || (dot && b > a + 1))
    &&& (b == t.len() || is_exponent(t, b))
}

/// Whether `s` is written as a floating-point literal: an optional sign, then
/// a special name or a decimal number.
pub open spec fn is_float_literal(s: Seq<char>) -> bool {
    let t = unsigned_part(s);
    is_special_float(t) || is_decimal_number(t)
}

/// The number a literal stands for, or `None` where it is not a literal of
/// the requested kind.
pub open spec fn parsed_number(s: Seq<char>, has_decimal: bool) -> Option<NumberView> {
    if has_decimal {
        if is_float_literal(s) {
            Some(NumberView::F32(s))
        } else {
            None
        }
    } else {
        integer_number(s)
    }
}

/// Characters that the value takes when written out.
pub open spec fn number_len(n: NumberView) -> nat {
    match n {
        NumberView::U8(v) => decimal_width(v as nat),
        NumberView::U16(v) => decimal_width(v as nat),
        NumberView::U32(v) => decimal_width(v as nat),
        NumberView::U64(v) => decimal_width(v as nat),
        NumberView::I8(v) => signed_width(v as int),
        NumberView::I16(v) => signed_width(v as int),
        NumberView::I32(v) => signed_width(v as int),
        NumberView::I64(v) => signed_width(v as int),
        NumberView::F32(s) => utf8_len(s),
        NumberView::F64(s) => utf8_len(s),
    }
}

/// Width of a signed value: its digits, and one more for a minus sign.
pub open spec fn signed_width(v: int) -> nat {
    if v < 0 {
        1 + decimal_width((-v) as nat)
    } else {
        decimal_width(v as nat)
    }
}

/// The primitive type a literal of this width defaults to.
pub open spec fn number_prim_type(n: NumberView) -> PrimitiveType {
    match n {
        NumberView::U8(_) => PrimitiveType::I16,
        NumberView::U16(_) => PrimitiveType::I32,
        NumberView::U32(_) => PrimitiveType::I64,
        NumberView::U64(_) => PrimitiveType::U64,
        NumberView::I8(_) => PrimitiveType::I32,
        NumberView::I16(_) => PrimitiveType::I32,
        NumberView::I32(_) => PrimitiveType::I32,
        NumberView::I64(_) => PrimitiveType::I64,
        NumberView::F32(_) => PrimitiveType::F32,
        NumberView::F64(_) => PrimitiveType::F64,
    }
}

proof fn lemma_decimal_value_push(s: Seq<char>, c: char)
    ensures
        decimal_value(s.push(c)) == decimal_value(s) * 10 + digit_value(c),
{
    assert(s.push(c).drop_last() =~= s);
}

fn digit_of(c: char) -> (r: Option<u64>)
    ensures
        r is Some <==> is_digit(c),
        r matches Some(d) ==> d == digit_value(c) && d < 10,
{
    if c >= '0' && c <= '9' {
        Some((c as u32 - 48) as u64)
    } else {
        None
    }
}

/// Reads `chars[start..]` as decimal digits.
///
/// `None` where a character is no digit; otherwise the value, or `None`
/// inside where it does not fit in 64 bits.
fn read_digits(chars: &Vec<char>, start: usize) -> (r: Option<Option<u64>>)
    requires
        start <= chars.len(),
    ensures
        r is Some <==> all_digits(chars@.skip(start as int)),
        r matches Some(Some(v)) ==> v == decimal_value(chars@.skip(start as int)),
        r matches Some(None) ==> decimal_value(chars@.skip(start as int)) > u64::MAX,
{
    let ghost d = chars@.skip(start as int);
    let mut i: usize = start;
    let mut acc: u64 = 0;
    let mut fits: bool = true;
    assert(d.take(0) =~= Seq::<char>::empty());
    while i < chars.len()
        invariant
            start <= i <= chars.len(),
            d == chars@.skip(start as int),
            all_digits(d.take(i - start)),
            fits ==> acc == decimal_value(d.take(i - start)),
            !fits ==> decimal_value(d.take(i - start)) > u64::MAX,
        decreases chars.len() - i,
    {
        let c = chars[i];
        assert(d[i - start] == c);
        proof {
            assert(d.take(i - start + 1) =~= d.take(i - start).push(c));
            lemma_decimal_value_push(d.take(i - start), c);
        }
        match digit_of(c) {
            None => {
                assert(!is_digit(d[i - start]));
                return None;
            },
            Some(v) => {
                if fits {
                    if acc > (u64::MAX - v) / 10 {
                        fits = false;
                    } else {
                        acc = acc * 10 + v;
                    }
                }
                assert forall|k: int| 0 <= k < i - start + 1 implies is_digit(
                    #[trigger] d.take(i - start + 1)[k],
                ) by {
                    if k < i - start {
                        assert(d.take(i - start)[k] == d.take(i - start + 1)[k]);
                    }
                }
            },
        }
        i = i + 1;
    }
    assert(d.take(i - start) =~= d);
    if fits {
        Some(Some(acc))
    } else {
        Some(None)
    }
}

fn parse_integer(chars: &Vec<char>) -> (r: Option<Number>)
    ensures
        r is Some <==> integer_number(chars@) is Some,
        r matches Some(n) ==> Some(n@) == integer_number(chars@),
{
    if chars.len() == 0 {
        return None;
    }
    let first = chars[0];
    let signed = first == '+' || first == '-';
    let start: usize = if signed {
        1
    } else {
        0
    };
    if start == chars.len() {
        return None;
    }
    assert(unsigned_part(chars@) == chars@.skip(start as int));
    match read_digits(chars, start) {
        None => None,
        Some(None) => None,
        Some(Some(v)) => {
            if first != '-' {
                if v <= 0xff {
                    Some(Number::U8(v as u8))
                } else if v <= 0xffff {
                    Some(Number::U16(v as u16))
                } else if v <= 0xffff_ffff {
                    Some(Number::U32(v as u32))
                } else {
                    Some(Number::U64(v))
                }
            } else {
                if v <= 0x80 {
                    Some(Number::I8((0 - (v as i64)) as i8))
                } else if v <= 0x8000 {
                    Some(Number::I16((0 - (v as i64)) as i16))
                } else if v <= 0x8000_0000 {
                    Some(Number::I32((0 - (v as i64)) as i32))
                } else if v <= 0x7fff_ffff_ffff_ffff {
                    Some(Number::I64(0 - (v as i64)))
                } else if v == 0x8000_0000_0000_0000 {
                    Some(Number::I64(i64::MIN))
                } else {
                    None
                }
            }
        },
    }
}

fn digit_run(chars: &Vec<char>, from: usize) -> (end: usize)
    requires
        from <= chars.len(),
    ensures
        end == digit_run_end(chars@, from as int),
        from <= end <= chars.len(),
    decreases chars.len() - from,
{
    if from < chars.len() && digit_of(chars[from]).is_some() {
        digit_run(chars, from + 1)
    } else {
        from
    }
}

fn lower_char(c: char) -> (l: char)
    ensures
        l == lower(c),
{
    if c >= 'A' && c <= 'Z' {
        ((c as u8) + 32) as char
    } else {
        c
    }
}

fn is_special(chars: &Vec<char>, start: usize) -> (b: bool)
    requires
        start <= chars.len(),
    ensures
        b == is_special_float(chars@.skip(start as int)),
{
    let ghost t = chars@.skip(start as int);
    let ghost l = t.map_values(|c: char| lower(c));
    let ghost inf = seq!['i', 'n', 'f'];
    let ghost nan = seq!['n', 'a', 'n'];
    let ghost infinity = seq!['i', 'n', 'f', 'i', 'n', 'i', 't', 'y'];
    assert(inf.len() == 3 && nan.len() == 3 && infinity.len() == 8);
    assert(inf[0] == 'i' && inf[1] == 'n' && inf[2] == 'f');
    assert(nan[0] == 'n' && nan[1] == 'a' && nan[2] == 'n');
    assert(infinity[0] == 'i' && infinity[1] == 'n' && infinity[2] == 'f' && infinity[3] == 'i'
        && infinity[4] == 'n' && infinity[5] == 'i' && infinity[6] == 't' && infinity[7] == 'y');
    let n = chars.len() - start;
    assert(l.len() == n);
    if n == 3 {
        let a = lower_char(chars[start]);
        let b = lower_char(chars[start + 1]);
        let c = lower_char(chars[start + 2]);
        assert(l[0] == a && l[1] == b && l[2] == c);
        let r = (a == 'i' && b == 'n' && c == 'f') || (a == 'n' && b == 'a' && c == 'n');
        proof {
            if r {
                assert(l =~= seq!['i', 'n', 'f'] || l =~= seq!['n', 'a', 'n']);
            }
        }
        r
    } else if n == 8 {
        let c0 = lower_char(chars[start]);
        let c1 = lower_char(chars[start + 1]);
        let c2 = lower_char(chars[start + 2]);
        let c3 = lower_char(chars[start + 3]);
        let c4 = lower_char(chars[start + 4]);
        let c5 = lower_char(chars[start + 5]);
        let c6 = lower_char(chars[start + 6]);
        let c7 = lower_char(chars[start + 7]);
        assert(l[0] == c0 && l[1] == c1 && l[2] == c2 && l[3] == c3 && l[4] == c4 && l[5] == c5
            && l[6] == c6 && l[7] == c7);
        let r = c0 == 'i' && c1 == 'n' && c2 == 'f' && c3 == 'i' && c4 == 'n' && c5 == 'i' && c6
            == 't' && c7 == 'y';
        proof {
            if r {
                assert(l =~= seq!['i', 'n', 'f', 'i', 'n', 'i', 't', 'y']);
            }
        }
        r
    } else {
        assert(l.len() == n);
        false
    }
}

fn is_float(chars: &Vec<char>) -> (b: bool)
    ensures
        b == is_float_literal(chars@),
{
    let start: usize = if chars.len() > 0 && (chars[0] == '+' || chars[0] == '-') {
        1
    } else {
        0
    };
    let ghost t = chars@.skip(start as int);
    assert(t == unsigned_part(chars@));
    if is_special(chars, start) {
        return true;
    }
    let mut body: Vec<char> = Vec::new();
    let mut k: usize = start;
    while k < chars.len()
        invariant
            start <= k <= chars.len(),
            body@ == chars@.subrange(start as int, k as int),
        decreases chars.len() - k,
    {
        body.push(chars[k]);
        assert(chars@.subrange(start as int, k + 1) =~= chars@.subrange(start as int, k as int).push(
            chars@[k as int],
        ));
        k = k + 1;
    }
    assert(body@ =~= t);
    let n = body.len();
    let a = digit_run(&body, 0);
    let dot = a < n && body[a] == '.';
    let b = if dot {
        digit_run(&body, a + 1)
    } else {
        a
    };
    if !(a > 0 || (dot && b > a + 1)) {
        return false;
    }
    if b == n {
        return true;
    }
    if !(body[b] == 'e' || body[b] == 'E') {
        return false;
    }
    let j: usize = if b + 1 < n && (body[b + 1] == '+' || body[b + 1] == '-') {
        b + 2
    } else {
        b + 1
    };
    let e = digit_run(&body, j);
    e > j && e == n
}

/// What `parse_number` answers to a text that is no literal of the kind
/// asked for.
pub const NOT_A_NUMBER: &'static str = "Failed to parse the string into a valid number type.";

/// Looks for a period in a text.
fn has_point(s: &str) -> (found: bool)
    ensures
        found == s@.contains('.'),
{
    let chars = chars_of(s);
    let mut i: usize = 0;
    while i < chars.len()
        invariant
            i <= chars.len(),
            chars@ == s@,
            forall|j: int| 0 <= j < i ==> chars@[j] != '.',
        decreases chars.len() - i,
    {
        if chars[i] == '.' {
            return true;
        }
        i = i + 1;
    }
    false
}

impl std::str::FromStr for Number {
    type Err = &'static str;

    /// Reads a numeric literal; it is a float where it holds a period.
    fn from_str(s: &str) -> (r: Result<Number, &'static str>)
        ensures
            r is Ok <==> parsed_number(s@, s@.contains('.')) is Some,
            r matches Ok(n) ==> Some(n@) == parsed_number(s@, s@.contains('.')),
    {
        let has_decimal = has_point(s);
        Number::parse_number(s, has_decimal)
    }
}

impl Number {
    /// Reads a numeric literal.
    ///
    /// With `has_decimal` the text must be a floating-point literal and is
    /// kept as `F32`. Without it the text must be an integer literal that
    /// fits one of the eight integer widths; the narrowest unsigned width is
    /// preferred, then the narrowest signed one.
    pub fn parse_number(s: &str, has_decimal: bool) -> (r: Result<Number, &'static str>)
        ensures
            r is Ok <==> parsed_number(s@, has_decimal) is Some,
            r matches Ok(n) ==> Some(n@) == parsed_number(s@, has_decimal),
            r matches Err(message) ==> message@ == NOT_A_NUMBER@,
    {
        let chars = chars_of(s);
        if has_decimal {
            if is_float(&chars) {
                Ok(Number::F32(s.to_owned()))
            } else {
                Err(NOT_A_NUMBER)
            }
        } else {
            match parse_integer(&chars) {
                Some(n) => Ok(n),
                None => Err(NOT_A_NUMBER),
            }
        }
    }

    /// Number of characters of the literal when written out: the decimal
    /// digits of an integer and its minus sign, the text of a float.
    pub fn len(&self) -> (l: usize)
        ensures
            l == number_len(self@),
    {
        match self {
            Number::U8(v) => decimal_len(*v as u64),
            Number::U16(v) => decimal_len(*v as u64),
            Number::U32(v) => decimal_len(*v as u64),
            Number::U64(v) => decimal_len(*v),
            Number::I8(v) => signed_len(*v as i64),
            Number::I16(v) => signed_len(*v as i64),
            Number::I32(v) => signed_len(*v as i64),
            Number::I64(v) => signed_len(*v),
            Number::F32(s) => s.as_str().as_bytes().len(),
            Number::F64(s) => s.as_str().as_bytes().len(),
        }
    }

    /// The primitive type an untyped literal defaults to: one step wider
    /// than a narrow integer was read as, signed where it fits, and the
    /// float's own width.
    pub fn prim_type(&self) -> (t: PrimitiveType)
        ensures
            t == number_prim_type(self@),
    {
        match self {
            Number::U8(_) => PrimitiveType::I16,
            Number::U16(_) => PrimitiveType::I32,
            Number::U32(_) => PrimitiveType::I64,
            Number::U64(_) => PrimitiveType::U64,
            Number::I8(_) => PrimitiveType::I32,
            Number::I16(_) => PrimitiveType::I32,
            Number::I32(_) => PrimitiveType::I32,
            Number::I64(_) => PrimitiveType::I64,
            Number::F32(_) => PrimitiveType::F32,
            Number::F64(_) => PrimitiveType::F64,
        }
    }
}

fn signed_len(v: i64) -> (l: usize)
    ensures
        l == signed_width(v as int),
        1 <= l <= 21,
{
    if v >= 0 {
        decimal_len(v as u64)
    } else if v == i64::MIN {
        1 + decimal_len(0x8000_0000_0000_0000u64)
    } else {
        1 + decimal_len((0 - v) as u64)
    }
}

} // verus!
