//! Plain-text helpers shared by the lexer, the number parser and the
//! diagnostics: conversions between strings and character vectors, line
//! splitting as `str::lines` does it, and decimal rendering.

use vstd::prelude::*;

verus! {

/// Number of bytes the UTF-8 encoding of `s` occupies.
pub open spec fn utf8_len(s: Seq<char>) -> nat {
    vstd::utf8::encode_utf8(s).len()
}

/// Drops one trailing carriage return, if there is one.
pub open spec fn strip_cr(line: Seq<char>) -> Seq<char> {
    if line.len() > 0 && line.last() == '\r' {
        line.drop_last()
    } else {
        line
    }
}

/// The lines of `text` from position `i` on, where `cur` holds the characters
/// of the line that is being read.
///
/// A line ends at `\n`; a `\r` directly before that `\n` belongs to the line
/// ending. The text after the last `\n` is a line of its own unless it is
/// empty, and keeps a trailing `\r`.
pub open spec fn lines_from(text: Seq<char>, i: int, cur: Seq<char>) -> Seq<Seq<char>>
    decreases text.len() - i,
{
    if i < 0 || i >= text.len() {
        if cur.len() > 0 {
            seq![cur]
        } else {
            seq![]
        }
    } else if text[i] == '\n' {
        seq![strip_cr(cur)] + lines_from(text, i + 1, seq![])
    } else {
        lines_from(text, i + 1, cur.push(text[i]))
    }
}

/// The lines of a text, without their line endings.
pub open spec fn lines_of(text: Seq<char>) -> Seq<Seq<char>> {
    lines_from(text, 0, seq![])
}

/// The characters of each string of `v`.
pub open spec fn texts_of(v: Seq<String>) -> Seq<Seq<char>> {
    Seq::new(v.len(), |i: int| v[i]@)
}

/// The characters of a text.
pub fn chars_of(s: &str) -> (v: Vec<char>)
    ensures
        v@ == s@,
{
    let mut v: Vec<char> = Vec::new();
    for c in it: s.chars()
        invariant
            it.seq() == s@,
            v@ == s@.take(it.index() as int),
    {
        v.push(c);
        assert(v@ =~= s@.take(it.index() + 1));
    }
    assert(v@ =~= s@);
    v
}

/// Collects characters into a `String` (`String::from_iter`).
///
/// Trusted: the string holds exactly the characters of `v`, in order.
#[verifier::external_body]
pub(crate) fn string_from_chars(v: &Vec<char>) -> (s: String)
    ensures
        s@ == v@,
{
    v.iter().collect()
}

/// The texts of a list that gained a member.
pub proof fn lemma_texts_of_push(v: Seq<String>, last: String)
    ensures
        texts_of(v.push(last)) == texts_of(v).push(last@),
{
    assert(texts_of(v.push(last)) =~= texts_of(v).push(last@));
}

/// Splits a text into its lines, without their line endings.
pub fn split_lines(source: &str) -> (lines: Vec<String>)
    ensures
        texts_of(lines@) == lines_of(source@),
{
    let chars = chars_of(source);
    let mut lines: Vec<String> = Vec::new();
    let mut cur: Vec<char> = Vec::new();
    let mut i: usize = 0;
    assert(texts_of(lines@) + lines_from(chars@, 0, cur@) =~= lines_of(source@));
    while i < chars.len()
        invariant
            i <= chars.len(),
            chars@ == source@,
            texts_of(lines@) + lines_from(chars@, i as int, cur@) == lines_of(source@),
        decreases chars.len() - i,
    {
        let c = chars[i];
        if c == '\n' {
            let ghost rest = lines_from(chars@, i + 1, seq![]);
            let ghost done = texts_of(lines@);
            let ghost whole = cur@;
            if cur.len() > 0 && cur[cur.len() - 1] == '\r' {
                cur.pop();
            }
            assert(cur@ == strip_cr(whole));
            let line = string_from_chars(&cur);
            proof {
                lemma_texts_of_push(lines@, line);
            }
            lines.push(line);
            cur = Vec::new();
            assert(texts_of(lines@) + rest =~= done + (seq![strip_cr(whole)] + rest));
        } else {
            cur.push(c);
        }
        i = i + 1;
    }
    if cur.len() > 0 {
        let ghost done = texts_of(lines@);
        let line = string_from_chars(&cur);
        proof {
            lemma_texts_of_push(lines@, line);
        }
        lines.push(line);
        assert(texts_of(lines@) =~= done + seq![cur@]);
    } else {
        assert(texts_of(lines@) + Seq::<Seq<char>>::empty() =~= texts_of(lines@));
    }
    lines
}

/// The character that writes the decimal digit `d`.
pub open spec fn digit_char(d: nat) -> char
    recommends
        d < 10,
{
    (('0' as u32) + d) as char
}

/// The decimal digits of `n`, most significant first, without leading zeros.
pub open spec fn decimal_digits(n: nat) -> Seq<char>
    decreases n,
{
    if n < 10 {
        seq![digit_char(n)]
    } else {
        decimal_digits(n / 10).push(digit_char(n % 10))
    }
}

/// How many decimal digits `n` has.
pub open spec fn decimal_width(n: nat) -> nat
    decreases n,
{
    if n < 10 {
        1
    } else {
        1 + decimal_width(n / 10)
    }
}

/// `decimal_digits(n)` has `decimal_width(n)` characters, at most 20 for a
/// 64-bit value.
pub proof fn lemma_decimal_width(n: nat)
    ensures
        decimal_digits(n).len() == decimal_width(n),
        decimal_width(n) >= 1,
    decreases n,
{
    if n >= 10 {
        lemma_decimal_width(n / 10);
    }
}

/// A 64-bit value has at most 20 decimal digits.
pub proof fn lemma_decimal_width_u64(n: nat)
    requires
        n <= u64::MAX,
    ensures
        decimal_width(n) <= 20,
{
    reveal_with_fuel(decimal_width, 21);
}

/// Counts the decimal digits of `n`.
pub fn decimal_len(n: u64) -> (w: usize)
    ensures
        w == decimal_width(n as nat),
        1 <= w <= 20,
{
    proof {
        lemma_decimal_width_u64(n as nat);
    }
    let mut w: usize = 1;
    let mut rest: u64 = n;
    while rest >= 10
        invariant
            1 <= w,
            w - 1 + decimal_width(rest as nat) == decimal_width(n as nat),
            decimal_width(n as nat) <= 20,
        decreases rest,
    {
        proof {
            lemma_decimal_width((rest / 10) as nat);
        }
        rest = rest / 10;
        w = w + 1;
    }
    w
}

/// Renders `n` in decimal.
pub fn decimal_chars(n: u64) -> (out: Vec<char>)
    ensures
        out@ == decimal_digits(n as nat),
    decreases n,
{
    let d: u8 = (n % 10) as u8;
    let c: char = (48u8 + d) as char;
    if n < 10 {
        let mut out: Vec<char> = Vec::new();
        out.push(c);
        assert(out@ =~= seq![digit_char(n as nat)]);
        out
    } else {
        let mut out = decimal_chars(n / 10);
        out.push(c);
        out
    }
}

} // verus!
