//! Text primitives shared by the classifier and the aggregator: Unicode
//! whitespace, trimming, substring search, lowercase, UTF-8 byte length.
use vstd::prelude::*;
use vstd::utf8::encode_utf8;

verus! {

/// The characters of the Unicode property `White_Space`.
pub open spec fn is_ws(c: char) -> bool {
    let u = c as u32;
    ||| 0x09 <= u <= 0x0D
    ||| u == 0x20
    ||| u == 0x85
    ||| u == 0xA0
    ||| u == 0x1680
    ||| 0x2000 <= u <= 0x200A
    ||| u == 0x2028
    ||| u == 0x2029
    ||| u == 0x202F
    ||| u == 0x205F
    ||| u == 0x3000
}

/// The text of an optional string.
pub open spec fn opt_view(o: Option<String>) -> Option<Seq<char>> {
    match o {
        Some(s) => Some(s@),
        None => None,
    }
}

/// `s` without its leading whitespace.
pub open spec fn trim_start(s: Seq<char>) -> Seq<char>
    decreases s.len(),
{
    if s.len() > 0 && is_ws(s[0]) {
        trim_start(s.drop_first())
    } else {
        s
    }
}

/// `s` without its trailing whitespace.
pub open spec fn trim_end(s: Seq<char>) -> Seq<char>
    decreases s.len(),
{
    if s.len() > 0 && is_ws(s.last()) {
        trim_end(s.drop_last())
    } else {
        s
    }
}

/// `s` without leading and trailing whitespace.
pub open spec fn trimmed(s: Seq<char>) -> Seq<char> {
    trim_end(trim_start(s))
}

/// `s` holds nothing but whitespace (or nothing at all).
pub open spec fn is_blank(s: Seq<char>) -> bool {
    trimmed(s).len() == 0
}

/// `p` occurs in `s` as a contiguous run of characters.
pub open spec fn has_substring(s: Seq<char>, p: Seq<char>) -> bool {
    exists|i: int| 0 <= i <= s.len() - p.len() && #[trigger] s.subrange(i, i + p.len()) == p
}

/// A text occurs in any text built around it.
pub proof fn lemma_substring_within(a: Seq<char>, p: Seq<char>, b: Seq<char>)
    ensures
        has_substring(a + p + b, p),
{
    let s = a + p + b;
    assert(s.subrange(a.len() as int, (a.len() + p.len()) as int) =~= p);
}

/// Number of bytes in the UTF-8 encoding of `s`.
pub open spec fn utf8_len(s: Seq<char>) -> nat {
    encode_utf8(s).len()
}

/// The lowercase mapping of `s`, as the standard library computes it.
pub uninterp spec fn lower_of(s: Seq<char>) -> Seq<char>;

/// Relies on `str::trim`: removes leading and trailing `White_Space` characters.
#[verifier::external_body]
pub(crate) fn trim(s: &str) -> (r: &str)
    ensures
        r@ == trimmed(s@),
{
    s.trim()
}

/// Relies on `str::contains` with a `&str` pattern: true when the pattern occurs in `s`.
#[verifier::external_body]
pub(crate) fn contains(s: &str, pattern: &str) -> (r: bool)
    ensures
        r == has_substring(s@, pattern@),
{
    s.contains(pattern)
}

/// Relies on `str::to_lowercase`: the result depends on the characters alone.
#[verifier::external_body]
pub(crate) fn to_lowercase(s: &str) -> (r: String)
    ensures
        r@ == lower_of(s@),
{
    s.to_lowercase()
}

/// Relies on `String::push`: appends one character.
#[verifier::external_body]
pub(crate) fn push_char(s: &mut String, c: char)
    ensures
        final(s)@ == old(s)@.push(c),
{
    s.push(c)
}

/// `encode_utf8` distributes over concatenation.
pub proof fn lemma_encode_utf8_concat(a: Seq<char>, b: Seq<char>)
    ensures
        encode_utf8(a + b) == encode_utf8(a) + encode_utf8(b),
    decreases a.len(),
{
    if a.len() == 0 {
        assert(a + b =~= b);
        assert(encode_utf8(a) =~= Seq::<u8>::empty());
        assert(encode_utf8(a) + encode_utf8(b) =~= encode_utf8(b));
    } else {
        assert((a + b).drop_first() =~= a.drop_first() + b);
        assert((a + b)[0] == a[0]);
        lemma_encode_utf8_concat(a.drop_first(), b);
        assert(encode_utf8(a + b) =~= encode_utf8(a) + encode_utf8(b));
    }
}

/// Byte length is additive over concatenation.
pub proof fn lemma_utf8_len_concat(a: Seq<char>, b: Seq<char>)
    ensures
        utf8_len(a + b) == utf8_len(a) + utf8_len(b),
{
    lemma_encode_utf8_concat(a, b);
}

/// Byte length of a single character.
pub open spec fn char_utf8_len(c: char) -> nat {
    let u = c as u32;
    if u <= 0x7F {
        1
    } else if u <= 0x7FF {
        2
    } else if u <= 0xFFFF {
        3
    } else {
        4
    }
}

/// Byte length of a sequence of one character.
pub proof fn lemma_utf8_len_single(c: char)
    ensures
        utf8_len(seq![c]) == char_utf8_len(c),
{
    broadcast use vstd::utf8::char_is_scalar;

    assert(seq![c].drop_first() =~= Seq::<char>::empty());
    assert(encode_utf8(Seq::<char>::empty()) =~= Seq::<u8>::empty());
}

/// Byte length after appending one character.
pub proof fn lemma_utf8_len_push(s: Seq<char>, c: char)
    ensures
        utf8_len(s.push(c)) == utf8_len(s) + char_utf8_len(c),
{
    assert(s.push(c) =~= s + seq![c]);
    lemma_utf8_len_concat(s, seq![c]);
    lemma_utf8_len_single(c);
}

/// Number of bytes that `c` takes in UTF-8.
pub fn char_len_utf8(c: char) -> (r: usize)
    ensures
        r == char_utf8_len(c),
{
    let u = c as u32;
    if u <= 0x7F {
        1
    } else if u <= 0x7FF {
        2
    } else if u <= 0xFFFF {
        3
    } else {
        4
    }
}

/// The character of a decimal digit.
pub open spec fn digit_char(d: nat) -> char {
    ((48 + d) as u8) as char
}

/// The decimal digits of `n`, most significant first, without leading zeros.
pub open spec fn decimal_digits(n: nat) -> Seq<char>
    decreases n,
{
    if n < 10 {
        seq![digit_char(n)]
    } else {
        decimal_digits(n / 10).push(digit_char(n % 10))
    }
}

/// `n` written in decimal, with a leading `-` when negative.
pub open spec fn decimal(n: int) -> Seq<char> {
    if n < 0 {
        seq!['-'] + decimal_digits((-n) as nat)
    } else {
        decimal_digits(n as nat)
    }
}

fn push_digits(s: &mut String, n: u32)
    ensures
        final(s)@ == old(s)@ + decimal_digits(n as nat),
    decreases n,
{
    let ghost start = s@;
    if n >= 10 {
        push_digits(s, n / 10);
    }
    let d: u8 = (n % 10) as u8;
    push_char(s, (48u8 + d) as char);
    proof {
        if n >= 10 {
            assert(start + decimal_digits((n / 10) as nat).push(digit_char((n % 10) as nat))
                =~= (start + decimal_digits((n / 10) as nat)).push(digit_char((n % 10) as nat)));
        } else {
            assert(start.push(digit_char(n as nat)) =~= start + seq![digit_char(n as nat)]);
        }
    }
}

/// Appends `n` in decimal to `s`.
pub fn push_decimal(s: &mut String, n: i32)
    ensures
        final(s)@ == old(s)@ + decimal(n as int),
{
    if n < 0 {
        let ghost start = s@;
        push_char(s, '-');
        let m: u32 = (-(n as i64)) as u32;
        push_digits(s, m);
        proof {
            assert(start.push('-') + decimal_digits(m as nat) =~= start + (seq!['-'] + decimal_digits(m as nat)));
        }
    } else {
        push_digits(s, n as u32);
    }
}

} // verus!
