//! Text primitives the library relies on: characters, lines, trimming,
//! decimal formatting and content hashing.

use vstd::prelude::*;
use sha2::Digest;

verus! {

/// The characters with Unicode's White_Space property, which `char::is_whitespace`
/// and so `str::trim` go by.
pub open spec fn is_white_space(c: char) -> bool {
    ('\u{9}' <= c && c <= '\u{d}') || c == ' ' || c == '\u{85}' || c == '\u{a0}' || c == '\u{1680}'
        || ('\u{2000}' <= c && c <= '\u{200a}') || c == '\u{2028}' || c == '\u{2029}' || c
        == '\u{202f}' || c == '\u{205f}' || c == '\u{3000}'
}

pub open spec fn trim_start_of(s: Seq<char>) -> Seq<char>
    decreases s.len(),
{
    if s.len() > 0 && is_white_space(s[0]) {
        trim_start_of(s.drop_first())
    } else {
        s
    }
}

pub open spec fn trim_end_of(s: Seq<char>) -> Seq<char>
    decreases s.len(),
{
    if s.len() > 0 && is_white_space(s.last()) {
        trim_end_of(s.drop_last())
    } else {
        s
    }
}

/// `s` without its leading and trailing white space.
pub open spec fn trimmed_of(s: Seq<char>) -> Seq<char> {
    trim_end_of(trim_start_of(s))
}

/// The lines that `str::lines` yields for a string.
pub uninterp spec fn lines_of(s: Seq<char>) -> Seq<Seq<char>>;

/// The lowercase hexadecimal SHA-256 digest of a string's UTF-8 bytes.
pub uninterp spec fn sha256_hex(s: Seq<char>) -> Seq<char>;

pub open spec fn digit_char(d: nat) -> char {
    if d == 0 { '0' }
    else if d == 1 { '1' }
    else if d == 2 { '2' }
    else if d == 3 { '3' }
    else if d == 4 { '4' }
    else if d == 5 { '5' }
    else if d == 6 { '6' }
    else if d == 7 { '7' }
    else if d == 8 { '8' }
    else { '9' }
}

/// The decimal digits of a number, most significant first, without leading zeros.
pub open spec fn decimal_of(n: nat) -> Seq<char>
    decreases n,
{
    if n < 10 {
        seq![digit_char(n)]
    } else {
        decimal_of(n / 10).push(digit_char(n % 10))
    }
}

pub open spec fn strings_view(v: Seq<String>) -> Seq<Seq<char>> {
    v.map_values(|s: String| s@)
}

/// Relies on `str::chars`, collected into a vector: the characters in order.
#[verifier::external_body]
pub(crate) fn chars_of(s: &str) -> (r: Vec<char>)
    ensures
        r@ == s@,
{
    s.chars().collect()
}

/// Relies on collecting characters into a `String`: the same characters in order.
#[verifier::external_body]
pub(crate) fn collect_chars(c: &[char]) -> (r: String)
    ensures
        r@ == c@,
{
    c.iter().collect()
}

/// Relies on `str::trim`: leading and trailing characters with the
/// White_Space property removed.
#[verifier::external_body]
pub(crate) fn trim(s: &str) -> (r: String)
    ensures
        r@ == trimmed_of(s@),
{
    s.trim().to_string()
}

/// Relies on `str::lines`: the lines of the text, without their terminators.
#[verifier::external_body]
pub(crate) fn split_lines(s: &str) -> (r: Vec<String>)
    ensures
        strings_view(r@) == lines_of(s@),
{
    s.lines().map(|l| l.to_string()).collect()
}

fn digit(d: usize) -> (c: char)
    requires
        d < 10,
    ensures
        c == digit_char(d as nat),
{
    match d {
        0 => '0',
        1 => '1',
        2 => '2',
        3 => '3',
        4 => '4',
        5 => '5',
        6 => '6',
        7 => '7',
        8 => '8',
        _ => '9',
    }
}

/// A number written in decimal.
pub(crate) fn decimal(n: usize) -> (r: String)
    ensures
        r@ == decimal_of(n as nat),
{
    let mut m: usize = n;
    let mut v: Vec<char> = Vec::new();
    while m >= 10
        invariant
            decimal_of(n as nat) == decimal_of(m as nat) + v@,
        decreases m,
    {
        let c = digit(m % 10);
        let ghost before = v@;
        v.insert(0, c);
        proof {
            assert(v@ =~= seq![c] + before);
            assert(decimal_of(m as nat) == decimal_of((m / 10) as nat).push(c));
            assert(decimal_of((m / 10) as nat).push(c) + before =~= decimal_of((m / 10) as nat) + v@);
        }
        m = m / 10;
    }
    let c = digit(m);
    let ghost before = v@;
    v.insert(0, c);
    proof {
        assert(v@ =~= seq![c] + before);
        assert(decimal_of(m as nat) == seq![c]);
    }
    collect_chars(v.as_slice())
}

/// Relies on `sha2::Sha256::digest` over the UTF-8 bytes, written in lowercase hex.
#[verifier::external_body]
pub(crate) fn compute_hash(content: &str) -> (r: String)
    ensures
        r@ == sha256_hex(content@),
{
    format!("{:x}", sha2::Sha256::digest(content.as_bytes()))
}

} // verus!
