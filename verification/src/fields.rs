//! Byte-level rules for the identifiers, texts, hashes and versions that
//! controlled benchmark data carries. Every rule reads the UTF-8 bytes of the
//! text, so lengths are byte lengths.
use vstd::prelude::*;
use vstd::utf8::encode_utf8;
use vstd::string::{StrSliceExecFns, StringSliceAdditionalSpecFns};
use crate::model::{MAX_ID_BYTES, MAX_TEXT_BYTES};

verus! {

pub open spec fn is_ascii_alnum(b: u8) -> bool {
    (48 <= b <= 57) || (65 <= b <= 90) || (97 <= b <= 122)
}

/// Letters, digits, `.`, `_`, `:` and `-`.
pub open spec fn is_id_byte(b: u8) -> bool {
    is_ascii_alnum(b) || b == 46 || b == 95 || b == 58 || b == 45
}

pub open spec fn is_lower_hex_byte(b: u8) -> bool {
    (48 <= b <= 57) || (97 <= b <= 102)
}

pub open spec fn is_digit_byte(b: u8) -> bool {
    48 <= b <= 57
}

/// An identifier: 1 to `MAX_ID_BYTES` bytes of `[A-Za-z0-9._:-]`, starting
/// with a letter or digit.
pub open spec fn valid_id(s: Seq<char>) -> bool {
    let b = encode_utf8(s);
    &&& 0 < b.len() <= MAX_ID_BYTES
    &&& is_ascii_alnum(b[0])
    &&& forall|i: int| 0 <= i < b.len() ==> is_id_byte(#[trigger] b[i])
}

/// A free text of 1 to `MAX_TEXT_BYTES` bytes.
pub open spec fn valid_text(s: Seq<char>) -> bool {
    0 < encode_utf8(s).len() <= MAX_TEXT_BYTES
}

/// A SHA-256 digest: 64 lowercase hexadecimal digits.
pub open spec fn valid_hash(s: Seq<char>) -> bool {
    let b = encode_utf8(s);
    &&& b.len() == 64
    &&& forall|i: int| 0 <= i < b.len() ==> is_lower_hex_byte(#[trigger] b[i])
}

/// A version: `v` followed by at least one decimal digit.
pub open spec fn is_version(s: Seq<char>) -> bool {
    let b = encode_utf8(s);
    &&& b.len() > 1
    &&& b[0] == 118
    &&& forall|i: int| 1 <= i < b.len() ==> is_digit_byte(#[trigger] b[i])
}

fn ascii_alnum(b: u8) -> (r: bool)
    ensures
        r == is_ascii_alnum(b),
{
    (48 <= b && b <= 57) || (65 <= b && b <= 90) || (97 <= b && b <= 122)
}

fn id_byte(b: u8) -> (r: bool)
    ensures
        r == is_id_byte(b),
{
    ascii_alnum(b) || b == 46 || b == 95 || b == 58 || b == 45
}

pub fn check_id(id: &str) -> (r: bool)
    ensures
        r == valid_id(id@),
{
    let b = id.as_bytes();
    if b.len() > MAX_ID_BYTES || b.len() == 0 {
        return false;
    }
    if !ascii_alnum(b[0]) {
        return false;
    }
    let mut i: usize = 0;
    while i < b.len()
        invariant
            i <= b.len(),
            b@ == encode_utf8(id@),
            forall|j: int| 0 <= j < i ==> is_id_byte(#[trigger] b@[j]),
        decreases b.len() - i,
    {
        if !id_byte(b[i]) {
            return false;
        }
        i = i + 1;
    }
    true
}

pub fn check_text(text: &str) -> (r: bool)
    ensures
        r == valid_text(text@),
{
    let n = text.as_bytes().len();
    0 < n && n <= MAX_TEXT_BYTES
}

pub fn check_hash(hash: &str) -> (r: bool)
    ensures
        r == valid_hash(hash@),
{
    let b = hash.as_bytes();
    if b.len() != 64 {
        return false;
    }
    let mut i: usize = 0;
    while i < b.len()
        invariant
            i <= b.len(),
            b@ == encode_utf8(hash@),
            forall|j: int| 0 <= j < i ==> is_lower_hex_byte(#[trigger] b@[j]),
        decreases b.len() - i,
    {
        let c = b[i];
        if !((48 <= c && c <= 57) || (97 <= c && c <= 102)) {
            return false;
        }
        i = i + 1;
    }
    true
}

pub fn check_version(version: &str) -> (r: bool)
    ensures
        r == is_version(version@),
{
    let b = version.as_bytes();
    if b.len() <= 1 || b[0] != 118 {
        return false;
    }
    let mut i: usize = 1;
    while i < b.len()
        invariant
            1 <= i <= b.len(),
            b@ == encode_utf8(version@),
            forall|j: int| 1 <= j < i ==> is_digit_byte(#[trigger] b@[j]),
        decreases b.len() - i,
    {
        let c = b[i];
        if !(48 <= c && c <= 57) {
            return false;
        }
        i = i + 1;
    }
    true
}

/// Unicode `White_Space`, the whitespace that `str::trim` removes.
pub open spec fn is_white_space(c: char) -> bool {
    let n = c as int;
    ||| 9 <= n <= 13
    ||| n == 32 || n == 0x85 || n == 0xa0 || n == 0x1680
    ||| 0x2000 <= n <= 0x200a
    ||| n == 0x2028 || n == 0x2029 || n == 0x202f || n == 0x205f || n == 0x3000
}

/// Some character of `s` is not whitespace: `s.trim()` is not empty.
pub open spec fn not_blank(s: Seq<char>) -> bool {
    exists|i: int| 0 <= i < s.len() && !is_white_space(#[trigger] s[i])
}

/// A text that is not blank and has at most `max` UTF-8 bytes.
pub open spec fn bounded_text(s: Seq<char>, max: int) -> bool {
    not_blank(s) && encode_utf8(s).len() <= max
}

fn white_space(c: char) -> (r: bool)
    ensures
        r == is_white_space(c),
{
    let n = c as u32;
    (9 <= n && n <= 13) || n == 32 || n == 0x85 || n == 0xa0 || n == 0x1680
        || (0x2000 <= n && n <= 0x200a)
        || n == 0x2028 || n == 0x2029 || n == 0x202f || n == 0x205f || n == 0x3000
}

pub fn check_not_blank(s: &str) -> (r: bool)
    ensures
        r == not_blank(s@),
{
    let n = s.unicode_len();
    let mut i: usize = 0;
    while i < n
        invariant
            i <= n,
            n == s@.len(),
            forall|j: int| 0 <= j < i ==> is_white_space(#[trigger] s@[j]),
        decreases n - i,
    {
        if !white_space(s.get_char(i)) {
            return true;
        }
        i = i + 1;
    }
    false
}

pub fn check_bounded_text(s: &str, max: usize) -> (r: bool)
    ensures
        r == bounded_text(s@, max as int),
{
    check_not_blank(s) && s.as_bytes().len() <= max
}

} // verus!
