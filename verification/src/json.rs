//! Decoder for the record store's JSON envelope.
//!
//! The accepted texts are fixed by the spec-level grammar below: an object
//! with the five envelope fields `page`, `perPage`, `totalPages`,
//! `totalItems` (unsigned numbers) and `items` (an array of record objects),
//! each exactly once, in any order; a record object likewise holds exactly
//! the seven fields `id`, `name`, `collectionId`, `collectionName`,
//! `updated`, `created` (strings) and `amount` (an unsigned number), each
//! exactly once, in any order; a field outside those sets is skipped over,
//! its value any JSON value. JSON whitespace may stand anywhere between
//! tokens; strings take the single-character escapes (`\"`, `\\`, `\/`,
//! `\b`, `\f`, `\n`, `\r`, `\t`) and raw bytes `0x20` and above otherwise;
//! numbers are unsigned decimal integers without leading zeros. `amount`
//! must fit in 16 bits and the envelope counters in 32; a larger value is a
//! decode failure, never a truncation. Anything else — a missing or repeated
//! field, trailing text, a control byte in a string, a `\u`
//! escape — fails the decode.

use vstd::prelude::*;

use crate::model::{ExpenseRecord, ExpenseRecordV, PaginatedResponse, PaginatedResponseV};

verus! {

/// JSON insignificant whitespace: space, tab, line feed, carriage return.
pub open spec fn is_ws(b: u8) -> bool {
    b == 0x20 || b == 0x09 || b == 0x0a || b == 0x0d
}

/// ASCII decimal digit.
pub open spec fn is_digit(b: u8) -> bool {
    0x30 <= b <= 0x39
}

/// Index of the first non-whitespace byte at or after `i` (or the end).
pub open spec fn spec_skip_ws(s: Seq<u8>, i: int) -> int
    decreases s.len() - i,
{
    if i < 0 || i >= s.len() {
        i
    } else if is_ws(s[i]) {
        spec_skip_ws(s, i + 1)
    } else {
        i
    }
}

pub proof fn lemma_skip_ws(s: Seq<u8>, i: int)
    requires
        0 <= i <= s.len(),
    ensures
        i <= spec_skip_ws(s, i) <= s.len(),
    decreases s.len() - i,
{
    if i < s.len() && is_ws(s[i]) {
        lemma_skip_ws(s, i + 1);
    }
}

/// The single byte `b` expected at `i`.
pub open spec fn spec_byte(s: Seq<u8>, i: int, b: u8) -> Option<int> {
    if 0 <= i < s.len() && s[i] == b {
        Some(i + 1)
    } else {
        None
    }
}

/// What a single-character backslash escape denotes (`\u` escapes are
/// handled separately), or `None` where the escape is not accepted.
pub open spec fn spec_unescape(b: u8) -> Option<u8> {
    if b == 0x22 {
        Some(0x22)
    } else if b == 0x5c {
        Some(0x5c)
    } else if b == 0x2f {
        Some(0x2f)
    } else if b == 0x62 {
        Some(0x08)
    } else if b == 0x66 {
        Some(0x0c)
    } else if b == 0x6e {
        Some(0x0a)
    } else if b == 0x72 {
        Some(0x0d)
    } else if b == 0x74 {
        Some(0x09)
    } else {
        None
    }
}

/// The value of one hexadecimal digit, either case.
pub open spec fn spec_hex(b: u8) -> Option<nat> {
    if 0x30 <= b <= 0x39 {
        Some((b - 0x30) as nat)
    } else if 0x61 <= b <= 0x66 {
        Some((b - 0x61 + 10) as nat)
    } else if 0x41 <= b <= 0x46 {
        Some((b - 0x41 + 10) as nat)
    } else {
        None
    }
}

/// The value of the four hexadecimal digits at `i`.
pub open spec fn spec_hex4(s: Seq<u8>, i: int) -> Option<nat> {
    if 0 <= i && i + 4 <= s.len() && spec_hex(s[i]) is Some && spec_hex(s[i + 1]) is Some
        && spec_hex(s[i + 2]) is Some && spec_hex(s[i + 3]) is Some {
        Some(
            spec_hex(s[i]).unwrap() * 4096 + spec_hex(s[i + 1]).unwrap() * 256 + spec_hex(
                s[i + 2],
            ).unwrap() * 16 + spec_hex(s[i + 3]).unwrap(),
        )
    } else {
        None
    }
}

/// The UTF-8 encoding of a code point (at most 0x10FFFF).
pub open spec fn spec_utf8(cp: nat) -> Seq<u8> {
    if cp < 0x80 {
        seq![cp as u8]
    } else if cp < 0x800 {
        seq![(0xc0 + cp / 64) as u8, (0x80 + cp % 64) as u8]
    } else if cp < 0x10000 {
        seq![(0xe0 + cp / 4096) as u8, (0x80 + (cp / 64) % 64) as u8, (0x80 + cp % 64) as u8]
    } else {
        seq![
            (0xf0 + cp / 262144) as u8,
            (0x80 + (cp / 4096) % 64) as u8,
            (0x80 + (cp / 64) % 64) as u8,
            (0x80 + cp % 64) as u8,
        ]
    }
}

/// A `\uXXXX` escape with `i` at its backslash: the UTF-8 bytes of the code
/// point it denotes, and the index past it. A high surrogate must be followed
/// by a second `\u` escape holding a low surrogate, and the pair denotes one
/// code point beyond 0xFFFF; a lone or misordered surrogate fails.
pub open spec fn spec_unicode_escape(s: Seq<u8>, i: int) -> Option<(Seq<u8>, int)> {
    match spec_hex4(s, i + 2) {
        None => None,
        Some(cp0) => if cp0 < 0xd800 || cp0 > 0xdfff {
            Some((spec_utf8(cp0), i + 6))
        } else if cp0 <= 0xdbff {
            if i + 8 <= s.len() && s[i + 6] == 0x5c && s[i + 7] == 0x75 {
                match spec_hex4(s, i + 8) {
                    None => None,
                    Some(cp1) => if 0xdc00 <= cp1 <= 0xdfff {
                        Some(
                            (
                                spec_utf8(
                                    (0x10000 + (cp0 - 0xd800) * 0x400 + (cp1 - 0xdc00)) as nat,
                                ),
                                i + 12,
                            ),
                        )
                    } else {
                        None
                    },
                }
            } else {
                None
            }
        } else {
            None
        },
    }
}

pub proof fn lemma_unicode_escape(s: Seq<u8>, i: int)
    ensures
        spec_unicode_escape(s, i) matches Some((b, j)) ==> i < j <= s.len(),
{
}

/// String contents from `i` (the opening quote already consumed) up to the
/// closing quote: `acc` plus the decoded bytes, and the index past the quote.
pub open spec fn spec_string_body(s: Seq<u8>, i: int, acc: Seq<u8>) -> Option<(Seq<u8>, int)>
    decreases s.len() - i,
{
    if i < 0 || i >= s.len() {
        None
    } else if s[i] == 0x22 {
        Some((acc, i + 1))
    } else if s[i] == 0x5c {
        if i + 1 < s.len() {
            if s[i + 1] == 0x75 {
                match spec_unicode_escape(s, i) {
                    Some((b, j)) => {
                        proof {
                            lemma_unicode_escape(s, i);
                        }
                        spec_string_body(s, j, acc + b)
                    },
                    None => None,
                }
            } else {
                match spec_unescape(s[i + 1]) {
                    Some(b) => spec_string_body(s, i + 2, acc.push(b)),
                    None => None,
                }
            }
        } else {
            None
        }
    } else if s[i] >= 0x20 {
        spec_string_body(s, i + 1, acc.push(s[i]))
    } else {
        None
    }
}

/// A quoted JSON string at `i`: its decoded bytes and the index past it.
pub open spec fn spec_parse_string(s: Seq<u8>, i: int) -> Option<(Seq<u8>, int)> {
    if 0 <= i < s.len() && s[i] == 0x22 {
        spec_string_body(s, i + 1, Seq::empty())
    } else {
        None
    }
}

pub proof fn lemma_string_body(s: Seq<u8>, i: int, acc: Seq<u8>)
    requires
        0 <= i <= s.len(),
    ensures
        spec_string_body(s, i, acc) matches Some((v, j)) ==> i < j <= s.len(),
    decreases s.len() - i,
{
    if i < s.len() {
        if s[i] == 0x5c && i + 1 < s.len() {
            if s[i + 1] == 0x75 {
                lemma_unicode_escape(s, i);
                if let Some((b, j)) = spec_unicode_escape(s, i) {
                    lemma_string_body(s, j, acc + b);
                }
            } else if spec_unescape(s[i + 1]) is Some {
                lemma_string_body(s, i + 2, acc.push(spec_unescape(s[i + 1]).unwrap()));
            }
        } else if s[i] != 0x22 && s[i] != 0x5c && s[i] >= 0x20 {
            lemma_string_body(s, i + 1, acc.push(s[i]));
        }
    }
}

pub proof fn lemma_parse_string(s: Seq<u8>, i: int)
    ensures
        spec_parse_string(s, i) matches Some((v, j)) ==> i < j <= s.len(),
{
    if 0 <= i < s.len() && s[i] == 0x22 {
        lemma_string_body(s, i + 1, Seq::empty());
    }
}

/// The value of the digit run starting at `i`, accumulated onto `acc`, and
/// the index past the run. Total: on a non-digit it returns `acc` unchanged.
pub open spec fn spec_digits(s: Seq<u8>, i: int, acc: nat) -> (nat, int)
    decreases s.len() - i,
{
    if 0 <= i < s.len() && is_digit(s[i]) {
        spec_digits(s, i + 1, (acc * 10 + (s[i] - 0x30)) as nat)
    } else {
        (acc, i)
    }
}

pub proof fn lemma_digits(s: Seq<u8>, i: int, acc: nat)
    requires
        0 <= i <= s.len(),
    ensures
        i <= spec_digits(s, i, acc).1 <= s.len(),
        spec_digits(s, i, acc).0 >= acc,
    decreases s.len() - i,
{
    if i < s.len() && is_digit(s[i]) {
        lemma_digits(s, i + 1, acc * 10 + (s[i] - 0x30) as nat);
    }
}

/// An unsigned decimal integer at `i`: either the single digit `0`, or a run
/// starting with a nonzero digit (JSON forbids leading zeros).
pub open spec fn spec_parse_uint(s: Seq<u8>, i: int) -> Option<(nat, int)> {
    if 0 <= i < s.len() && is_digit(s[i]) {
        if s[i] == 0x30 {
            Some((0, i + 1))
        } else {
            Some(spec_digits(s, i, 0))
        }
    } else {
        None
    }
}

pub proof fn lemma_parse_uint(s: Seq<u8>, i: int)
    ensures
        spec_parse_uint(s, i) matches Some((n, j)) ==> i < j <= s.len(),
{
    if 0 <= i < s.len() && is_digit(s[i]) && s[i] != 0x30 {
        lemma_digits(s, i + 1, (s[i] - 0x30) as nat);
    }
}

/// A decimal integer at `i` that fits in 32 bits; a larger value fails.
pub open spec fn spec_parse_u32(s: Seq<u8>, i: int) -> Option<(u32, int)> {
    match spec_parse_uint(s, i) {
        Some((n, j)) => if n <= u32::MAX { Some((n as u32, j)) } else { None },
        None => None,
    }
}

/// A decimal integer at `i` that fits in 16 bits; a larger value fails.
pub open spec fn spec_parse_u16(s: Seq<u8>, i: int) -> Option<(u16, int)> {
    match spec_parse_uint(s, i) {
        Some((n, j)) => if n <= u16::MAX { Some((n as u16, j)) } else { None },
        None => None,
    }
}

// The field names, as byte strings.
pub open spec fn key_page() -> Seq<u8> {
    seq![0x70, 0x61, 0x67, 0x65]
}

pub open spec fn key_per_page() -> Seq<u8> {
    seq![0x70, 0x65, 0x72, 0x50, 0x61, 0x67, 0x65]
}

pub open spec fn key_total_pages() -> Seq<u8> {
    seq![0x74, 0x6f, 0x74, 0x61, 0x6c, 0x50, 0x61, 0x67, 0x65, 0x73]
}

pub open spec fn key_total_items() -> Seq<u8> {
    seq![0x74, 0x6f, 0x74, 0x61, 0x6c, 0x49, 0x74, 0x65, 0x6d, 0x73]
}

pub open spec fn key_items() -> Seq<u8> {
    seq![0x69, 0x74, 0x65, 0x6d, 0x73]
}

pub open spec fn key_id() -> Seq<u8> {
    seq![0x69, 0x64]
}

pub open spec fn key_name() -> Seq<u8> {
    seq![0x6e, 0x61, 0x6d, 0x65]
}

pub open spec fn key_amount() -> Seq<u8> {
    seq![0x61, 0x6d, 0x6f, 0x75, 0x6e, 0x74]
}

pub open spec fn key_collection_id() -> Seq<u8> {
    seq![0x63, 0x6f, 0x6c, 0x6c, 0x65, 0x63, 0x74, 0x69, 0x6f, 0x6e, 0x49, 0x64]
}

pub open spec fn key_collection_name() -> Seq<u8> {
    seq![0x63, 0x6f, 0x6c, 0x6c, 0x65, 0x63, 0x74, 0x69, 0x6f, 0x6e, 0x4e, 0x61, 0x6d, 0x65]
}

pub open spec fn key_updated() -> Seq<u8> {
    seq![0x75, 0x70, 0x64, 0x61, 0x74, 0x65, 0x64]
}

pub open spec fn key_created() -> Seq<u8> {
    seq![0x63, 0x72, 0x65, 0x61, 0x74, 0x65, 0x64]
}

/// A member's key and its following colon, starting at `i`: the decoded key
/// and the index just past the colon.
pub open spec fn spec_member_key(s: Seq<u8>, i: int) -> Option<(Seq<u8>, int)> {
    match spec_parse_string(s, spec_skip_ws(s, i)) {
        None => None,
        Some((key, j)) => match spec_byte(s, spec_skip_ws(s, j), 0x3a) {
            None => None,
            Some(j2) => Some((key, j2)),
        },
    }
}

pub proof fn lemma_member_key(s: Seq<u8>, i: int)
    requires
        0 <= i <= s.len(),
    ensures
        spec_member_key(s, i) matches Some((key, j)) ==> i < j <= s.len(),
{
    lemma_skip_ws(s, i);
    lemma_parse_string(s, spec_skip_ws(s, i));
    if let Some((key, j)) = spec_parse_string(s, spec_skip_ws(s, i)) {
        lemma_skip_ws(s, j);
    }
}


/// The end of an optional JSON fraction part at `j` (`.` then digits).
pub open spec fn spec_skip_frac(s: Seq<u8>, j: int) -> Option<int> {
    if 0 <= j < s.len() && s[j] == 0x2e {
        let e = spec_digits(s, j + 1, 0).1;
        if e > j + 1 {
            Some(e)
        } else {
            None
        }
    } else {
        Some(j)
    }
}

/// The end of an optional JSON exponent part at `j` (`e`/`E`, a sign, digits).
pub open spec fn spec_skip_exp(s: Seq<u8>, j: int) -> Option<int> {
    if 0 <= j < s.len() && (s[j] == 0x65 || s[j] == 0x45) {
        let k = if j + 1 < s.len() && (s[j + 1] == 0x2b || s[j + 1] == 0x2d) {
            j + 2
        } else {
            j + 1
        };
        let e = spec_digits(s, k, 0).1;
        if e > k {
            Some(e)
        } else {
            None
        }
    } else {
        Some(j)
    }
}

/// The end of a JSON number at `i`, in its full grammar. Only skipped over:
/// such a number can stand in a field this decoder does not know.
pub open spec fn spec_skip_number(s: Seq<u8>, i: int) -> Option<int> {
    let start: int = if 0 <= i < s.len() && s[i] == 0x2d {
        i + 1
    } else {
        i
    };
    match spec_parse_uint(s, start) {
        None => None,
        Some((n, j)) => match spec_skip_frac(s, j) {
            None => None,
            Some(j2) => spec_skip_exp(s, j2),
        },
    }
}

/// The end of any JSON value at `i` (no leading whitespace): what an unknown
/// field may hold. Mirrors what the envelope's own values take elsewhere;
/// an object or array here may nest arbitrarily.
pub open spec fn spec_skip_value(s: Seq<u8>, i: int) -> Option<int>
    decreases s.len() - i, 0int,
{
    if i < 0 || i >= s.len() {
        None
    } else if s[i] == 0x22 {
        match spec_parse_string(s, i) {
            Some((v, j)) => Some(j),
            None => None,
        }
    } else if s[i] == 0x2d || is_digit(s[i]) {
        spec_skip_number(s, i)
    } else if s[i] == 0x74 {
        if i + 4 <= s.len() && s[i + 1] == 0x72 && s[i + 2] == 0x75 && s[i + 3] == 0x65 {
            Some(i + 4)
        } else {
            None
        }
    } else if s[i] == 0x66 {
        if i + 5 <= s.len() && s[i + 1] == 0x61 && s[i + 2] == 0x6c && s[i + 3] == 0x73 && s[i + 4]
            == 0x65 {
            Some(i + 5)
        } else {
            None
        }
    } else if s[i] == 0x6e {
        if i + 4 <= s.len() && s[i + 1] == 0x75 && s[i + 2] == 0x6c && s[i + 3] == 0x6c {
            Some(i + 4)
        } else {
            None
        }
    } else if s[i] == 0x7b {
        let k = spec_skip_ws(s, i + 1);
        if 0 <= k < s.len() && s[k] == 0x7d {
            Some(k + 1)
        } else {
            spec_skip_members(s, i + 1)
        }
    } else if s[i] == 0x5b {
        let k = spec_skip_ws(s, i + 1);
        if 0 <= k < s.len() && s[k] == 0x5d {
            Some(k + 1)
        } else {
            spec_skip_elems(s, i + 1)
        }
    } else {
        None
    }
}

/// The members of a skipped object from `i` (just past `{` or a comma) up to
/// and past the closing `}`. Any keys, any values; a member must end past
/// where its value began.
pub open spec fn spec_skip_members(s: Seq<u8>, i: int) -> Option<int>
    decreases s.len() - i, 1int,
{
    if i < 0 || i > s.len() {
        None
    } else {
        match spec_member_key(s, i) {
            None => None,
            Some((key, j)) => {
                let v = spec_skip_ws(s, j);
                proof {
                    lemma_member_key(s, i);
                    lemma_skip_ws(s, j);
                }
                match spec_skip_value(s, v) {
                    None => None,
                    Some(j2) => if v < j2 <= s.len() {
                        let k = spec_skip_ws(s, j2);
                        if 0 <= k < s.len() && s[k] == 0x2c {
                            proof {
                                lemma_skip_ws(s, j2);
                            }
                            spec_skip_members(s, k + 1)
                        } else if 0 <= k < s.len() && s[k] == 0x7d {
                            Some(k + 1)
                        } else {
                            None
                        }
                    } else {
                        None
                    },
                }
            },
        }
    }
}

/// The elements of a skipped array from `i` (just past `[` or a comma) up to
/// and past the closing `]`.
pub open spec fn spec_skip_elems(s: Seq<u8>, i: int) -> Option<int>
    decreases s.len() - i, 1int,
{
    if i < 0 || i > s.len() {
        None
    } else {
        let v = spec_skip_ws(s, i);
        proof {
            lemma_skip_ws(s, i);
        }
        match spec_skip_value(s, v) {
            None => None,
            Some(j2) => if v < j2 <= s.len() {
                let k = spec_skip_ws(s, j2);
                if 0 <= k < s.len() && s[k] == 0x2c {
                    proof {
                        lemma_skip_ws(s, j2);
                    }
                    spec_skip_elems(s, k + 1)
                } else if 0 <= k < s.len() && s[k] == 0x5d {
                    Some(k + 1)
                } else {
                    None
                }
            } else {
                None
            },
        }
    }
}

/// A record object in the middle of decoding: the fields seen so far.
pub struct RecPartV {
    pub id: Option<Seq<u8>>,
    pub name: Option<Seq<u8>>,
    pub amount: Option<u16>,
    pub collection_id: Option<Seq<u8>>,
    pub collection_name: Option<Seq<u8>>,
    pub updated: Option<Seq<u8>>,
    pub created: Option<Seq<u8>>,
}

/// No record field seen yet.
pub open spec fn rec_part_none() -> RecPartV {
    RecPartV {
        id: None,
        name: None,
        amount: None,
        collection_id: None,
        collection_name: None,
        updated: None,
        created: None,
    }
}

/// One record member's value at `v`, under the member's `key`: the updated
/// partial record and the index past the value. A key outside the record's
/// field set has its value skipped; a key whose field was already seen fails.
pub open spec fn spec_rec_value(s: Seq<u8>, v: int, key: Seq<u8>, acc: RecPartV) -> Option<
    (RecPartV, int),
> {
    if key == key_id() {
        if acc.id is Some {
            None
        } else {
            match spec_parse_string(s, v) {
                Some((x, j)) => Some((RecPartV { id: Some(x), ..acc }, j)),
                None => None,
            }
        }
    } else if key == key_name() {
        if acc.name is Some {
            None
        } else {
            match spec_parse_string(s, v) {
                Some((x, j)) => Some((RecPartV { name: Some(x), ..acc }, j)),
                None => None,
            }
        }
    } else if key == key_amount() {
        if acc.amount is Some {
            None
        } else {
            match spec_parse_u16(s, v) {
                Some((x, j)) => Some((RecPartV { amount: Some(x), ..acc }, j)),
                None => None,
            }
        }
    } else if key == key_collection_id() {
        if acc.collection_id is Some {
            None
        } else {
            match spec_parse_string(s, v) {
                Some((x, j)) => Some((RecPartV { collection_id: Some(x), ..acc }, j)),
                None => None,
            }
        }
    } else if key == key_collection_name() {
        if acc.collection_name is Some {
            None
        } else {
            match spec_parse_string(s, v) {
                Some((x, j)) => Some((RecPartV { collection_name: Some(x), ..acc }, j)),
                None => None,
            }
        }
    } else if key == key_updated() {
        if acc.updated is Some {
            None
        } else {
            match spec_parse_string(s, v) {
                Some((x, j)) => Some((RecPartV { updated: Some(x), ..acc }, j)),
                None => None,
            }
        }
    } else if key == key_created() {
        if acc.created is Some {
            None
        } else {
            match spec_parse_string(s, v) {
                Some((x, j)) => Some((RecPartV { created: Some(x), ..acc }, j)),
                None => None,
            }
        }
    } else {
        match spec_skip_value(s, v) {
            Some(j) => if v < j <= s.len() {
                Some((acc, j))
            } else {
                None
            },
            None => None,
        }
    }
}

pub proof fn lemma_rec_value(s: Seq<u8>, v: int, key: Seq<u8>, acc: RecPartV)
    ensures
        spec_rec_value(s, v, key, acc) matches Some((a2, j)) ==> v < j <= s.len(),
{
    lemma_parse_string(s, v);
    lemma_parse_uint(s, v);
}

/// The members of a record object from `i` (just past `{` or a separating
/// comma) up to and past the closing `}`.
pub open spec fn spec_rec_members(s: Seq<u8>, i: int, acc: RecPartV) -> Option<(RecPartV, int)>
    decreases s.len() - i,
{
    if i < 0 || i > s.len() {
        None
    } else {
        match spec_member_key(s, i) {
            None => None,
            Some((key, j)) => {
                let v = spec_skip_ws(s, j);
                match spec_rec_value(s, v, key, acc) {
                    None => None,
                    Some((acc2, j2)) => {
                        let k = spec_skip_ws(s, j2);
                        if 0 <= k < s.len() && s[k] == 0x2c {
                            proof {
                                lemma_member_key(s, i);
                                lemma_skip_ws(s, j);
                                lemma_rec_value(s, v, key, acc);
                                lemma_skip_ws(s, j2);
                            }
                            spec_rec_members(s, k + 1, acc2)
                        } else if 0 <= k < s.len() && s[k] == 0x7d {
                            Some((acc2, k + 1))
                        } else {
                            None
                        }
                    },
                }
            },
        }
    }
}

pub proof fn lemma_rec_members(s: Seq<u8>, i: int, acc: RecPartV)
    requires
        0 <= i <= s.len(),
    ensures
        spec_rec_members(s, i, acc) matches Some((p, j)) ==> i < j <= s.len(),
    decreases s.len() - i,
{
    lemma_member_key(s, i);
    if let Some((key, j)) = spec_member_key(s, i) {
        let v = spec_skip_ws(s, j);
        lemma_skip_ws(s, j);
        lemma_rec_value(s, v, key, acc);
        if let Some((acc2, j2)) = spec_rec_value(s, v, key, acc) {
            lemma_skip_ws(s, j2);
            let k = spec_skip_ws(s, j2);
            if 0 <= k < s.len() && s[k] == 0x2c {
                lemma_rec_members(s, k + 1, acc2);
            }
        }
    }
}

/// One record object at `i` (whitespace already skipped by the caller): the
/// seven fields, each exactly once, in any order.
pub open spec fn spec_parse_record(s: Seq<u8>, i: int) -> Option<(ExpenseRecordV, int)> {
    match spec_byte(s, i, 0x7b) {
        None => None,
        Some(j) => match spec_rec_members(s, j, rec_part_none()) {
            None => None,
            Some((p, j2)) => if p.id is Some && p.name is Some && p.amount is Some
                && p.collection_id is Some && p.collection_name is Some && p.updated is Some
                && p.created is Some {
                Some(
                    (
                        ExpenseRecordV {
                            id: p.id.unwrap(),
                            name: p.name.unwrap(),
                            amount: p.amount.unwrap(),
                            collection_id: p.collection_id.unwrap(),
                            collection_name: p.collection_name.unwrap(),
                            updated: p.updated.unwrap(),
                            created: p.created.unwrap(),
                        },
                        j2,
                    ),
                )
            } else {
                None
            },
        },
    }
}

pub proof fn lemma_parse_record(s: Seq<u8>, i: int)
    requires
        0 <= i <= s.len(),
    ensures
        spec_parse_record(s, i) matches Some((r, j)) ==> i < j <= s.len(),
{
    if let Some(j) = spec_byte(s, i, 0x7b) {
        lemma_rec_members(s, j, rec_part_none());
    }
}

/// The records of a non-empty array, continuing at `i` just past `[` or a
/// separating comma: `acc` plus the remaining records, and the index past `]`.
pub open spec fn spec_records(s: Seq<u8>, i: int, acc: Seq<ExpenseRecordV>) -> Option<(
    Seq<ExpenseRecordV>,
    int,
)>
    decreases s.len() - i,
{
    if i < 0 || i > s.len() {
        None
    } else {
        match spec_parse_record(s, spec_skip_ws(s, i)) {
            None => None,
            Some((r, j)) => {
                let k = spec_skip_ws(s, j);
                if 0 <= k < s.len() && s[k] == 0x2c {
                    proof {
                        lemma_skip_ws(s, i);
                        lemma_parse_record(s, spec_skip_ws(s, i));
                        lemma_skip_ws(s, j);
                    }
                    spec_records(s, k + 1, acc.push(r))
                } else if 0 <= k < s.len() && s[k] == 0x5d {
                    Some((acc.push(r), k + 1))
                } else {
                    None
                }
            },
        }
    }
}

pub proof fn lemma_records(s: Seq<u8>, i: int, acc: Seq<ExpenseRecordV>)
    requires
        0 <= i <= s.len(),
    ensures
        spec_records(s, i, acc) matches Some((rs, j)) ==> i < j <= s.len(),
    decreases s.len() - i,
{
    lemma_skip_ws(s, i);
    lemma_parse_record(s, spec_skip_ws(s, i));
    if let Some((r, j)) = spec_parse_record(s, spec_skip_ws(s, i)) {
        lemma_skip_ws(s, j);
        let k = spec_skip_ws(s, j);
        if 0 <= k < s.len() && s[k] == 0x2c {
            lemma_records(s, k + 1, acc.push(r));
        }
    }
}

/// The array value of `items` at `i`: `[` then either an immediate `]`
/// (no records) or the comma-separated records.
pub open spec fn spec_parse_items(s: Seq<u8>, i: int) -> Option<(Seq<ExpenseRecordV>, int)> {
    match spec_byte(s, spec_skip_ws(s, i), 0x5b) {
        None => None,
        Some(j) => {
            let k = spec_skip_ws(s, j);
            if 0 <= k < s.len() && s[k] == 0x5d {
                Some((Seq::empty(), k + 1))
            } else {
                spec_records(s, j, Seq::empty())
            }
        },
    }
}

pub proof fn lemma_parse_items(s: Seq<u8>, i: int)
    requires
        0 <= i <= s.len(),
    ensures
        spec_parse_items(s, i) matches Some((rs, j)) ==> i < j <= s.len(),
{
    lemma_skip_ws(s, i);
    if let Some(j) = spec_byte(s, spec_skip_ws(s, i), 0x5b) {
        lemma_skip_ws(s, j);
        lemma_records(s, j, Seq::empty());
    }
}

/// The envelope in the middle of decoding: the fields seen so far.
pub struct EnvPartV {
    pub page: Option<u32>,
    pub per_page: Option<u32>,
    pub total_pages: Option<u32>,
    pub total_items: Option<u32>,
    pub items: Option<Seq<ExpenseRecordV>>,
}

/// No envelope field seen yet.
pub open spec fn env_part_none() -> EnvPartV {
    EnvPartV { page: None, per_page: None, total_pages: None, total_items: None, items: None }
}

/// One envelope member's value at `v`, under the member's `key`: the updated
/// partial envelope and the index past the value. A key outside the
/// envelope's field set has its value skipped; a key whose field was already
/// seen fails.
pub open spec fn spec_env_value(s: Seq<u8>, v: int, key: Seq<u8>, acc: EnvPartV) -> Option<
    (EnvPartV, int),
> {
    if key == key_page() {
        if acc.page is Some {
            None
        } else {
            match spec_parse_u32(s, v) {
                Some((x, j)) => Some((EnvPartV { page: Some(x), ..acc }, j)),
                None => None,
            }
        }
    } else if key == key_per_page() {
        if acc.per_page is Some {
            None
        } else {
            match spec_parse_u32(s, v) {
                Some((x, j)) => Some((EnvPartV { per_page: Some(x), ..acc }, j)),
                None => None,
            }
        }
    } else if key == key_total_pages() {
        if acc.total_pages is Some {
            None
        } else {
            match spec_parse_u32(s, v) {
                Some((x, j)) => Some((EnvPartV { total_pages: Some(x), ..acc }, j)),
                None => None,
            }
        }
    } else if key == key_total_items() {
        if acc.total_items is Some {
            None
        } else {
            match spec_parse_u32(s, v) {
                Some((x, j)) => Some((EnvPartV { total_items: Some(x), ..acc }, j)),
                None => None,
            }
        }
    } else if key == key_items() {
        if acc.items is Some {
            None
        } else {
            match spec_parse_items(s, v) {
                Some((x, j)) => Some((EnvPartV { items: Some(x), ..acc }, j)),
                None => None,
            }
        }
    } else {
        match spec_skip_value(s, v) {
            Some(j) => if v < j <= s.len() {
                Some((acc, j))
            } else {
                None
            },
            None => None,
        }
    }
}

pub proof fn lemma_env_value(s: Seq<u8>, v: int, key: Seq<u8>, acc: EnvPartV)
    requires
        0 <= v <= s.len(),
    ensures
        spec_env_value(s, v, key, acc) matches Some((a2, j)) ==> v < j <= s.len(),
{
    lemma_parse_uint(s, v);
    lemma_parse_items(s, v);
}

/// The members of the envelope object from `i` (just past `{` or a
/// separating comma) up to and past the closing `}`.
pub open spec fn spec_env_members(s: Seq<u8>, i: int, acc: EnvPartV) -> Option<(EnvPartV, int)>
    decreases s.len() - i,
{
    if i < 0 || i > s.len() {
        None
    } else {
        match spec_member_key(s, i) {
            None => None,
            Some((key, j)) => {
                let v = spec_skip_ws(s, j);
                match spec_env_value(s, v, key, acc) {
                    None => None,
                    Some((acc2, j2)) => {
                        let k = spec_skip_ws(s, j2);
                        if 0 <= k < s.len() && s[k] == 0x2c {
                            proof {
                                lemma_member_key(s, i);
                                lemma_skip_ws(s, j);
                                lemma_env_value(s, v, key, acc);
                                lemma_skip_ws(s, j2);
                            }
                            spec_env_members(s, k + 1, acc2)
                        } else if 0 <= k < s.len() && s[k] == 0x7d {
                            Some((acc2, k + 1))
                        } else {
                            None
                        }
                    },
                }
            },
        }
    }
}

/// The whole response body: the envelope object, each of its five fields
/// exactly once, and nothing but whitespace after it.
pub open spec fn spec_parse_response(s: Seq<u8>) -> Option<PaginatedResponseV> {
    match spec_byte(s, spec_skip_ws(s, 0), 0x7b) {
        None => None,
        Some(j) => match spec_env_members(s, j, env_part_none()) {
            None => None,
            Some((p, j2)) => if p.page is Some && p.per_page is Some && p.total_pages is Some
                && p.total_items is Some && p.items is Some {
                if spec_skip_ws(s, j2) == s.len() {
                    Some(
                        PaginatedResponseV {
                            page: p.page.unwrap(),
                            per_page: p.per_page.unwrap(),
                            total_pages: p.total_pages.unwrap(),
                            total_items: p.total_items.unwrap(),
                            items: p.items.unwrap(),
                        },
                    )
                } else {
                    None
                }
            } else {
                None
            },
        },
    }
}

/// Relation between the executable saturating accumulator and the exact
/// mathematical digit value: exact up to `u32::MAX`, pegged one above it
/// for any larger value.
pub open spec fn sat_rel(m: u64, n: nat) -> bool {
    (m == n && m <= 0xffff_ffff) || (m == 0x1_0000_0000 && n > 0xffff_ffff)
}

const SAT: u64 = 0x1_0000_0000;

fn skip_ws(s: &Vec<u8>, i: usize) -> (r: usize)
    requires
        i <= s@.len(),
    ensures
        r as int == spec_skip_ws(s@, i as int),
        i <= r <= s@.len(),
{
    let mut j: usize = i;
    while j < s.len() && (s[j] == 0x20 || s[j] == 0x09 || s[j] == 0x0a || s[j] == 0x0d)
        invariant
            i <= j <= s@.len(),
            spec_skip_ws(s@, i as int) == spec_skip_ws(s@, j as int),
        decreases s@.len() - j,
    {
        j = j + 1;
    }
    j
}

fn expect_byte(s: &Vec<u8>, i: usize, b: u8) -> (r: Option<usize>)
    requires
        i <= s@.len(),
    ensures
        match r {
            Some(j) => spec_byte(s@, i as int, b) == Some(j as int) && j <= s@.len(),
            None => spec_byte(s@, i as int, b) is None,
        },
{
    if i < s.len() && s[i] == b {
        Some(i + 1)
    } else {
        None
    }
}

fn unescape(b: u8) -> (r: Option<u8>)
    ensures
        r == spec_unescape(b),
{
    if b == 0x22 {
        Some(0x22)
    } else if b == 0x5c {
        Some(0x5c)
    } else if b == 0x2f {
        Some(0x2f)
    } else if b == 0x62 {
        Some(0x08)
    } else if b == 0x66 {
        Some(0x0c)
    } else if b == 0x6e {
        Some(0x0a)
    } else if b == 0x72 {
        Some(0x0d)
    } else if b == 0x74 {
        Some(0x09)
    } else {
        None
    }
}

fn hex_digit(b: u8) -> (r: Option<u8>)
    ensures
        match r {
            Some(v) => spec_hex(b) == Some(v as nat) && v <= 15,
            None => spec_hex(b) is None,
        },
{
    if 0x30 <= b && b <= 0x39 {
        Some(b - 0x30)
    } else if 0x61 <= b && b <= 0x66 {
        Some(b - 0x61 + 10)
    } else if 0x41 <= b && b <= 0x46 {
        Some(b - 0x41 + 10)
    } else {
        None
    }
}

fn hex4(s: &Vec<u8>, i: usize) -> (r: Option<u32>)
    requires
        i <= s@.len(),
    ensures
        match r {
            Some(cp) => spec_hex4(s@, i as int) == Some(cp as nat) && cp <= 0xffff,
            None => spec_hex4(s@, i as int) is None,
        },
{
    if s.len() - i < 4 {
        return None;
    }
    let h0 = match hex_digit(s[i]) {
        Some(v) => v,
        None => return None,
    };
    let h1 = match hex_digit(s[i + 1]) {
        Some(v) => v,
        None => return None,
    };
    let h2 = match hex_digit(s[i + 2]) {
        Some(v) => v,
        None => return None,
    };
    let h3 = match hex_digit(s[i + 3]) {
        Some(v) => v,
        None => return None,
    };
    Some((h0 as u32) * 4096 + (h1 as u32) * 256 + (h2 as u32) * 16 + (h3 as u32))
}

/// Appends the UTF-8 encoding of `cp` to `out`.
fn push_utf8(out: &mut Vec<u8>, cp: u32)
    requires
        cp <= 0x10ffff,
    ensures
        final(out)@ == old(out)@ + spec_utf8(cp as nat),
{
    if cp < 0x80 {
        out.push(cp as u8);
    } else if cp < 0x800 {
        out.push((0xc0 + cp / 64) as u8);
        out.push((0x80 + cp % 64) as u8);
    } else if cp < 0x10000 {
        out.push((0xe0 + cp / 4096) as u8);
        out.push((0x80 + (cp / 64) % 64) as u8);
        out.push((0x80 + cp % 64) as u8);
    } else {
        out.push((0xf0 + cp / 262144) as u8);
        out.push((0x80 + (cp / 4096) % 64) as u8);
        out.push((0x80 + (cp / 64) % 64) as u8);
        out.push((0x80 + cp % 64) as u8);
    }
    proof {
        assert(out@ =~= old(out)@ + spec_utf8(cp as nat));
    }
}

fn unicode_escape(s: &Vec<u8>, i: usize) -> (r: Option<(u32, usize)>)
    requires
        i <= s@.len(),
    ensures
        match r {
            Some((cp, j)) => spec_unicode_escape(s@, i as int) == Some(
                (spec_utf8(cp as nat), j as int),
            ) && cp <= 0x10ffff && i < j <= s@.len(),
            None => spec_unicode_escape(s@, i as int) is None,
        },
{
    if s.len() - i < 6 {
        return None;
    }
    let cp0 = match hex4(s, i + 2) {
        Some(v) => v,
        None => return None,
    };
    if cp0 < 0xd800 || cp0 > 0xdfff {
        Some((cp0, i + 6))
    } else if cp0 <= 0xdbff {
        if s.len() - i >= 8 && s[i + 6] == 0x5c && s[i + 7] == 0x75 {
            let cp1 = match hex4(s, i + 8) {
                Some(v) => v,
                None => return None,
            };
            if 0xdc00 <= cp1 && cp1 <= 0xdfff {
                Some((0x10000 + (cp0 - 0xd800) * 0x400 + (cp1 - 0xdc00), i + 12))
            } else {
                None
            }
        } else {
            None
        }
    } else {
        None
    }
}

fn string_body(s: &Vec<u8>, i: usize, acc: Vec<u8>) -> (r: Option<(Vec<u8>, usize)>)
    requires
        i <= s@.len(),
    ensures
        match r {
            Some((v, j)) => spec_string_body(s@, i as int, acc@) == Some((v@, j as int)) && j
                <= s@.len(),
            None => spec_string_body(s@, i as int, acc@) is None,
        },
    decreases s@.len() - i,
{
    if i == s.len() {
        return None;
    }
    let b = s[i];
    if b == 0x22 {
        Some((acc, i + 1))
    } else if b == 0x5c {
        if i + 1 < s.len() {
            if s[i + 1] == 0x75 {
                match unicode_escape(s, i) {
                    Some((cp, j)) => {
                        let mut acc2 = acc;
                        push_utf8(&mut acc2, cp);
                        string_body(s, j, acc2)
                    },
                    None => None,
                }
            } else {
                match unescape(s[i + 1]) {
                    Some(c) => {
                        let mut acc2 = acc;
                        acc2.push(c);
                        string_body(s, i + 2, acc2)
                    },
                    None => None,
                }
            }
        } else {
            None
        }
    } else if b >= 0x20 {
        let mut acc2 = acc;
        acc2.push(b);
        string_body(s, i + 1, acc2)
    } else {
        None
    }
}

fn parse_string(s: &Vec<u8>, i: usize) -> (r: Option<(Vec<u8>, usize)>)
    requires
        i <= s@.len(),
    ensures
        match r {
            Some((v, j)) => spec_parse_string(s@, i as int) == Some((v@, j as int)) && j
                <= s@.len(),
            None => spec_parse_string(s@, i as int) is None,
        },
{
    if i < s.len() && s[i] == 0x22 {
        string_body(s, i + 1, Vec::new())
    } else {
        None
    }
}

fn digits(s: &Vec<u8>, i: usize, acc: u64, Ghost(gacc): Ghost<nat>) -> (r: (u64, usize))
    requires
        i <= s@.len(),
        sat_rel(acc, gacc),
    ensures
        r.1 as int == spec_digits(s@, i as int, gacc).1,
        i <= r.1 <= s@.len(),
        sat_rel(r.0, spec_digits(s@, i as int, gacc).0),
    decreases s@.len() - i,
{
    if i < s.len() && 0x30 <= s[i] && s[i] <= 0x39 {
        let d = (s[i] - 0x30) as u64;
        let ghost gnext: nat = (gacc * 10 + d) as nat;
        let next: u64 = if acc >= SAT {
            proof {
                assert(gacc * 10 >= gacc) by (nonlinear_arith)
                    requires
                        gacc >= 0,
                ;
            }
            SAT
        } else {
            let t = acc * 10 + d;
            if t > 0xffff_ffff {
                SAT
            } else {
                t
            }
        };
        digits(s, i + 1, next, Ghost(gnext))
    } else {
        (acc, i)
    }
}

fn parse_uint(s: &Vec<u8>, i: usize) -> (r: Option<(u64, usize)>)
    requires
        i <= s@.len(),
    ensures
        ({
            let g = spec_parse_uint(s@, i as int);
            match r {
                None => g is None,
                Some((m, j)) => g matches Some((n, gj)) && gj == j as int && sat_rel(m, n) && j
                    <= s@.len(),
            }
        }),
{
    if i < s.len() && 0x30 <= s[i] && s[i] <= 0x39 {
        if s[i] == 0x30 {
            Some((0, i + 1))
        } else {
            let (m, j) = digits(s, i, 0, Ghost(0nat));
            Some((m, j))
        }
    } else {
        None
    }
}

fn parse_u32(s: &Vec<u8>, i: usize) -> (r: Option<(u32, usize)>)
    requires
        i <= s@.len(),
    ensures
        match r {
            Some((v, j)) => spec_parse_u32(s@, i as int) == Some((v, j as int)) && j <= s@.len(),
            None => spec_parse_u32(s@, i as int) is None,
        },
{
    match parse_uint(s, i) {
        None => None,
        Some((m, j)) => if m <= 0xffff_ffff {
            Some((m as u32, j))
        } else {
            None
        },
    }
}

fn parse_u16(s: &Vec<u8>, i: usize) -> (r: Option<(u16, usize)>)
    requires
        i <= s@.len(),
    ensures
        match r {
            Some((v, j)) => spec_parse_u16(s@, i as int) == Some((v, j as int)) && j <= s@.len(),
            None => spec_parse_u16(s@, i as int) is None,
        },
{
    match parse_uint(s, i) {
        None => None,
        Some((m, j)) => if m <= 0xffff {
            Some((m as u16, j))
        } else {
            None
        },
    }
}

fn bytes_eq(a: &Vec<u8>, b: &Vec<u8>) -> (r: bool)
    ensures
        r <==> a@ == b@,
{
    if a.len() != b.len() {
        return false;
    }
    let mut k: usize = 0;
    while k < a.len()
        invariant
            a@.len() == b@.len(),
            0 <= k <= a@.len(),
            forall|t: int| 0 <= t < k ==> a@[t] == b@[t],
        decreases a@.len() - k,
    {
        if a[k] != b[k] {
            return false;
        }
        k = k + 1;
    }
    proof {
        assert(a@ =~= b@);
    }
    true
}

fn key_page_v() -> (v: Vec<u8>)
    ensures
        v@ == key_page(),
{
    let v: Vec<u8> = vec![0x70, 0x61, 0x67, 0x65];
    proof {
        assert(v@ =~= key_page());
    }
    v
}

fn key_per_page_v() -> (v: Vec<u8>)
    ensures
        v@ == key_per_page(),
{
    let v: Vec<u8> = vec![0x70, 0x65, 0x72, 0x50, 0x61, 0x67, 0x65];
    proof {
        assert(v@ =~= key_per_page());
    }
    v
}

fn key_total_pages_v() -> (v: Vec<u8>)
    ensures
        v@ == key_total_pages(),
{
    let v: Vec<u8> = vec![0x74, 0x6f, 0x74, 0x61, 0x6c, 0x50, 0x61, 0x67, 0x65, 0x73];
    proof {
        assert(v@ =~= key_total_pages());
    }
    v
}

fn key_total_items_v() -> (v: Vec<u8>)
    ensures
        v@ == key_total_items(),
{
    let v: Vec<u8> = vec![0x74, 0x6f, 0x74, 0x61, 0x6c, 0x49, 0x74, 0x65, 0x6d, 0x73];
    proof {
        assert(v@ =~= key_total_items());
    }
    v
}

fn key_items_v() -> (v: Vec<u8>)
    ensures
        v@ == key_items(),
{
    let v: Vec<u8> = vec![0x69, 0x74, 0x65, 0x6d, 0x73];
    proof {
        assert(v@ =~= key_items());
    }
    v
}

fn key_id_v() -> (v: Vec<u8>)
    ensures
        v@ == key_id(),
{
    let v: Vec<u8> = vec![0x69, 0x64];
    proof {
        assert(v@ =~= key_id());
    }
    v
}

fn key_name_v() -> (v: Vec<u8>)
    ensures
        v@ == key_name(),
{
    let v: Vec<u8> = vec![0x6e, 0x61, 0x6d, 0x65];
    proof {
        assert(v@ =~= key_name());
    }
    v
}

fn key_amount_v() -> (v: Vec<u8>)
    ensures
        v@ == key_amount(),
{
    let v: Vec<u8> = vec![0x61, 0x6d, 0x6f, 0x75, 0x6e, 0x74];
    proof {
        assert(v@ =~= key_amount());
    }
    v
}

fn key_collection_id_v() -> (v: Vec<u8>)
    ensures
        v@ == key_collection_id(),
{
    let v: Vec<u8> = vec![0x63, 0x6f, 0x6c, 0x6c, 0x65, 0x63, 0x74, 0x69, 0x6f, 0x6e, 0x49, 0x64];
    proof {
        assert(v@ =~= key_collection_id());
    }
    v
}

fn key_collection_name_v() -> (v: Vec<u8>)
    ensures
        v@ == key_collection_name(),
{
    let v: Vec<u8> = vec![
        0x63, 0x6f, 0x6c, 0x6c, 0x65, 0x63, 0x74, 0x69, 0x6f, 0x6e, 0x4e, 0x61, 0x6d, 0x65,
    ];
    proof {
        assert(v@ =~= key_collection_name());
    }
    v
}

fn key_updated_v() -> (v: Vec<u8>)
    ensures
        v@ == key_updated(),
{
    let v: Vec<u8> = vec![0x75, 0x70, 0x64, 0x61, 0x74, 0x65, 0x64];
    proof {
        assert(v@ =~= key_updated());
    }
    v
}

fn key_created_v() -> (v: Vec<u8>)
    ensures
        v@ == key_created(),
{
    let v: Vec<u8> = vec![0x63, 0x72, 0x65, 0x61, 0x74, 0x65, 0x64];
    proof {
        assert(v@ =~= key_created());
    }
    v
}

fn member_key(s: &Vec<u8>, i: usize) -> (r: Option<(Vec<u8>, usize)>)
    requires
        i <= s@.len(),
    ensures
        match r {
            Some((key, j)) => spec_member_key(s@, i as int) == Some((key@, j as int)) && j
                <= s@.len(),
            None => spec_member_key(s@, i as int) is None,
        },
{
    let w = skip_ws(s, i);
    match parse_string(s, w) {
        None => None,
        Some((key, j)) => {
            let w2 = skip_ws(s, j);
            match expect_byte(s, w2, 0x3a) {
                None => None,
                Some(j2) => Some((key, j2)),
            }
        },
    }
}


fn skip_number(s: &Vec<u8>, i: usize) -> (r: Option<usize>)
    requires
        i <= s@.len(),
    ensures
        match r {
            Some(j) => spec_skip_number(s@, i as int) == Some(j as int) && j <= s@.len(),
            None => spec_skip_number(s@, i as int) is None,
        },
{
    let start = if i < s.len() && s[i] == 0x2d {
        i + 1
    } else {
        i
    };
    let j = match parse_uint(s, start) {
        Some((_m, j)) => j,
        None => return None,
    };
    let j2 = if j < s.len() && s[j] == 0x2e {
        let (_m, e) = digits(s, j + 1, 0, Ghost(0nat));
        if e > j + 1 {
            e
        } else {
            return None;
        }
    } else {
        j
    };
    let j3 = if j2 < s.len() && (s[j2] == 0x65 || s[j2] == 0x45) {
        let k = if j2 + 1 < s.len() && (s[j2 + 1] == 0x2b || s[j2 + 1] == 0x2d) {
            j2 + 2
        } else {
            j2 + 1
        };
        let (_m, e) = digits(s, k, 0, Ghost(0nat));
        if e > k {
            e
        } else {
            return None;
        }
    } else {
        j2
    };
    Some(j3)
}

fn skip_value(s: &Vec<u8>, i: usize) -> (r: Option<usize>)
    requires
        i <= s@.len(),
    ensures
        match r {
            Some(j) => spec_skip_value(s@, i as int) == Some(j as int) && j <= s@.len(),
            None => spec_skip_value(s@, i as int) is None,
        },
    decreases s@.len() - i, 0int,
{
    if i >= s.len() {
        None
    } else if s[i] == 0x22 {
        match parse_string(s, i) {
            Some((_v, j)) => Some(j),
            None => None,
        }
    } else if s[i] == 0x2d || (0x30 <= s[i] && s[i] <= 0x39) {
        skip_number(s, i)
    } else if s[i] == 0x74 {
        if s.len() - i >= 4 && s[i + 1] == 0x72 && s[i + 2] == 0x75 && s[i + 3] == 0x65 {
            Some(i + 4)
        } else {
            None
        }
    } else if s[i] == 0x66 {
        if s.len() - i >= 5 && s[i + 1] == 0x61 && s[i + 2] == 0x6c && s[i + 3] == 0x73 && s[i + 4]
            == 0x65 {
            Some(i + 5)
        } else {
            None
        }
    } else if s[i] == 0x6e {
        if s.len() - i >= 4 && s[i + 1] == 0x75 && s[i + 2] == 0x6c && s[i + 3] == 0x6c {
            Some(i + 4)
        } else {
            None
        }
    } else if s[i] == 0x7b {
        let k = skip_ws(s, i + 1);
        if k < s.len() && s[k] == 0x7d {
            Some(k + 1)
        } else {
            skip_members(s, i + 1)
        }
    } else if s[i] == 0x5b {
        let k = skip_ws(s, i + 1);
        if k < s.len() && s[k] == 0x5d {
            Some(k + 1)
        } else {
            skip_elems(s, i + 1)
        }
    } else {
        None
    }
}

fn skip_members(s: &Vec<u8>, i: usize) -> (r: Option<usize>)
    requires
        i <= s@.len(),
    ensures
        match r {
            Some(j) => spec_skip_members(s@, i as int) == Some(j as int) && j <= s@.len(),
            None => spec_skip_members(s@, i as int) is None,
        },
    decreases s@.len() - i, 1int,
{
    match member_key(s, i) {
        None => None,
        Some((_key, j)) => {
            proof {
                lemma_member_key(s@, i as int);
            }
            let v = skip_ws(s, j);
            match skip_value(s, v) {
                None => None,
                Some(j2) => if v < j2 {
                    let k = skip_ws(s, j2);
                    if k < s.len() && s[k] == 0x2c {
                        skip_members(s, k + 1)
                    } else if k < s.len() && s[k] == 0x7d {
                        Some(k + 1)
                    } else {
                        None
                    }
                } else {
                    None
                },
            }
        },
    }
}

fn skip_elems(s: &Vec<u8>, i: usize) -> (r: Option<usize>)
    requires
        i <= s@.len(),
    ensures
        match r {
            Some(j) => spec_skip_elems(s@, i as int) == Some(j as int) && j <= s@.len(),
            None => spec_skip_elems(s@, i as int) is None,
        },
    decreases s@.len() - i, 1int,
{
    let v = skip_ws(s, i);
    match skip_value(s, v) {
        None => None,
        Some(j2) => if v < j2 {
            let k = skip_ws(s, j2);
            if k < s.len() && s[k] == 0x2c {
                skip_elems(s, k + 1)
            } else if k < s.len() && s[k] == 0x5d {
                Some(k + 1)
            } else {
                None
            }
        } else {
            None
        },
    }
}

/// A record object in the middle of decoding, executable side.
pub struct RecPart {
    pub id: Option<Vec<u8>>,
    pub name: Option<Vec<u8>>,
    pub amount: Option<u16>,
    pub collection_id: Option<Vec<u8>>,
    pub collection_name: Option<Vec<u8>>,
    pub updated: Option<Vec<u8>>,
    pub created: Option<Vec<u8>>,
}

impl View for RecPart {
    type V = RecPartV;

    open spec fn view(&self) -> RecPartV {
        RecPartV {
            id: match self.id {
                Some(v) => Some(v@),
                None => None,
            },
            name: match self.name {
                Some(v) => Some(v@),
                None => None,
            },
            amount: self.amount,
            collection_id: match self.collection_id {
                Some(v) => Some(v@),
                None => None,
            },
            collection_name: match self.collection_name {
                Some(v) => Some(v@),
                None => None,
            },
            updated: match self.updated {
                Some(v) => Some(v@),
                None => None,
            },
            created: match self.created {
                Some(v) => Some(v@),
                None => None,
            },
        }
    }
}

fn rec_value(s: &Vec<u8>, v: usize, key: &Vec<u8>, acc: RecPart) -> (r: Option<(RecPart, usize)>)
    requires
        v <= s@.len(),
    ensures
        match r {
            Some((a2, j)) => spec_rec_value(s@, v as int, key@, acc@) == Some((a2@, j as int))
                && j <= s@.len(),
            None => spec_rec_value(s@, v as int, key@, acc@) is None,
        },
{
    if bytes_eq(key, &key_id_v()) {
        if acc.id.is_some() {
            return None;
        }
        match parse_string(s, v) {
            Some((x, j)) => Some((RecPart { id: Some(x), ..acc }, j)),
            None => None,
        }
    } else if bytes_eq(key, &key_name_v()) {
        if acc.name.is_some() {
            return None;
        }
        match parse_string(s, v) {
            Some((x, j)) => Some((RecPart { name: Some(x), ..acc }, j)),
            None => None,
        }
    } else if bytes_eq(key, &key_amount_v()) {
        if acc.amount.is_some() {
            return None;
        }
        match parse_u16(s, v) {
            Some((x, j)) => Some((RecPart { amount: Some(x), ..acc }, j)),
            None => None,
        }
    } else if bytes_eq(key, &key_collection_id_v()) {
        if acc.collection_id.is_some() {
            return None;
        }
        match parse_string(s, v) {
            Some((x, j)) => Some((RecPart { collection_id: Some(x), ..acc }, j)),
            None => None,
        }
    } else if bytes_eq(key, &key_collection_name_v()) {
        if acc.collection_name.is_some() {
            return None;
        }
        match parse_string(s, v) {
            Some((x, j)) => Some((RecPart { collection_name: Some(x), ..acc }, j)),
            None => None,
        }
    } else if bytes_eq(key, &key_updated_v()) {
        if acc.updated.is_some() {
            return None;
        }
        match parse_string(s, v) {
            Some((x, j)) => Some((RecPart { updated: Some(x), ..acc }, j)),
            None => None,
        }
    } else if bytes_eq(key, &key_created_v()) {
        if acc.created.is_some() {
            return None;
        }
        match parse_string(s, v) {
            Some((x, j)) => Some((RecPart { created: Some(x), ..acc }, j)),
            None => None,
        }
    } else {
        match skip_value(s, v) {
            Some(j) => if v < j {
                Some((acc, j))
            } else {
                None
            },
            None => None,
        }
    }
}

fn rec_members(s: &Vec<u8>, i: usize, acc: RecPart) -> (r: Option<(RecPart, usize)>)
    requires
        i <= s@.len(),
    ensures
        match r {
            Some((p, j)) => spec_rec_members(s@, i as int, acc@) == Some((p@, j as int)) && j
                <= s@.len(),
            None => spec_rec_members(s@, i as int, acc@) is None,
        },
    decreases s@.len() - i,
{
    match member_key(s, i) {
        None => None,
        Some((key, j)) => {
            proof {
                lemma_member_key(s@, i as int);
            }
            let v = skip_ws(s, j);
            let ghost gacc = acc@;
            match rec_value(s, v, &key, acc) {
                None => None,
                Some((acc2, j2)) => {
                    proof {
                        lemma_rec_value(s@, v as int, key@, gacc);
                    }
                    let k = skip_ws(s, j2);
                    if k < s.len() && s[k] == 0x2c {
                        rec_members(s, k + 1, acc2)
                    } else if k < s.len() && s[k] == 0x7d {
                        Some((acc2, k + 1))
                    } else {
                        None
                    }
                },
            }
        },
    }
}

fn parse_record(s: &Vec<u8>, i: usize) -> (r: Option<(ExpenseRecord, usize)>)
    requires
        i <= s@.len(),
    ensures
        match r {
            Some((rec, j)) => spec_parse_record(s@, i as int) == Some((rec@, j as int)) && j
                <= s@.len(),
            None => spec_parse_record(s@, i as int) is None,
        },
{
    let j = match expect_byte(s, i, 0x7b) {
        Some(j) => j,
        None => return None,
    };
    let start = RecPart {
        id: None,
        name: None,
        amount: None,
        collection_id: None,
        collection_name: None,
        updated: None,
        created: None,
    };
    let (p, j2) = match rec_members(s, j, start) {
        Some(x) => x,
        None => return None,
    };
    let id = match p.id {
        Some(x) => x,
        None => return None,
    };
    let name = match p.name {
        Some(x) => x,
        None => return None,
    };
    let amount = match p.amount {
        Some(x) => x,
        None => return None,
    };
    let collection_id = match p.collection_id {
        Some(x) => x,
        None => return None,
    };
    let collection_name = match p.collection_name {
        Some(x) => x,
        None => return None,
    };
    let updated = match p.updated {
        Some(x) => x,
        None => return None,
    };
    let created = match p.created {
        Some(x) => x,
        None => return None,
    };
    Some(
        (
            ExpenseRecord { id, name, amount, collection_id, collection_name, updated, created },
            j2,
        ),
    )
}

fn parse_records(s: &Vec<u8>, i: usize, acc: Vec<ExpenseRecord>) -> (r: Option<
    (Vec<ExpenseRecord>, usize),
>)
    requires
        i <= s@.len(),
    ensures
        ({
            let g = spec_records(s@, i as int, acc@.map_values(|x: ExpenseRecord| x@));
            match r {
                None => g is None,
                Some((v, j)) => g == Some((v@.map_values(|x: ExpenseRecord| x@), j as int)) && j
                    <= s@.len(),
            }
        }),
    decreases s@.len() - i,
{
    let w = skip_ws(s, i);
    match parse_record(s, w) {
        None => None,
        Some((rec, j)) => {
            proof {
                lemma_parse_record(s@, w as int);
            }
            let k = skip_ws(s, j);
            if k < s.len() && s[k] == 0x2c {
                let mut acc2 = acc;
                acc2.push(rec);
                proof {
                    assert(acc2@.map_values(|x: ExpenseRecord| x@) =~= acc@.map_values(
                        |x: ExpenseRecord| x@,
                    ).push(rec@));
                }
                parse_records(s, k + 1, acc2)
            } else if k < s.len() && s[k] == 0x5d {
                let mut acc2 = acc;
                acc2.push(rec);
                proof {
                    assert(acc2@.map_values(|x: ExpenseRecord| x@) =~= acc@.map_values(
                        |x: ExpenseRecord| x@,
                    ).push(rec@));
                }
                Some((acc2, k + 1))
            } else {
                None
            }
        },
    }
}

fn parse_items(s: &Vec<u8>, i: usize) -> (r: Option<(Vec<ExpenseRecord>, usize)>)
    requires
        i <= s@.len(),
    ensures
        ({
            let g = spec_parse_items(s@, i as int);
            match r {
                None => g is None,
                Some((v, j)) => g == Some((v@.map_values(|x: ExpenseRecord| x@), j as int)) && j
                    <= s@.len(),
            }
        }),
{
    let w = skip_ws(s, i);
    match expect_byte(s, w, 0x5b) {
        None => None,
        Some(j) => {
            let k = skip_ws(s, j);
            if k < s.len() && s[k] == 0x5d {
                let out: Vec<ExpenseRecord> = Vec::new();
                proof {
                    assert(out@.map_values(|x: ExpenseRecord| x@) =~= Seq::<
                        ExpenseRecordV,
                    >::empty());
                }
                Some((out, k + 1))
            } else {
                let out: Vec<ExpenseRecord> = Vec::new();
                proof {
                    assert(out@.map_values(|x: ExpenseRecord| x@) =~= Seq::<
                        ExpenseRecordV,
                    >::empty());
                }
                parse_records(s, j, out)
            }
        },
    }
}

/// The envelope in the middle of decoding, executable side.
pub struct EnvPart {
    pub page: Option<u32>,
    pub per_page: Option<u32>,
    pub total_pages: Option<u32>,
    pub total_items: Option<u32>,
    pub items: Option<Vec<ExpenseRecord>>,
}

impl View for EnvPart {
    type V = EnvPartV;

    open spec fn view(&self) -> EnvPartV {
        EnvPartV {
            page: self.page,
            per_page: self.per_page,
            total_pages: self.total_pages,
            total_items: self.total_items,
            items: match self.items {
                Some(v) => Some(v@.map_values(|x: ExpenseRecord| x@)),
                None => None,
            },
        }
    }
}

fn env_value(s: &Vec<u8>, v: usize, key: &Vec<u8>, acc: EnvPart) -> (r: Option<(EnvPart, usize)>)
    requires
        v <= s@.len(),
    ensures
        match r {
            Some((a2, j)) => spec_env_value(s@, v as int, key@, acc@) == Some((a2@, j as int))
                && j <= s@.len(),
            None => spec_env_value(s@, v as int, key@, acc@) is None,
        },
{
    if bytes_eq(key, &key_page_v()) {
        if acc.page.is_some() {
            return None;
        }
        match parse_u32(s, v) {
            Some((x, j)) => Some((EnvPart { page: Some(x), ..acc }, j)),
            None => None,
        }
    } else if bytes_eq(key, &key_per_page_v()) {
        if acc.per_page.is_some() {
            return None;
        }
        match parse_u32(s, v) {
            Some((x, j)) => Some((EnvPart { per_page: Some(x), ..acc }, j)),
            None => None,
        }
    } else if bytes_eq(key, &key_total_pages_v()) {
        if acc.total_pages.is_some() {
            return None;
        }
        match parse_u32(s, v) {
            Some((x, j)) => Some((EnvPart { total_pages: Some(x), ..acc }, j)),
            None => None,
        }
    } else if bytes_eq(key, &key_total_items_v()) {
        if acc.total_items.is_some() {
            return None;
        }
        match parse_u32(s, v) {
            Some((x, j)) => Some((EnvPart { total_items: Some(x), ..acc }, j)),
            None => None,
        }
    } else if bytes_eq(key, &key_items_v()) {
        if acc.items.is_some() {
            return None;
        }
        match parse_items(s, v) {
            Some((x, j)) => Some((EnvPart { items: Some(x), ..acc }, j)),
            None => None,
        }
    } else {
        match skip_value(s, v) {
            Some(j) => if v < j {
                Some((acc, j))
            } else {
                None
            },
            None => None,
        }
    }
}

fn env_members(s: &Vec<u8>, i: usize, acc: EnvPart) -> (r: Option<(EnvPart, usize)>)
    requires
        i <= s@.len(),
    ensures
        match r {
            Some((p, j)) => spec_env_members(s@, i as int, acc@) == Some((p@, j as int)) && j
                <= s@.len(),
            None => spec_env_members(s@, i as int, acc@) is None,
        },
    decreases s@.len() - i,
{
    match member_key(s, i) {
        None => None,
        Some((key, j)) => {
            proof {
                lemma_member_key(s@, i as int);
            }
            let v = skip_ws(s, j);
            let ghost gacc = acc@;
            match env_value(s, v, &key, acc) {
                None => None,
                Some((acc2, j2)) => {
                    proof {
                        lemma_env_value(s@, v as int, key@, gacc);
                    }
                    let k = skip_ws(s, j2);
                    if k < s.len() && s[k] == 0x2c {
                        env_members(s, k + 1, acc2)
                    } else if k < s.len() && s[k] == 0x7d {
                        Some((acc2, k + 1))
                    } else {
                        None
                    }
                },
            }
        },
    }
}

/// Decodes a response body. Returns the envelope exactly when the body is a
/// text of the grammar above (`spec_parse_response`), and then returns the
/// envelope that the grammar assigns to it; returns `None` on any other body.
pub fn decode_response(body: &Vec<u8>) -> (r: Option<PaginatedResponse>)
    ensures
        r is Some <==> spec_parse_response(body@) is Some,
        r matches Some(resp) ==> spec_parse_response(body@) == Some(resp@),
{
    let s = body;
    let w = skip_ws(s, 0);
    let j = match expect_byte(s, w, 0x7b) {
        Some(j) => j,
        None => return None,
    };
    let start = EnvPart { page: None, per_page: None, total_pages: None, total_items: None, items: None };
    let (p, j2) = match env_members(s, j, start) {
        Some(x) => x,
        None => return None,
    };
    let page = match p.page {
        Some(x) => x,
        None => return None,
    };
    let per_page = match p.per_page {
        Some(x) => x,
        None => return None,
    };
    let total_pages = match p.total_pages {
        Some(x) => x,
        None => return None,
    };
    let total_items = match p.total_items {
        Some(x) => x,
        None => return None,
    };
    let items = match p.items {
        Some(x) => x,
        None => return None,
    };
    let e = skip_ws(s, j2);
    if e == s.len() {
        Some(PaginatedResponse { page, per_page, total_pages, total_items, items })
    } else {
        None
    }
}

/// Law: a 16-bit amount is decoded exactly, never truncated. Where the
/// decoder yields a value, it is the mathematical value of the digits; where
/// the digits denote more than `u16::MAX`, the decode fails.
pub proof fn lemma_amount_exact(s: Seq<u8>, i: int)
    ensures
        spec_parse_u16(s, i) matches Some((v, j)) ==> spec_parse_uint(s, i) == Some((v as nat, j)),
        spec_parse_uint(s, i) matches Some((n, j)) && n > u16::MAX ==> spec_parse_u16(s, i) is None,
{
}

} // verus!
