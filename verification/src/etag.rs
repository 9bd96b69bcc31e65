//! ETags for the REST API: the abridged address, the ETag text of a response
//! (strong for immutable data, weak for the most recent version of versioned
//! data), and the `If-None-Match` decision for immutable data.

use std::hash::{DefaultHasher, Hasher};
use vstd::prelude::*;
use vstd::std_specs::hash::DefaultHasherAdditionalSpecFns;
use vstd::string::*;
use vstd::utf8::*;
use crate::text::{chars_of, decimal, decimal_u64, push_chars, push_str, string_of};

verus! {

/// Length of the abridged data address part of an ETag (in bytes).
pub const ETAG_ADDRESS_LEN: usize = 10;

/// An entity tag: its opaque text and whether it is a weak validator.
#[derive(Clone, Debug)]
pub struct EntityTagValue {
    pub tag: String,
    pub weak: bool,
}

/// The address text that an abridged ETag address is cut from: the datamap
/// chunk if given, else the data address if given, else `unknown`.
pub open spec fn chosen_address(datamap_chunk: Seq<char>, data_address: Seq<char>) -> Seq<char> {
    if datamap_chunk.len() > 0 {
        datamap_chunk
    } else if data_address.len() > 0 {
        data_address
    } else {
        "unknown"@
    }
}

/// The abridged form of `s`: `s` itself when its UTF-8 encoding has at most
/// `ETAG_ADDRESS_LEN` bytes, else the text whose encoding is its first
/// `ETAG_ADDRESS_LEN` bytes.
pub open spec fn abridged(s: Seq<char>) -> Seq<char> {
    if encode_utf8(s).len() <= ETAG_ADDRESS_LEN {
        s
    } else {
        decode_utf8(encode_utf8(s).subrange(0, ETAG_ADDRESS_LEN as int))
    }
}

/// `s` can be abridged: its encoding has at most `ETAG_ADDRESS_LEN` bytes, or
/// its first `ETAG_ADDRESS_LEN` bytes end on a character boundary.
pub open spec fn can_abridge(s: Seq<char>) -> bool {
    encode_utf8(s).len() <= ETAG_ADDRESS_LEN || is_char_boundary(
        encode_utf8(s),
        ETAG_ADDRESS_LEN as int,
    )
}

fn abridge(s: String) -> (r: String)
    requires
        can_abridge(s@),
    ensures
        r@ == abridged(s@),
{
    proof {
        broadcast use vstd::utf8::encode_utf8_decode_utf8;
        broadcast use vstd::utf8::encode_utf8_valid_utf8;
    }
    if s.as_str().is_char_boundary(ETAG_ADDRESS_LEN) {
        let (head, _) = s.as_str().split_at(ETAG_ADDRESS_LEN);
        let r = head.to_string();
        proof {
            assert(encode_utf8(r@) == encode_utf8(s@).subrange(0, ETAG_ADDRESS_LEN as int));
            assert(decode_utf8(encode_utf8(r@)) == r@);
            if encode_utf8(s@).len() == ETAG_ADDRESS_LEN {
                assert(encode_utf8(s@).subrange(0, ETAG_ADDRESS_LEN as int) =~= encode_utf8(s@));
            }
        }
        r
    } else {
        s
    }
}

/// Return an abridged address string for use building an ETag value, based on
/// either a datamap_chunk or data_address (hexadecimal texts).
pub fn address_from_strings(datamap_chunk: String, data_address: String) -> (r: String)
    requires
        can_abridge(chosen_address(datamap_chunk@, data_address@)),
    ensures
        r@ == abridged(chosen_address(datamap_chunk@, data_address@)),
{
    let address_string = if !datamap_chunk.as_str().is_empty() {
        datamap_chunk
    } else if !data_address.as_str().is_empty() {
        data_address
    } else {
        "unknown".to_string()
    };
    abridge(address_string)
}

/// The address text for an optional datamap chunk and data address (each as
/// its hexadecimal text): the datamap chunk if present, else the data address
/// if present, else `unknown`.
pub open spec fn chosen_address_opt(datamap_chunk: Option<Seq<char>>, data_address: Option<Seq<char>>) -> Seq<char> {
    match datamap_chunk {
        Some(d) => d,
        None => match data_address {
            Some(a) => a,
            None => "unknown"@,
        },
    }
}

/// Return an abridged address string for use building an ETag value, based on
/// either a datamap chunk or a data address (each given as its hexadecimal
/// text).
pub fn address(datamap_chunk: Option<String>, data_address: Option<String>) -> (r: String)
    requires
        can_abridge(
            chosen_address_opt(
                match datamap_chunk {
                    Some(d) => Some(d@),
                    None => None,
                },
                match data_address {
                    Some(a) => Some(a@),
                    None => None,
                },
            ),
        ),
    ensures
        r@ == abridged(
            chosen_address_opt(
                match datamap_chunk {
                    Some(d) => Some(d@),
                    None => None,
                },
                match data_address {
                    Some(a) => Some(a@),
                    None => None,
                },
            ),
        ),
{
    let address_string = match datamap_chunk {
        Some(d) => d,
        None => match data_address {
            Some(a) => a,
            None => "unknown".to_string(),
        },
    };
    abridge(address_string)
}

/// An ASCII text (such as a hexadecimal address) can always be abridged: to
/// its first `ETAG_ADDRESS_LEN` characters when it is longer, else whole.
pub proof fn abridged_ascii(s: Seq<char>)
    requires
        is_ascii_chars(s),
    ensures
        can_abridge(s),
        abridged(s) == (if s.len() <= ETAG_ADDRESS_LEN {
            s
        } else {
            s.take(ETAG_ADDRESS_LEN as int)
        }),
{
    broadcast use vstd::utf8::encode_utf8_decode_utf8;
    broadcast use vstd::utf8::encode_utf8_valid_utf8;
    broadcast use vstd::utf8::is_char_boundary_iff_not_is_continuation_byte;
    let n = ETAG_ADDRESS_LEN as int;
    is_ascii_chars_encode_utf8(s);
    if s.len() > n {
        let t = s.take(n);
        let u = s.skip(n);
        assert(s =~= t + u);
        assert(is_ascii_chars(t)) by {
            assert forall|i: int| 0 <= i < t.len() implies #[trigger] t[i] <= '\x7f' by {
                assert(t[i] == s[i]);
            }
        }
        is_ascii_chars_encode_utf8(t);
        let bs = encode_utf8(s);
        assert(bs[n] == s[n] as u8);
        assert(!is_continuation_byte(bs[n])) by {
            assert(s[n] <= '\x7f');
            vstd::utf8::char_u32_cast(s[n], s[n] as u32);
        }
        assert(bs.subrange(0, n) =~= encode_utf8(t));
    }
}

/// The ETag text of a response:
///
///     {mutable-|immutable-}{address}-[version-{N}{-latest|-actual}][-{content type}]
///
/// `mutable-` (and `-latest`) when the most recent version was requested,
/// `immutable-` (and `-actual`) otherwise. The version part is present only
/// for versioned data (a missing version gives an empty number).
pub open spec fn etag_text_spec(
    etag_address: Seq<char>,
    is_versioned: bool,
    actual_version: Option<u32>,
    most_recent: bool,
    content_type: Option<Seq<char>>,
) -> Seq<char> {
    let type_string = match content_type {
        Some(t) => seq!['-'] + t,
        None => Seq::empty(),
    };
    let version_string = if is_versioned {
        let v = match actual_version {
            Some(n) => decimal(n as nat),
            None => Seq::empty(),
        };
        let q = if most_recent { "-latest"@ } else { "-actual"@ };
        "version-"@ + v + q
    } else {
        Seq::empty()
    };
    let mutability = if most_recent { "mutable-"@ } else { "immutable-"@ };
    mutability + etag_address + seq!['-'] + version_string + type_string
}

/// The ETag that a response for fixed or versioned data carries: a weak
/// validator when the most recent version was requested (the data may
/// change), a strong one otherwise (the data is immutable).
///
/// `content_type` is the text of the response's content type, if it has one.
pub fn response_etag(
    etag_address: &String,
    is_versioned: bool,
    actual_version: Option<u32>,
    most_recent: bool,
    content_type: Option<&String>,
) -> (r: EntityTagValue)
    ensures
        r.weak == most_recent,
        r.tag@ == etag_text_spec(
            etag_address@,
            is_versioned,
            actual_version,
            most_recent,
            match content_type {
                Some(t) => Some(t@),
                None => None,
            },
        ),
{
    let mut v: Vec<char> = Vec::new();
    if most_recent {
        push_str(&mut v, "mutable-");
    } else {
        push_str(&mut v, "immutable-");
    }
    push_str(&mut v, etag_address.as_str());
    v.push('-');
    let ghost head = v@;
    let mut version_string: Vec<char> = Vec::new();
    if is_versioned {
        push_str(&mut version_string, "version-");
        match actual_version {
            Some(n) => {
                let d = decimal_u64(n as u64);
                push_chars(&mut version_string, &d);
            },
            None => {},
        }
        if most_recent {
            push_str(&mut version_string, "-latest");
        } else {
            push_str(&mut version_string, "-actual");
        }
    }
    let mut type_string: Vec<char> = Vec::new();
    match content_type {
        Some(t) => {
            type_string.push('-');
            push_str(&mut type_string, t.as_str());
        },
        None => {},
    }
    push_chars(&mut v, &version_string);
    push_chars(&mut v, &type_string);
    proof {
        let ct = match content_type {
            Some(t) => Some(t@),
            None => None,
        };
        let ts = match ct {
            Some(t) => seq!['-'] + t,
            None => Seq::<char>::empty(),
        };
        assert(type_string@ =~= ts);
        if is_versioned {
            let vv = match actual_version {
                Some(n) => decimal(n as nat),
                None => Seq::<char>::empty(),
            };
            let q = if most_recent { "-latest"@ } else { "-actual"@ };
            assert(version_string@ =~= "version-"@ + vv + q);
        } else {
            assert(version_string@ =~= Seq::<char>::empty());
        }
    }
    EntityTagValue { tag: string_of(&v), weak: most_recent }
}

/// The strong ETag of a data address: its hexadecimal text.
pub fn etag_for_address(data_address_hex: &String) -> (r: EntityTagValue)
    ensures
        r.tag@ == data_address_hex@,
        !r.weak,
{
    EntityTagValue { tag: data_address_hex.clone(), weak: false }
}

/// The lower-case hexadecimal digit of a value below sixteen.
pub open spec fn hex_digit_char(d: nat) -> char {
    if d < 10 {
        (d + '0' as int) as char
    } else {
        (d - 10 + 'a' as int) as char
    }
}

/// The shortest lower-case hexadecimal representation of `n`.
pub open spec fn lower_hex(n: nat) -> Seq<char>
    decreases n,
{
    if n < 16 {
        seq![hex_digit_char(n)]
    } else {
        lower_hex(n / 16).push(hex_digit_char(n % 16))
    }
}

fn hex_char_of(d: u64) -> (c: char)
    requires
        d < 16,
    ensures
        c == hex_digit_char(d as nat),
{
    if d == 0 { '0' } else if d == 1 { '1' } else if d == 2 { '2' } else if d == 3 { '3' }
    else if d == 4 { '4' } else if d == 5 { '5' } else if d == 6 { '6' } else if d == 7 { '7' }
    else if d == 8 { '8' } else if d == 9 { '9' } else if d == 10 { 'a' } else if d == 11 { 'b' }
    else if d == 12 { 'c' } else if d == 13 { 'd' } else if d == 14 { 'e' } else { 'f' }
}

fn lower_hex_u64(n: u64) -> (r: Vec<char>)
    ensures
        r@ == lower_hex(n as nat),
    decreases n,
{
    if n < 16 {
        let mut r: Vec<char> = Vec::new();
        r.push(hex_char_of(n));
        assert(r@ =~= lower_hex(n as nat));
        r
    } else {
        let mut r = lower_hex_u64(n / 16);
        r.push(hex_char_of(n % 16));
        r
    }
}

/// The text of `format!("{:x}", n)`: the shortest lower-case hexadecimal
/// representation of `n`.
pub fn format_hex(n: u64) -> (r: String)
    ensures
        r@ == lower_hex(n as nat),
{
    let digits = lower_hex_u64(n);
    string_of(&digits)
}

/// The strong ETag of a datamap chunk: the `DefaultHasher` hash of its
/// hexadecimal text, in lower-case hexadecimal. (A tag may not hold spaces,
/// so the hash is written without padding.)
pub fn etag_for_datamap_chunk(datamap_chunk_hex: &String) -> (r: EntityTagValue)
    ensures
        !r.weak,
        r.tag@ == lower_hex(
            DefaultHasher::spec_finish(seq![encode_utf8(datamap_chunk_hex@)]) as nat,
        ),
{
    let mut hasher = DefaultHasher::new();
    hasher.write(datamap_chunk_hex.as_str().as_bytes());
    let hash = hasher.finish();
    EntityTagValue { tag: format_hex(hash), weak: false }
}

/// HTTP's "visible ASCII" (what a header value must hold to be read as
/// text): a printable ASCII byte or a tab.
pub open spec fn is_visible_ascii(b: u8) -> bool {
    (32 <= b && b < 127) || b == 9
}

/// An `If-None-Match` header value that reads as text and is exactly `*`.
pub open spec fn is_star(value: Seq<u8>) -> bool {
    value.len() == 1 && value[0] == 42
}

/// The rfc7232 `If-None-Match` condition for immutable data: `true` (go
/// ahead) when the header is absent, not readable as text, or `*`; `false`
/// when the client holds any ETag for the data, which as immutable data it
/// then has unmodified.
pub open spec fn immutable_if_none_match_spec(if_none_match: Option<Seq<u8>>) -> bool {
    match if_none_match {
        None => true,
        Some(v) => if forall|i: int| 0 <= i < v.len() ==> is_visible_ascii(#[trigger] v[i]) {
            is_star(v)
        } else {
            true
        },
    }
}

/// Check for and handle a conditional If-None-Match for immutable data
/// (`if_none_match` holds the header's value, if present).
///
/// Returns `true` when the operation should go ahead, and `false` when it
/// should be prevented with 304 (Not Modified) or 412 (Precondition Failed).
pub fn immutable_if_none_match(if_none_match: Option<&[u8]>) -> (r: bool)
    ensures
        r == immutable_if_none_match_spec(
            match if_none_match {
                Some(v) => Some(v@),
                None => None,
            },
        ),
{
    match if_none_match {
        None => true,
        Some(v) => {
            let mut i: usize = 0;
            while i < v.len()
                invariant
                    i <= v.len(),
                    if_none_match == Some(v),
                    forall|j: int| 0 <= j < i ==> is_visible_ascii(#[trigger] v@[j]),
                decreases v.len() - i,
            {
                let b = v[i];
                if !((32 <= b && b < 127) || b == 9) {
                    assert(!is_visible_ascii(v@[i as int]));
                    assert(!(forall|j: int| 0 <= j < v@.len() ==> is_visible_ascii(#[trigger] v@[j])));
                    return true;
                }
                i = i + 1;
            }
            v.len() == 1 && v[0] == 42
        },
    }
}

/// The HTTP methods for which a failed `If-None-Match` answers 304 (Not Modified).
pub open spec fn is_get_or_head(method: Seq<char>) -> bool {
    method == "GET"@ || method == "HEAD"@
}

/// Handle conditional headers for an immutable request: `None` if the
/// operation should proceed, or the status of the response that pre-empts
/// it: 304 (Not Modified) for GET and HEAD, 412 (Precondition Failed) for
/// any other method.
pub fn immutable_conditional_response(method: &str, if_none_match: Option<&[u8]>) -> (r: Option<u16>)
    ensures
        r == (if immutable_if_none_match_spec(
            match if_none_match {
                Some(v) => Some(v@),
                None => None,
            },
        ) {
            None
        } else if is_get_or_head(method@) {
            Some(304u16)
        } else {
            Some(412u16)
        }),
{
    if immutable_if_none_match(if_none_match) {
        return None;
    }
    let m = chars_of(method);
    let get = chars_of("GET");
    let head = chars_of("HEAD");
    if crate::text::chars_eq(&m, &get) || crate::text::chars_eq(&m, &head) {
        Some(304)
    } else {
        Some(412)
    }
}

} // verus!
