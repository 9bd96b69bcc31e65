//! dweb URL paths: version strings (`v[<N>]`), the path parameters of the
//! `/dweb-open`, `/dweb-open-as` and `/dweb-link` routes, and the URLs that the
//! `open` command builds for them.

use vstd::prelude::*;
use vstd::string::*;
use crate::text::{
    chars_of, decimal, decimal_u64, lacks, lemma_decimal, lemma_find_char_none,
    lemma_parse_decimal_u32, lemma_split_once_concat, parse_u32, parse_u32_spec, push_chars,
    push_str, slice_from, split_once, split_once_spec, string_of,
};

verus! {

/// The `as_name` given when no DWEB-NAME is to be registered.
pub const AS_NAME_NONE: &'static str = "anonymous";

/// A version string that is not of the form `v[<u32>]`; holds the text.
pub struct InvalidVersion {
    pub text: String,
}

/// Path parameters that fit none of the accepted layouts; holds the text.
pub struct InvalidParams {
    pub text: String,
}

/// What a version string denotes: `None` when it is not a version string,
/// `Some(None)` for a bare `v` (most recent), `Some(Some(n))` for `v<n>`.
///
/// A version string is `v` or `V` followed by nothing or by text that
/// `u32::from_str` accepts.
pub open spec fn version_spec(s: Seq<char>) -> Option<Option<u32>> {
    if s.len() > 0 && (s[0] == 'v' || s[0] == 'V') {
        let rest = s.drop_first();
        if rest.len() == 0 {
            Some(None)
        } else {
            match parse_u32_spec(rest) {
                Some(n) => Some(Some(n)),
                None => None,
            }
        }
    } else {
        None
    }
}

/// Splits at the first `/`; without one, everything is the first part.
pub open spec fn split_or_all(s: Seq<char>) -> (Seq<char>, Seq<char>) {
    match split_once_spec(s, '/') {
        Some(p) => p,
        None => (s, Seq::empty()),
    }
}

/// `[v{version}/]{address_or_name}[/{remote_path}]`: the version, the
/// address or name, and the remote path.
pub open spec fn versioned_params_spec(p: Seq<char>) -> (Option<u32>, Seq<char>, Seq<char>) {
    let (first, first_rest) = split_or_all(p);
    let (second, second_rest) = split_or_all(first_rest);
    match version_spec(first) {
        Some(v) => (v, second, second_rest),
        None => (None, first, first_rest),
    }
}

/// `[v{version}/]{as_name}/{address_or_name}[/{remote_path}]`, where
/// `first_is_name` and `second_is_name` say whether the first and the second
/// segment are valid DWEB-NAMEs. The `as_name` must be a DWEB-NAME or
/// `anonymous`: `None` when it is not, or when the first segment is neither a
/// version nor such an `as_name`.
pub open spec fn as_name_params_spec(p: Seq<char>, first_is_name: bool, second_is_name: bool) -> Option<
    (Option<u32>, Seq<char>, Seq<char>, Seq<char>),
> {
    let (first, first_rest) = split_or_all(p);
    let (second, second_rest) = split_or_all(first_rest);
    let (third, third_rest) = split_or_all(second_rest);
    match version_spec(first) {
        Some(v) => if second_is_name || second == AS_NAME_NONE@ {
            Some((v, second, third, third_rest))
        } else {
            None
        },
        None => if first_is_name || first == AS_NAME_NONE@ {
            Some((None, first, second, second_rest))
        } else {
            None
        },
    }
}

/// `[v{version}/]{address_or_name}{remote_path}` of a DWEB-LINK, where
/// `first_is_name` says whether the first segment is a valid DWEB-NAME (which
/// is checked before the version, as a DWEB-NAME cannot be one). A first
/// segment that is neither is the address. `None` when the address or name
/// comes out empty.
pub open spec fn dweb_link_params_spec(p: Seq<char>, first_is_name: bool) -> Option<
    (Option<u32>, Seq<char>, Seq<char>),
> {
    let (first, first_rest) = split_or_all(p);
    let (second, second_rest) = split_or_all(first_rest);
    let parsed: (Option<u32>, Seq<char>, Seq<char>) = if first_is_name {
        (None, first, first_rest)
    } else {
        match version_spec(first) {
            Some(v) => (v, second, second_rest),
            None => (None, first, first_rest),
        }
    };
    if parsed.1.len() > 0 {
        Some(parsed)
    } else {
        None
    }
}

/// Parse a string and if valid return an `Option<u32>`.
///
/// Valid version strings consist of a 'v' (or 'V') followed by an optional
/// integer: `v[<VERSION>]`, where VERSION is a u32.
pub fn parse_version_string(version_str: &str) -> (r: Result<Option<u32>, InvalidVersion>)
    ensures
        match r {
            Ok(v) => version_spec(version_str@) == Some(v),
            Err(e) => version_spec(version_str@) is None && e.text@ == version_str@,
        },
{
    let cs = chars_of(version_str);
    match version_of_chars(&cs) {
        Some(v) => Ok(v),
        None => Err(InvalidVersion { text: string_of(&cs) }),
    }
}

/// `parse_version_string` on characters.
pub fn version_of_chars(s: &[char]) -> (r: Option<Option<u32>>)
    ensures
        r == version_spec(s@),
{
    if s.len() > 0 && (s[0] == 'v' || s[0] == 'V') {
        let rest = slice_from(s, 1);
        assert(rest@ =~= s@.drop_first());
        if rest.len() == 0 {
            Some(None)
        } else {
            match parse_u32(&rest) {
                Some(n) => Some(Some(n)),
                None => None,
            }
        }
    } else {
        None
    }
}

fn split_all(s: &[char]) -> (r: (Vec<char>, Vec<char>))
    ensures
        (r.0@, r.1@) == split_or_all(s@),
{
    match split_once(s, '/') {
        Some(p) => p,
        None => (slice_from(s, 0), Vec::new()),
    }
}

/// Parse dweb `address_or_name` path parameters, with an optional version:
///
///     [v{version}/]{address_or_name}{remote_path}
///
/// Returns the version if present, the `as_name` (always `anonymous`), the
/// address or name and the remote path. A first segment that is not a version
/// string is the address or name.
pub fn parse_versioned_path_params(params: &String) -> (r: Result<
    (Option<u32>, String, String, String),
    InvalidParams,
>)
    ensures
        r matches Ok((v, as_name, a, rp)) && as_name@ == AS_NAME_NONE@ && (v, a@, rp@)
            == versioned_params_spec(params@),
{
    let p = chars_of(params.as_str());
    let (first, first_rest) = split_all(&p);
    let (second, second_rest) = split_all(&first_rest);
    let (version, address_or_name, remote_path) = match version_of_chars(&first) {
        Some(v) => (v, second, second_rest),
        None => (None, first, first_rest),
    };
    Ok((version, AS_NAME_NONE.to_string(), string_of(&address_or_name), string_of(&remote_path)))
}

/// The first segment of path parameters (all of them when there is no `/`):
/// the text whose DWEB-NAME validity `parse_versioned_path_params_with_as_name`
/// takes as an argument.
pub fn leading_segment(params: &String) -> (r: String)
    ensures
        r@ == split_or_all(params@).0,
{
    let p = chars_of(params.as_str());
    let (first, _) = split_all(&p);
    string_of(&first)
}

/// The second segment of path parameters (empty when there is no `/`): the
/// text whose DWEB-NAME validity `parse_versioned_path_params_with_as_name`
/// takes as its last argument.
pub fn second_segment(params: &String) -> (r: String)
    ensures
        r@ == split_or_all(split_or_all(params@).1).0,
{
    let p = chars_of(params.as_str());
    let (_, first_rest) = split_all(&p);
    let (second, _) = split_all(&first_rest);
    string_of(&second)
}

/// Parse the path part of a `/dweb-open-as` URL:
///
///     [v{version}/]{as_name}/{address_or_name}{remote_path}
///
/// `first_is_dweb_name` and `second_is_dweb_name` are whether the first
/// (`leading_segment`) and the second (`second_segment`) segment are valid
/// DWEB-NAMEs. A first segment that is a version string is the version, and
/// the second is the `as_name`; otherwise the first is the `as_name`. The
/// `as_name` must be a DWEB-NAME or `anonymous`.
pub fn parse_versioned_path_params_with_as_name(
    params: &String,
    first_is_dweb_name: bool,
    second_is_dweb_name: bool,
) -> (r: Result<(Option<u32>, String, String, String), InvalidParams>)
    ensures
        match r {
            Ok((v, n, a, rp)) => as_name_params_spec(
                params@,
                first_is_dweb_name,
                second_is_dweb_name,
            ) == Some((v, n@, a@, rp@)),
            Err(e) => as_name_params_spec(params@, first_is_dweb_name, second_is_dweb_name) is None
                && e.text@ == params@,
        },
{
    let p = chars_of(params.as_str());
    let (first, first_rest) = split_all(&p);
    let (second, second_rest) = split_all(&first_rest);
    let (third, third_rest) = split_all(&second_rest);
    let anonymous = chars_of(AS_NAME_NONE);
    match version_of_chars(&first) {
        Some(v) => {
            if second_is_dweb_name || crate::text::chars_eq(&second, &anonymous) {
                Ok((v, string_of(&second), string_of(&third), string_of(&third_rest)))
            } else {
                Err(InvalidParams { text: string_of(&p) })
            }
        },
        None => {
            if first_is_dweb_name || crate::text::chars_eq(&first, &anonymous) {
                Ok((None, string_of(&first), string_of(&second), string_of(&second_rest)))
            } else {
                Err(InvalidParams { text: string_of(&p) })
            }
        },
    }
}

/// The first segment of DWEB-LINK parameters (all of them when there is no
/// `/`): the text whose DWEB-NAME validity `parse_dweb_link_params` takes as
/// an argument.
pub fn dweb_link_leading_segment(params: &String) -> (r: String)
    ensures
        r@ == split_or_all(params@).0,
{
    let p = chars_of(params.as_str());
    let (first, _) = split_all(&p);
    string_of(&first)
}

/// Parse the path part of a DWEB-LINK URL:
///
///     [v{version}/]{address_or_name}{remote_path}
///
/// `first_is_dweb_name` is whether the first segment
/// (`dweb_link_leading_segment`) is a valid DWEB-NAME; a DWEB-NAME cannot be a
/// version, so that is tried first. Refused when no address or name is left.
pub fn parse_dweb_link_params(params: &String, first_is_dweb_name: bool) -> (r: Result<
    (Option<u32>, String, String),
    InvalidParams,
>)
    ensures
        match r {
            Ok((v, a, rp)) => dweb_link_params_spec(params@, first_is_dweb_name) == Some(
                (v, a@, rp@),
            ),
            Err(e) => dweb_link_params_spec(params@, first_is_dweb_name) is None && e.text@
                == params@,
        },
{
    let p = chars_of(params.as_str());
    let (first, first_rest) = split_all(&p);
    let (second, second_rest) = split_all(&first_rest);
    let (version, address_or_name, remote_path) = if first_is_dweb_name {
        (None, first, first_rest)
    } else {
        match version_of_chars(&first) {
            Some(v) => (v, second, second_rest),
            None => (None, first, first_rest),
        }
    };
    if address_or_name.len() > 0 {
        Ok((version, string_of(&address_or_name), string_of(&remote_path)))
    } else {
        Err(InvalidParams { text: string_of(&p) })
    }
}

/// The decimal text of an optional version (empty for the most recent).
pub open spec fn version_text(v: Option<u64>) -> Seq<char> {
    match v {
        Some(n) => decimal(n as nat),
        None => Seq::empty(),
    }
}

/// A remote path made to start with `/` unless it is empty.
pub open spec fn normalized_remote_path(r: Seq<char>) -> Seq<char> {
    if r.len() > 0 && r[0] != '/' {
        seq!['/'] + r
    } else {
        r
    }
}

/// The path parameters of a `/dweb-open` route:
/// `v{version}/{address_name_or_link}{remote_path}`.
pub open spec fn open_params_spec(version: Option<u64>, addr: Seq<char>, remote: Seq<char>) -> Seq<
    char,
> {
    seq!['v'] + version_text(version) + seq!['/'] + addr + remote
}

/// The path parameters of a `/dweb-open-as` route:
/// `v{version}/{as_name}/{address_name_or_link}{remote_path}`.
pub open spec fn open_as_params_spec(
    version: Option<u64>,
    as_name: Seq<char>,
    addr: Seq<char>,
    remote: Seq<char>,
) -> Seq<char> {
    seq!['v'] + version_text(version) + seq!['/'] + as_name + seq!['/'] + addr + remote
}

/// The URL that `dweb open` opens in the browser.
pub open spec fn open_url_spec(
    addr: Seq<char>,
    version: Option<u64>,
    as_name: Option<Seq<char>>,
    remote: Seq<char>,
    host: Seq<char>,
    port: u16,
) -> Seq<char> {
    let remote = normalized_remote_path(remote);
    let route = match as_name {
        Some(n) => "/dweb-open-as/"@ + open_as_params_spec(version, n, addr, remote),
        None => "/dweb-open/"@ + open_params_spec(version, addr, remote),
    };
    "http://"@ + host + seq![':'] + decimal(port as nat) + route
}

fn url_origin(host: &String, port: u16) -> (r: Vec<char>)
    ensures
        r@ == "http://"@ + host@ + seq![':'] + decimal(port as nat),
{
    let mut u: Vec<char> = Vec::new();
    push_str(&mut u, "http://");
    push_str(&mut u, host.as_str());
    u.push(':');
    let port_text = decimal_u64(port as u64);
    push_chars(&mut u, &port_text);
    u
}

fn version_segment(version: Option<u64>) -> (r: Vec<char>)
    ensures
        r@ == seq!['v'] + version_text(version) + seq!['/'],
{
    let mut u: Vec<char> = Vec::new();
    u.push('v');
    match version {
        Some(n) => {
            let d = decimal_u64(n);
            push_chars(&mut u, &d);
        },
        None => {},
    }
    u.push('/');
    assert(u@ =~= seq!['v'] + version_text(version) + seq!['/']);
    u
}

fn open_params(version: Option<u64>, addr: &String, remote: &[char]) -> (r: Vec<char>)
    ensures
        r@ == open_params_spec(version, addr@, remote@),
{
    let mut u = version_segment(version);
    push_str(&mut u, addr.as_str());
    push_chars(&mut u, remote);
    u
}

fn open_as_params(version: Option<u64>, as_name: &String, addr: &String, remote: &[char]) -> (r:
    Vec<char>)
    ensures
        r@ == open_as_params_spec(version, as_name@, addr@, remote@),
{
    let mut u = version_segment(version);
    push_str(&mut u, as_name.as_str());
    u.push('/');
    push_str(&mut u, addr.as_str());
    push_chars(&mut u, remote);
    u
}

fn normalize_remote(remote_path: Option<String>) -> (r: Vec<char>)
    ensures
        r@ == normalized_remote_path(
            match remote_path {
                Some(p) => p@,
                None => Seq::empty(),
            },
        ),
{
    let remote_in = match remote_path {
        Some(p) => chars_of(p.as_str()),
        None => Vec::new(),
    };
    let mut remote: Vec<char> = Vec::new();
    if remote_in.len() > 0 && remote_in[0] != '/' {
        remote.push('/');
    }
    push_chars(&mut remote, &remote_in);
    assert(remote@ =~= normalized_remote_path(remote_in@));
    remote
}

/// Build the localhost URL that opens a website (or directory) in the browser:
///
///     http://{host}:{port}/dweb-open[-as]/v{version}/[{as_name}/]{address_name_or_link}{remote_path}
///
/// A remote path that does not start with `/` gets one.
pub fn dweb_open_url(
    address_name_or_link: &String,
    version: Option<u64>,
    as_name: Option<String>,
    remote_path: Option<String>,
    host: String,
    port: u16,
) -> (r: String)
    ensures
        r@ == open_url_spec(
            address_name_or_link@,
            version,
            match as_name {
                Some(n) => Some(n@),
                None => None,
            },
            match remote_path {
                Some(p) => p@,
                None => Seq::empty(),
            },
            host@,
            port,
        ),
{
    let remote = normalize_remote(remote_path);
    let mut u = url_origin(&host, port);
    let ghost origin = u@;
    match &as_name {
        Some(n) => {
            push_str(&mut u, "/dweb-open-as/");
            let ps = open_as_params(version, n, address_name_or_link, &remote);
            push_chars(&mut u, &ps);
            assert(u@ =~= origin + ("/dweb-open-as/"@ + ps@));
        },
        None => {
            push_str(&mut u, "/dweb-open/");
            let ps = open_params(version, address_name_or_link, &remote);
            push_chars(&mut u, &ps);
            assert(u@ =~= origin + ("/dweb-open/"@ + ps@));
        },
    }
    string_of(&u)
}

/// The remote path a `/dweb-open` handler redirects to: `/{remote_path}`,
/// or none when the remote path is empty.
pub open spec fn redirect_path_spec(remote_path: Seq<char>) -> Option<Seq<char>> {
    if remote_path.len() > 0 {
        Some(seq!['/'] + remote_path)
    } else {
        None
    }
}

/// The path to redirect to for a parsed remote path: `/{remote_path}`, or
/// `None` when it is empty.
pub fn redirect_path(remote_path: &String) -> (r: Option<String>)
    ensures
        match r {
            Some(p) => redirect_path_spec(remote_path@) == Some(p@),
            None => redirect_path_spec(remote_path@) is None,
        },
{
    let rp = chars_of(remote_path.as_str());
    if rp.len() > 0 {
        let mut v: Vec<char> = Vec::new();
        v.push('/');
        push_chars(&mut v, &rp);
        Some(string_of(&v))
    } else {
        None
    }
}

/// Whether a `/dweb-open` handler registers `as_name` for the opened History:
/// only when it is neither empty nor `anonymous`.
pub fn should_register_as_name(as_name: &String) -> (r: bool)
    ensures
        r == (as_name@.len() > 0 && as_name@ != AS_NAME_NONE@),
{
    let n = chars_of(as_name.as_str());
    let none = chars_of(AS_NAME_NONE);
    n.len() > 0 && !crate::text::chars_eq(&n, &none)
}

/// The remote path part as the server's parser leaves it: without its leading `/`.
pub open spec fn parsed_remote_path(remote: Seq<char>) -> Seq<char> {
    if remote.len() > 0 {
        remote.drop_first()
    } else {
        remote
    }
}

/// The version as the URL carries it.
pub open spec fn widen_version(v: Option<u32>) -> Option<u64> {
    match v {
        Some(n) => Some(n as u64),
        None => None,
    }
}

proof fn lemma_version_segment(v: Option<u32>)
    ensures
        version_spec(seq!['v'] + version_text(widen_version(v))) == Some(v),
        lacks(seq!['v'] + version_text(widen_version(v)), '/'),
{
    let s = seq!['v'] + version_text(widen_version(v));
    assert(s.drop_first() =~= version_text(widen_version(v)));
    match v {
        Some(n) => {
            lemma_parse_decimal_u32(n);
            lemma_decimal(n as nat);
            assert forall|i: int| 0 <= i < s.len() implies s[i] != '/' by {
                if i > 0 {
                    assert(s[i] == decimal(n as nat)[i - 1]);
                    assert(crate::text::is_digit(decimal(n as nat)[i - 1]));
                }
            }
        },
        None => {},
    }
}

proof fn lemma_address_and_remote(addr: Seq<char>, remote: Seq<char>)
    requires
        lacks(addr, '/'),
        remote.len() == 0 || remote[0] == '/',
    ensures
        split_or_all(addr + remote) == (addr, parsed_remote_path(remote)),
{
    if remote.len() == 0 {
        assert(addr + remote =~= addr);
        lemma_find_char_none(addr, '/');
    } else {
        let rest = remote.drop_first();
        assert(addr + remote =~= addr + seq!['/'] + rest);
        lemma_split_once_concat(addr, '/', rest);
    }
}

/// The URL that `dweb open` builds is parsed back by the server: the
/// parameters of a `/dweb-open` route give back the version, the address or
/// name, and the remote path (without its leading `/`), whenever the version
/// fits a `u32`, the address holds no `/` and the remote path is empty or
/// starts with `/`.
pub proof fn open_params_parse_back(v: Option<u32>, addr: Seq<char>, remote: Seq<char>)
    requires
        lacks(addr, '/'),
        remote.len() == 0 || remote[0] == '/',
    ensures
        versioned_params_spec(open_params_spec(widen_version(v), addr, remote)) == (
            v,
            addr,
            parsed_remote_path(remote),
        ),
{
    let first = seq!['v'] + version_text(widen_version(v));
    lemma_version_segment(v);
    let p = open_params_spec(widen_version(v), addr, remote);
    assert(p =~= first + seq!['/'] + (addr + remote));
    lemma_split_once_concat(first, '/', addr + remote);
    lemma_address_and_remote(addr, remote);
}

/// The same for a `/dweb-open-as` route: its parameters give back the
/// version, the name to register, the address or name, and the remote path,
/// whatever the DWEB-NAME check says of the first segment, whenever the name
/// is a DWEB-NAME (`as_name_is_name`) or `anonymous` and neither the name nor
/// the address holds a `/`.
pub proof fn open_as_params_parse_back(
    v: Option<u32>,
    as_name: Seq<char>,
    addr: Seq<char>,
    remote: Seq<char>,
    first_is_name: bool,
    as_name_is_name: bool,
)
    requires
        as_name_is_name || as_name == AS_NAME_NONE@,
        lacks(as_name, '/'),
        lacks(addr, '/'),
        remote.len() == 0 || remote[0] == '/',
    ensures
        as_name_params_spec(
            open_as_params_spec(widen_version(v), as_name, addr, remote),
            first_is_name,
            as_name_is_name,
        ) == Some((v, as_name, addr, parsed_remote_path(remote))),
{
    let first = seq!['v'] + version_text(widen_version(v));
    lemma_version_segment(v);
    let p = open_as_params_spec(widen_version(v), as_name, addr, remote);
    let rest1 = as_name + seq!['/'] + (addr + remote);
    assert(p =~= first + seq!['/'] + rest1);
    lemma_split_once_concat(first, '/', rest1);
    lemma_split_once_concat(as_name, '/', addr + remote);
    lemma_address_and_remote(addr, remote);
}

/// The same without a version: parameters `{address_or_name}{remote_path}`
/// give back no version, the address or name, and the whole remote path
/// (without its leading `/`), whenever the address or name holds no `/` and
/// is not a version string and the remote path is empty or starts with `/`.
pub proof fn unversioned_params_parse_back(addr: Seq<char>, remote: Seq<char>)
    requires
        lacks(addr, '/'),
        version_spec(addr) is None,
        remote.len() == 0 || remote[0] == '/',
    ensures
        versioned_params_spec(addr + remote) == (None::<u32>, addr, parsed_remote_path(remote)),
{
    lemma_address_and_remote(addr, remote);
}

/// The same for `/dweb-open-as` without a version: `{as_name}/{address_or_name}{remote_path}`
/// gives back no version, the name, the address or name, and the whole
/// remote path, whenever the name is a DWEB-NAME (`as_name_is_name`) or
/// `anonymous` and is not a version string, neither the name nor the
/// address holds a `/`, and the remote path is empty or starts with `/`.
pub proof fn unversioned_as_params_parse_back(
    as_name: Seq<char>,
    addr: Seq<char>,
    remote: Seq<char>,
    as_name_is_name: bool,
    second_is_name: bool,
)
    requires
        as_name_is_name || as_name == AS_NAME_NONE@,
        version_spec(as_name) is None,
        lacks(as_name, '/'),
        lacks(addr, '/'),
        remote.len() == 0 || remote[0] == '/',
    ensures
        as_name_params_spec(as_name + seq!['/'] + (addr + remote), as_name_is_name, second_is_name)
            == Some((None::<u32>, as_name, addr, parsed_remote_path(remote))),
{
    lemma_split_once_concat(as_name, '/', addr + remote);
    lemma_address_and_remote(addr, remote);
}

/// A DWEB-LINK `[v{version}/]{address_or_name}{remote_path}` is parsed back
/// into its parts: with a version, whatever the version is; without one,
/// when the address or name is a DWEB-NAME or is not a version string;
/// whenever the address or name is not empty and holds no `/` and the
/// remote path is empty or starts with `/`.
pub proof fn dweb_link_parse_back(
    v: Option<u32>,
    addr: Seq<char>,
    remote: Seq<char>,
    addr_is_name: bool,
)
    requires
        addr.len() > 0,
        lacks(addr, '/'),
        remote.len() == 0 || remote[0] == '/',
    ensures
        dweb_link_params_spec(open_params_spec(widen_version(v), addr, remote), false) == Some(
            (v, addr, parsed_remote_path(remote)),
        ),
        (addr_is_name || version_spec(addr) is None) ==> dweb_link_params_spec(
            addr + remote,
            addr_is_name,
        ) == Some((None::<u32>, addr, parsed_remote_path(remote))),
{
    let first = seq!['v'] + version_text(widen_version(v));
    lemma_version_segment(v);
    let p = open_params_spec(widen_version(v), addr, remote);
    assert(p =~= first + seq!['/'] + (addr + remote));
    lemma_split_once_concat(first, '/', addr + remote);
    lemma_address_and_remote(addr, remote);
}

/// What a `/dweb-open` handler redirects to after parsing the parameters of
/// the URL that `dweb open` built: the remote path given to `dweb open`
/// (normalized to start with `/`), or none when it was empty or just `/`.
#[verifier::spinoff_prover]
pub proof fn open_redirect_path(v: Option<u32>, addr: Seq<char>, remote: Seq<char>)
    requires
        lacks(addr, '/'),
    ensures
        ({
            let n = normalized_remote_path(remote);
            redirect_path_spec(versioned_params_spec(open_params_spec(widen_version(v), addr, n)).2)
                == if n.len() > 1 { Some(n) } else { None }
        }),
{
    let n = normalized_remote_path(remote);
    open_params_parse_back(v, addr, n);
    if n.len() > 1 {
        assert(seq!['/'] + n.drop_first() =~= n);
    }
}

} // verus!
