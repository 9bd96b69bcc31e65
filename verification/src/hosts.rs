//! Decisions of the web server's `www` handlers: reading the host a request
//! was sent to, recognising the dweb hosts, redirecting to a versioned host,
//! and the status of a failed lookup.

use vstd::prelude::*;
use vstd::string::*;
use crate::api_dweb::{header_text, header_text_spec, opt_string_view};
use crate::keys::{hex_encode, hex_encode_spec};
use crate::results::status_or;
use crate::text::{
    chars_eq, chars_of, decimal, decimal_u64, find_char, find_first, lemma_decimal, parse_u64,
    parse_u64_spec, push_chars, push_str, slice_from, slice_range, string_of,
};

verus! {

/// A host name without its port: the text before the first `:`.
pub open spec fn before_colon(s: Seq<char>) -> Seq<char> {
    match find_char(s, ':') {
        Some(i) => s.take(i),
        None => s,
    }
}

/// The host of a request, from its `Host` header (`None` when absent or
/// not text), without the port.
pub open spec fn host_name_spec(host_header: Option<Seq<u8>>) -> Option<Seq<char>> {
    match host_header {
        Some(b) => match header_text_spec(b) {
            Some(t) => Some(before_colon(t)),
            None => None,
        },
        None => None,
    }
}

/// See [`host_name_spec`].
pub fn host_name(host_header: Option<&[u8]>) -> (r: Option<String>)
    ensures
        opt_string_view(r) == host_name_spec(
            match host_header {
                Some(b) => Some(b@),
                None => None,
            },
        ),
{
    match host_header {
        Some(b) => match header_text(b) {
            Some(t) => {
                let cs = chars_of(t.as_str());
                match find_first(cs.as_slice(), ':') {
                    Some(i) => Some(string_of(slice_range(cs.as_slice(), 0, i).as_slice())),
                    None => Some(t),
                }
            },
            None => None,
        },
        None => None,
    }
}

/// `s` ends with `t`.
pub open spec fn ends_with(s: Seq<char>, t: Seq<char>) -> bool {
    t.len() <= s.len() && s.skip(s.len() - t.len()) == t
}

fn ends_with_chars(s: &[char], t: &[char]) -> (r: bool)
    ensures
        r == ends_with(s@, t@),
{
    if t.len() > s.len() {
        return false;
    }
    let tail = slice_from(s, s.len() - t.len());
    chars_eq(tail.as_slice(), t)
}

/// A request is for a service's hosts when its host (without the port)
/// ends with `.` and the service's domain.
pub open spec fn is_service_host_spec(host_header: Option<Seq<u8>>, service: Seq<char>) -> bool {
    match host_name_spec(host_header) {
        Some(h) => ends_with(h, seq!['.'] + service),
        None => false,
    }
}

/// See [`is_service_host_spec`]: the guard of the `www` and debug services.
pub fn is_service_host(host_header: Option<&[u8]>, service: &str) -> (r: bool)
    ensures
        r == is_service_host_spec(
            match host_header {
                Some(b) => Some(b@),
                None => None,
            },
            service@,
        ),
{
    match host_name(host_header) {
        Some(h) => {
            let hs = chars_of(h.as_str());
            let mut tail: Vec<char> = Vec::new();
            tail.push('.');
            push_str(&mut tail, service);
            assert(tail@ =~= seq!['.'] + service@);
            ends_with_chars(hs.as_slice(), tail.as_slice())
        },
        None => false,
    }
}

/// The host of a given version of a named website: `v`, the version, `.`,
/// the name, `.` and the service's domain.
pub open spec fn versioned_host_spec(version: u64, dweb_name: Seq<char>, service: Seq<char>) -> Seq<
    char,
> {
    seq!['v'] + decimal(version as nat) + seq!['.'] + dweb_name + seq!['.'] + service
}

/// See [`versioned_host_spec`].
pub fn versioned_host(version: u64, dweb_name: &str, service: &str) -> (r: String)
    ensures
        r@ == versioned_host_spec(version, dweb_name@, service@),
{
    let mut v: Vec<char> = Vec::new();
    v.push('v');
    let d = decimal_u64(version);
    push_chars(&mut v, d.as_slice());
    v.push('.');
    push_str(&mut v, dweb_name);
    v.push('.');
    push_str(&mut v, service);
    assert(v@ =~= versioned_host_spec(version, dweb_name@, service@));
    string_of(v.as_slice())
}

/// The `www` service serves the versioned host it redirects to: a request
/// whose `Host` header reads as a versioned host of a service (with no `:`
/// in the name or the service's domain) passes the service's guard.
pub proof fn versioned_host_is_served(
    host_header: Seq<u8>,
    version: u64,
    dweb_name: Seq<char>,
    service: Seq<char>,
)
    requires
        crate::text::lacks(dweb_name, ':'),
        crate::text::lacks(service, ':'),
        header_text_spec(host_header) == Some(versioned_host_spec(version, dweb_name, service)),
    ensures
        is_service_host_spec(Some(host_header), service),
{
    let h = versioned_host_spec(version, dweb_name, service);
    lemma_decimal(version as nat);
    assert(crate::text::lacks(h, ':')) by {
        let d = decimal(version as nat);
        assert forall|i: int| 0 <= i < h.len() implies h[i] != ':' by {
            if 1 <= i < 1 + d.len() {
                assert(h[i] == d[i - 1]);
                assert(crate::text::is_digit(d[i - 1]));
            } else if 1 + d.len() + 1 <= i < 1 + d.len() + 1 + dweb_name.len() {
                assert(h[i] == dweb_name[i - 1 - d.len() - 1]);
            } else if i >= 1 + d.len() + 1 + dweb_name.len() + 1 {
                assert(h[i] == service[i - (1 + d.len() + 1 + dweb_name.len() + 1)]);
            }
        }
    }
    crate::text::lemma_find_char_none(h, ':');
    let tail = seq!['.'] + service;
    assert(h.skip(h.len() - tail.len()) =~= tail);
}

/// What the `www` handler does once it has found the version of a website.
#[derive(Debug, Clone, PartialEq, Eq)]
pub enum WwwStep {
    /// Redirect to the versioned host, keeping the path.
    Redirect { host: String, path: String },
    /// Look up the resource at this path in the website.
    Lookup { resource: String },
}

/// A request for a website without a version (`host_version` is `None`)
/// whose most recent version is `version` (0 when the site has no
/// versions) is redirected to the versioned host; any other is looked up at
/// `/` and its path.
pub fn www_step(version: u64, host_version: Option<u64>, dweb_name: &str, service: &str, path: &str)
    -> (r: WwwStep)
    ensures
        (version != 0 && host_version is None) ==> (r matches WwwStep::Redirect { host, path: p }
            && host@ == versioned_host_spec(version, dweb_name@, service@) && p@ == path@),
        !(version != 0 && host_version is None) ==> (r matches WwwStep::Lookup { resource }
            && resource@ == seq!['/'] + path@),
{
    if version != 0 && host_version.is_none() {
        WwwStep::Redirect {
            host: versioned_host(version, dweb_name, service),
            path: String::from_str(path),
        }
    } else {
        let mut v: Vec<char> = Vec::new();
        v.push('/');
        push_str(&mut v, path);
        assert(v@ =~= seq!['/'] + path@);
        WwwStep::Lookup { resource: string_of(v.as_slice()) }
    }
}

/// The status of a response to a failed lookup in a website: the lookup's
/// own status when it is one, else 500 (Internal Server Error).
pub fn lookup_failure_status(code: u16) -> (r: u16)
    ensures
        r == status_or(code, 500),
{
    crate::results::status_code_or(code, 500)
}

/// `str::split`: the pieces of `s` between occurrences of `sep`.
pub open spec fn split_spec(s: Seq<char>, sep: char) -> Seq<Seq<char>>
    decreases s.len(),
{
    if s.len() == 0 {
        seq![Seq::<char>::empty()]
    } else {
        let prev = split_spec(s.drop_last(), sep);
        if s.last() == sep {
            prev.push(Seq::<char>::empty())
        } else {
            prev.update(prev.len() - 1, prev.last().push(s.last()))
        }
    }
}

proof fn lemma_split_nonempty(s: Seq<char>, sep: char)
    ensures
        split_spec(s, sep).len() >= 1,
    decreases s.len(),
{
    if s.len() > 0 {
        lemma_split_nonempty(s.drop_last(), sep);
    }
}

/// `str::split_terminator`: as `split`, without a last piece that is empty.
pub open spec fn split_terminator_spec(s: Seq<char>, sep: char) -> Seq<Seq<char>> {
    let p = split_spec(s, sep);
    if p.last().len() == 0 {
        p.drop_last()
    } else {
        p
    }
}

/// See [`split_terminator_spec`].
pub fn split_terminator(s: &[char], sep: char) -> (r: Vec<Vec<char>>)
    ensures
        r@.map_values(|p: Vec<char>| p@) == split_terminator_spec(s@, sep),
{
    let mut pieces: Vec<Vec<char>> = Vec::new();
    let mut cur: Vec<char> = Vec::new();
    let mut i: usize = 0;
    assert(s@.take(0) =~= Seq::<char>::empty());
    assert(pieces@.map_values(|p: Vec<char>| p@).push(cur@) =~= split_spec(s@.take(0), sep));
    while i < s.len()
        invariant
            i <= s.len(),
            pieces@.map_values(|p: Vec<char>| p@).push(cur@) == split_spec(s@.take(i as int), sep),
        decreases s.len() - i,
    {
        let ghost before = pieces@.map_values(|p: Vec<char>| p@);
        assert(s@.take(i + 1).drop_last() =~= s@.take(i as int));
        assert(s@.take(i + 1).last() == s@[i as int]);
        if s[i] == sep {
            let done = cur;
            pieces.push(done);
            cur = Vec::new();
            assert(pieces@.map_values(|p: Vec<char>| p@) =~= before.push(done@));
        } else {
            cur.push(s[i]);
        }
        assert(pieces@.map_values(|p: Vec<char>| p@).push(cur@) =~= split_spec(
            s@.take(i + 1),
            sep,
        ));
        i = i + 1;
    }
    assert(s@.take(s.len() as int) =~= s@);
    let ghost all = pieces@.map_values(|p: Vec<char>| p@).push(cur@);
    if cur.len() == 0 {
        assert(pieces@.map_values(|p: Vec<char>| p@) =~= all.drop_last());
        pieces
    } else {
        let last = cur;
        pieces.push(last);
        assert(pieces@.map_values(|p: Vec<char>| p@) =~= all);
        pieces
    }
}

proof fn lemma_split_single(x: Seq<char>, sep: char)
    requires
        crate::text::lacks(x, sep),
    ensures
        split_spec(x, sep) == seq![x],
    decreases x.len(),
{
    if x.len() > 0 {
        lemma_split_single(x.drop_last(), sep);
        assert(x.drop_last().push(x.last()) =~= x);
    } else {
        assert(x =~= Seq::<char>::empty());
    }
}

proof fn lemma_split_concat(p: Seq<char>, sep: char, y: Seq<char>)
    ensures
        split_spec(p + seq![sep] + y, sep) == split_spec(p, sep) + split_spec(y, sep),
    decreases y.len(),
{
    lemma_split_nonempty(p, sep);
    lemma_split_nonempty(y, sep);
    if y.len() == 0 {
        let q = p + seq![sep];
        assert(q + y =~= q);
        assert(q.drop_last() =~= p);
        assert(split_spec(y, sep) =~= seq![Seq::<char>::empty()]);
        assert(split_spec(q, sep) =~= split_spec(p, sep) + split_spec(y, sep));
    } else {
        let y1 = y.drop_last();
        lemma_split_concat(p, sep, y1);
        lemma_split_nonempty(y1, sep);
        let t = p + seq![sep] + y;
        assert(t.drop_last() =~= p + seq![sep] + y1);
        assert(t.last() == y.last());
        let a = split_spec(p, sep);
        let b1 = split_spec(y1, sep);
        if y.last() == sep {
            assert(split_spec(t, sep) =~= a + split_spec(y, sep));
        } else {
            assert((a + b1).update((a + b1).len() - 1, (a + b1).last().push(y.last())) =~= a
                + b1.update(b1.len() - 1, b1.last().push(y.last())));
            assert(split_spec(t, sep) =~= a + split_spec(y, sep));
        }
    }
}

/// The debug service reads a versioned host back: for a website name and
/// a service domain of two labels (`name.tld`) with no `.` in the name or
/// the labels, a versioned host has four parts, the first gives back the
/// version and the second the name.
pub proof fn versioned_host_reads_back(
    version: u64,
    dweb_name: Seq<char>,
    service_name: Seq<char>,
    tld: Seq<char>,
)
    requires
        crate::text::lacks(dweb_name, '.'),
        crate::text::lacks(service_name, '.'),
        crate::text::lacks(tld, '.'),
        tld.len() > 0,
    ensures
        ({
            let parts = split_terminator_spec(
                versioned_host_spec(version, dweb_name, service_name + seq!['.'] + tld),
                '.',
            );
            &&& parts.len() == 4
            &&& host_version_spec(parts[0]) == Some(version)
            &&& parts[1] == dweb_name
        }),
{
    let vpart = seq!['v'] + decimal(version as nat);
    crate::text::lemma_parse_decimal_u64(version);
    lemma_decimal(version as nat);
    assert(crate::text::lacks(vpart, '.')) by {
        assert forall|i: int| 0 <= i < vpart.len() implies vpart[i] != '.' by {
            if i > 0 {
                assert(vpart[i] == decimal(version as nat)[i - 1]);
                assert(crate::text::is_digit(decimal(version as nat)[i - 1]));
            }
        }
    }
    let host = versioned_host_spec(version, dweb_name, service_name + seq!['.'] + tld);
    let rest2 = service_name + seq!['.'] + tld;
    let rest1 = dweb_name + seq!['.'] + rest2;
    assert(host =~= vpart + seq!['.'] + rest1);
    lemma_split_concat(vpart, '.', rest1);
    lemma_split_concat(dweb_name, '.', rest2);
    lemma_split_concat(service_name, '.', tld);
    lemma_split_single(vpart, '.');
    lemma_split_single(dweb_name, '.');
    lemma_split_single(service_name, '.');
    lemma_split_single(tld, '.');
    let parts = split_spec(host, '.');
    assert(parts =~= seq![vpart, dweb_name, service_name, tld]);
    assert(vpart.drop_first() =~= decimal(version as nat));
}

/// The kinds of host that the debug service recognises.
#[derive(Debug, Clone, PartialEq, Eq)]
pub enum DebugHost {
    /// `<DIRECTORY>.<service>.<tld>`: three parts.
    Fixed { directory: String },
    /// `v<VERSION>.<HISTORY>.<service>.<tld>`: four parts; the version when
    /// the first part is `v` and a number.
    Versioned { version: Option<u64>, history: String },
    /// Any other number of parts.
    Invalid,
}

/// The version in the first part of a versioned host: `v` followed by a
/// decimal number.
pub open spec fn host_version_spec(part: Seq<char>) -> Option<u64> {
    if part.len() > 0 && part[0] == 'v' {
        parse_u64_spec(part.drop_first())
    } else {
        None
    }
}

/// The parts of a host name, as the debug service reads them.
pub fn classify_debug_host(host: &str) -> (r: DebugHost)
    ensures
        ({
            let parts = split_terminator_spec(host@, '.');
            if parts.len() == 3 {
                r matches DebugHost::Fixed { directory } && directory@ == parts[0]
            } else if parts.len() == 4 {
                r matches DebugHost::Versioned { version, history } && version == host_version_spec(
                    parts[0],
                ) && history@ == parts[1]
            } else {
                r is Invalid
            }
        }),
{
    let cs = chars_of(host);
    let parts = split_terminator(cs.as_slice(), '.');
    let ghost pv = parts@.map_values(|p: Vec<char>| p@);
    if parts.len() == 3 {
        assert(pv[0] == parts@[0]@);
        DebugHost::Fixed { directory: string_of(parts[0].as_slice()) }
    } else if parts.len() == 4 {
        assert(pv[0] == parts@[0]@);
        assert(pv[1] == parts@[1]@);
        let first = &parts[0];
        let version = if first.len() > 0 && first[0] == 'v' {
            let rest = slice_from(first.as_slice(), 1);
            assert(rest@ =~= first@.drop_first());
            parse_u64(rest.as_slice())
        } else {
            None
        };
        DebugHost::Versioned { version, history: string_of(parts[1].as_slice()) }
    } else {
        DebugHost::Invalid
    }
}

/// Why `/dweb-version` could not redirect.
#[derive(Debug, Clone, Copy, PartialEq, Eq)]
pub enum DwebVersionError {
    /// The server has no directory version (a bug).
    NoDirectoryVersion,
    /// The server serves a directory, not a History.
    NotAHistory,
}

impl DwebVersionError {
    /// The text of the error.
    pub fn message(&self) -> (r: String)
        ensures
            r@ == (match self {
                DwebVersionError::NoDirectoryVersion => "Unable to access our_directory_version - probably a bug"@,
                DwebVersionError::NotAHistory => "You cannot select a version as this is a directory not a History"@,
            }),
    {
        match self {
            DwebVersionError::NoDirectoryVersion => String::from_str(
                "Unable to access our_directory_version - probably a bug",
            ),
            DwebVersionError::NotAHistory => String::from_str(
                "You cannot select a version as this is a directory not a History",
            ),
        }
    }
}

/// The path to which `/dweb-version/VERSION` redirects: `/dweb-open/v`, the
/// version (nothing for `latest`), `/` and the History's address in
/// hexadecimal.
pub open spec fn dweb_version_path_spec(version: Seq<char>, history_address: Seq<u8>) -> Seq<char> {
    "/dweb-open/v"@ + (if version == "latest"@ {
        Seq::<char>::empty()
    } else {
        version
    }) + seq!['/'] + hex_encode_spec(history_address)
}

/// The version argument of `/dweb-version` for a version: `latest` for the
/// most recent, else the number in decimal.
pub open spec fn version_argument(v: Option<u32>) -> Seq<char> {
    match v {
        Some(n) => decimal(n as nat),
        None => "latest"@,
    }
}

proof fn lemma_hex_lacks_slash(h: Seq<u8>)
    ensures
        crate::text::lacks(hex_encode_spec(h), '/'),
{
    let s = hex_encode_spec(h);
    assert forall|i: int| 0 <= i < s.len() implies s[i] != '/' by {
        let b = h[i / 2] as int;
        assert(0 <= b / 16 < 16);
        assert(0 <= b % 16 < 16);
    }
}

/// `/dweb-version` takes the browser to the version asked for: the server
/// that opens the path it redirects to reads back that version (none, that
/// is the most recent, for `latest`), the History's address in hexadecimal,
/// and no remote path.
pub proof fn dweb_version_opens_version(v: Option<u32>, history_address: Seq<u8>)
    ensures
        crate::links::versioned_params_spec(
            dweb_version_path_spec(version_argument(v), history_address).skip(11),
        ) == (v, hex_encode_spec(history_address), Seq::<char>::empty()),
{
    reveal_strlit("latest");
    reveal_strlit("/dweb-open/v");
    let h = hex_encode_spec(history_address);
    let arg = version_argument(v);
    let path = dweb_version_path_spec(arg, history_address);
    let e = Seq::<char>::empty();
    match v {
        Some(n) => {
            lemma_decimal(n as nat);
            assert(crate::text::is_digit(decimal(n as nat)[0]));
            assert(arg != "latest"@);
        },
        None => {},
    }
    assert(path.skip(11) =~= crate::links::open_params_spec(crate::links::widen_version(v), h, e));
    lemma_hex_lacks_slash(history_address);
    crate::links::open_params_parse_back(v, h, e);
    assert(crate::links::parsed_remote_path(e) =~= e);
}

/// The redirection of `/dweb-version/VERSION` on a server for a directory
/// version: `has_directory_version` says whether the server has one, and
/// `history_address` gives its History, if it is one.
pub fn dweb_version_path(
    version: &str,
    has_directory_version: bool,
    history_address: Option<&[u8]>,
) -> (r: Result<String, DwebVersionError>)
    ensures
        !has_directory_version ==> r matches Err(DwebVersionError::NoDirectoryVersion),
        has_directory_version && history_address is None ==> r matches Err(
            DwebVersionError::NotAHistory,
        ),
        has_directory_version && history_address is Some ==> (r matches Ok(p) && p@
            == dweb_version_path_spec(version@, history_address->0@)),
{
    if !has_directory_version {
        return Err(DwebVersionError::NoDirectoryVersion);
    }
    match history_address {
        None => Err(DwebVersionError::NotAHistory),
        Some(a) => {
            let vs = chars_of(version);
            let latest = chars_of("latest");
            let mut v: Vec<char> = Vec::new();
            push_str(&mut v, "/dweb-open/v");
            let ghost start = v@;
            if !chars_eq(vs.as_slice(), latest.as_slice()) {
                push_chars(&mut v, vs.as_slice());
            } else {
                assert(v@ =~= start + Seq::<char>::empty());
            }
            v.push('/');
            let h = hex_encode(a);
            push_str(&mut v, h.as_str());
            assert(v@ =~= dweb_version_path_spec(version@, a@));
            Ok(string_of(v.as_slice()))
        },
    }
}

/// What the `www` handler of a server for one directory version does.
#[derive(Debug, Clone, Copy, PartialEq, Eq)]
pub enum PortWwwStep {
    /// On the main server no API matched the route: 404 (Not Found).
    NotAnApi,
    /// The server has no directory version (a bug): 500.
    NoDirectoryVersion,
    /// Look the request's path up in the directory version.
    Lookup,
}

/// See [`PortWwwStep`].
pub fn port_www_step(is_main_server: bool, has_directory_version: bool) -> (r: PortWwwStep)
    ensures
        r == (if is_main_server {
            PortWwwStep::NotAnApi
        } else if !has_directory_version {
            PortWwwStep::NoDirectoryVersion
        } else {
            PortWwwStep::Lookup
        }),
{
    if is_main_server {
        PortWwwStep::NotAnApi
    } else if !has_directory_version {
        PortWwwStep::NoDirectoryVersion
    } else {
        PortWwwStep::Lookup
    }
}

} // verus!
