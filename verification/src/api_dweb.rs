//! Parameters of the dweb REST API's mutating requests (POST and PUT of
//! Pointers, Scratchpads and the like), read from query parameters and
//! request headers, and the result such a request returns.

use vstd::prelude::*;
use vstd::string::*;
use crate::text::{chars_of, parse_u32, parse_u32_spec, push_str, string_of};
use crate::etag::is_visible_ascii;
use crate::keys::{secret_key_from_hex, secret_key_hex_valid, secret_key_of_hex};
use crate::names::{register_entries, NameRegistry};

verus! {

/// Header: the number of times to try a mutation before failing (0 = unlimited).
pub const HEADER_ANT_API_TRIES: &'static str = "Ant-API-Tries";

/// Header: an optional name that allows more than one object of a type per owner secret.
pub const HEADER_ANT_OBJECT_NAME: &'static str = "Ant-Object-Name";

/// Header: an optional secret key that overrides the one the server would use.
pub const HEADER_ANT_OWNER_SECRET: &'static str = "Ant-Owner-Secret";

/// Header: an optional 32 character string used in place of the default
/// when deriving keys for objects of a type.
pub const HEADER_ANT_DERIVATION_INDEX: &'static str = "Ant-Derivation-Index";

/// Header: a unique identifier of the app making the request.
pub const HEADER_ANT_APP_ID: &'static str = "Ant-App-ID";

/// The query parameters of a mutating request; each, when present, takes
/// precedence over the corresponding header.
#[derive(Debug)]
pub struct MutateQueryParams {
    /// An optional name for the object being created or updated.
    pub object_name: Option<String>,
    /// The number of times to try a mutation (0 = unlimited).
    pub tries: Option<u32>,
    /// An optional secret key (hexadecimal).
    pub owner_secret: Option<String>,
    /// An optional key to use when deriving keys for objects of the type.
    pub type_derivation_key: Option<[u8; 32]>,
}

/// The raw values of the request headers that a mutating request reads,
/// each `None` when the header is absent.
#[derive(Debug)]
pub struct MutateHeaders {
    pub tries: Option<Vec<u8>>,
    pub object_name: Option<Vec<u8>>,
    pub owner_secret: Option<Vec<u8>>,
    pub derivation_index: Option<Vec<u8>>,
    pub app_id: Option<Vec<u8>>,
}

/// A header value read as text, as `HeaderValue::to_str` reads it: only
/// when every byte is visible ASCII (printable or a tab), one character per
/// byte.
pub open spec fn header_text_spec(b: Seq<u8>) -> Option<Seq<char>> {
    if forall|i: int| 0 <= i < b.len() ==> is_visible_ascii(#[trigger] b[i]) {
        Some(Seq::new(b.len(), |i: int| b[i] as char))
    } else {
        None
    }
}

/// The view of an optional raw header.
pub open spec fn header_view(h: Option<Vec<u8>>) -> Option<Seq<u8>> {
    match h {
        Some(b) => Some(b@),
        None => None,
    }
}

/// The view of an optional string.
pub open spec fn opt_string_view(s: Option<String>) -> Option<Seq<char>> {
    match s {
        Some(t) => Some(t@),
        None => None,
    }
}

/// Reads a header value as text (`HeaderValue::to_str`).
pub fn header_text(b: &[u8]) -> (r: Option<String>)
    ensures
        opt_string_view(r) == header_text_spec(b@),
{
    let mut v: Vec<char> = Vec::new();
    let mut i: usize = 0;
    while i < b.len()
        invariant
            i <= b.len(),
            v@.len() == i,
            forall|j: int| 0 <= j < i ==> is_visible_ascii(#[trigger] b@[j]),
            forall|j: int| 0 <= j < i ==> #[trigger] v@[j] == b@[j] as char,
        decreases b.len() - i,
    {
        let c = b[i];
        if !((32 <= c && c < 127) || c == 9) {
            assert(!is_visible_ascii(b@[i as int]));
            return None;
        }
        v.push(c as char);
        i = i + 1;
    }
    assert(v@ =~= Seq::new(b@.len(), |j: int| b@[j] as char));
    Some(string_of(v.as_slice()))
}

/// The number of tries: the query parameter if given, else the header when
/// it reads as a `u32`, else the server's default.
pub open spec fn tries_spec(query: Option<u32>, header: Option<Seq<u8>>, default_tries: u32) -> u32 {
    match query {
        Some(t) => t,
        None => match header {
            Some(b) => match header_text_spec(b) {
                Some(s) => match parse_u32_spec(s) {
                    Some(t) => t,
                    None => default_tries,
                },
                None => default_tries,
            },
            None => default_tries,
        },
    }
}

/// The object name: the query parameter if given, else the header when it
/// reads as text.
pub open spec fn object_name_spec(query: Option<Seq<char>>, header: Option<Seq<u8>>) -> Option<
    Seq<char>,
> {
    match query {
        Some(n) => Some(n),
        None => match header {
            Some(b) => header_text_spec(b),
            None => None,
        },
    }
}

/// The owner secret is given and refused: the query parameter, when
/// present, is not a secret key; else the header, when present, is not
/// text or not a secret key.
pub open spec fn owner_secret_fails(query: Option<Seq<char>>, header: Option<Seq<u8>>) -> bool {
    match query {
        Some(t) => !secret_key_hex_valid(t),
        None => match header {
            Some(b) => match header_text_spec(b) {
                Some(t) => !secret_key_hex_valid(t),
                None => true,
            },
            None => false,
        },
    }
}

/// The derivation index is taken from the header (no query parameter is
/// given) and the header is present and refused: not text, or not of 32
/// bytes.
pub open spec fn derivation_index_fails(query_given: bool, header: Option<Seq<u8>>) -> bool {
    !query_given && match header {
        Some(b) => header_text_spec(b) is None || b.len() != 32,
        None => false,
    }
}

/// The app identity header is present and not text.
pub open spec fn app_id_fails(header: Option<Seq<u8>>) -> bool {
    match header {
        Some(b) => header_text_spec(b) is None,
        None => false,
    }
}

/// Why the parameters of a mutating request were refused.
#[derive(Debug)]
pub enum RequestParamsError {
    /// The owner secret header is not text.
    OwnerSecretNotString,
    /// The owner secret header is not a secret key (with the key parser's reason).
    OwnerSecretInvalid { reason: String },
    /// The owner secret query parameter is not a secret key (with the key parser's reason).
    OwnerSecretQueryInvalid { reason: String },
    /// The derivation index header is not text.
    DerivationIndexNotString,
    /// The derivation index header is not of 32 bytes.
    DerivationIndexWrongLength,
    /// The app identity header is not text.
    AppIdNotString,
}

/// The reason a header value that is not visible ASCII gives for not being text.
pub const NOT_A_STR: &'static str = "failed to convert header to a str";

/// The reason a text of other than 32 bytes gives for not being an index.
pub const NOT_AN_ARRAY: &'static str = "could not convert slice to array";

/// The text of a refusal of request parameters, as the API reports it.
pub open spec fn params_error_text(e: RequestParamsError) -> Seq<char> {
    match e {
        RequestParamsError::OwnerSecretNotString => "Request header "@ + HEADER_ANT_OWNER_SECRET@
            + " is not a string - "@ + NOT_A_STR@,
        RequestParamsError::OwnerSecretInvalid { reason } => "Request header "@
            + HEADER_ANT_OWNER_SECRET@ + " is not a valid secret key - "@ + reason@,
        RequestParamsError::OwnerSecretQueryInvalid { reason } => "Query parameter owner_secret"@
            + " is not a valid secret key - "@ + reason@,
        RequestParamsError::DerivationIndexNotString => "Request header "@
            + HEADER_ANT_DERIVATION_INDEX@ + " is not a string - "@ + NOT_A_STR@,
        RequestParamsError::DerivationIndexWrongLength => "Request header "@
            + HEADER_ANT_DERIVATION_INDEX@ + " is not a 32 character string - "@
            + NOT_AN_ARRAY@,
        RequestParamsError::AppIdNotString => "Request header "@ + HEADER_ANT_APP_ID@
            + " is not a string - "@ + NOT_A_STR@,
    }
}

impl RequestParamsError {
    /// The text of the error, as the API reports it.
    pub fn message(&self) -> (r: String)
        ensures
            r@ == params_error_text(*self),
    {
        let mut v: Vec<char> = Vec::new();
        if let RequestParamsError::OwnerSecretQueryInvalid { reason } = self {
            push_str(&mut v, "Query parameter owner_secret");
            push_str(&mut v, " is not a valid secret key - ");
            push_str(&mut v, reason.as_str());
            return string_of(v.as_slice());
        }
        push_str(&mut v, "Request header ");
        match self {
            RequestParamsError::OwnerSecretQueryInvalid { .. } => {},
            RequestParamsError::OwnerSecretNotString => {
                push_str(&mut v, HEADER_ANT_OWNER_SECRET);
                push_str(&mut v, " is not a string - ");
                push_str(&mut v, NOT_A_STR);
            },
            RequestParamsError::OwnerSecretInvalid { reason } => {
                push_str(&mut v, HEADER_ANT_OWNER_SECRET);
                push_str(&mut v, " is not a valid secret key - ");
                push_str(&mut v, reason.as_str());
            },
            RequestParamsError::DerivationIndexNotString => {
                push_str(&mut v, HEADER_ANT_DERIVATION_INDEX);
                push_str(&mut v, " is not a string - ");
                push_str(&mut v, NOT_A_STR);
            },
            RequestParamsError::DerivationIndexWrongLength => {
                push_str(&mut v, HEADER_ANT_DERIVATION_INDEX);
                push_str(&mut v, " is not a 32 character string - ");
                push_str(&mut v, NOT_AN_ARRAY);
            },
            RequestParamsError::AppIdNotString => {
                push_str(&mut v, HEADER_ANT_APP_ID);
                push_str(&mut v, " is not a string - ");
                push_str(&mut v, NOT_A_STR);
            },
        }
        string_of(v.as_slice())
    }
}

/// Validated parameters of a mutating request.
#[derive(Debug)]
pub struct ParsedRequestParams {
    /// The number of times to try a mutation (0 = unlimited).
    pub tries: u32,
    /// An optional name for the object being created or updated.
    pub object_name: Option<String>,
    /// A secret key that overrides the one the server would use.
    pub owner_secret: Option<blsttc::SecretKey>,
    /// A key to use when deriving keys for objects of the type.
    pub type_derivation_index: Option<[u8; 32]>,
    /// The identifier of the requesting app.
    pub app_id: Option<String>,
}

impl Default for ParsedRequestParams {
    fn default() -> (r: Self)
        ensures
            r.tries == 1,
            r.object_name is None,
            r.owner_secret is None,
            r.type_derivation_index is None,
            r.app_id is None,
    {
        ParsedRequestParams {
            tries: 1,
            object_name: None,
            owner_secret: None,
            type_derivation_index: None,
            app_id: None,
        }
    }
}

/// The 32 bytes of a slice of that length, as an array.
fn array32(b: &[u8]) -> (r: [u8; 32])
    requires
        b@.len() == 32,
    ensures
        r@ == b@,
{
    let mut a: [u8; 32] = [0u8; 32];
    let mut i: usize = 0;
    while i < 32
        invariant
            i <= 32,
            b@.len() == 32,
            a@.len() == 32,
            forall|j: int| 0 <= j < i ==> a@[j] == b@[j],
        decreases 32 - i,
    {
        a[i] = b[i];
        i = i + 1;
    }
    assert(a@ =~= b@);
    a
}

impl ParsedRequestParams {
    /// Reads the parameters of a mutating request from its query parameters
    /// and headers; a query parameter takes precedence over its header.
    /// `default_tries` is the server's number of tries. The owner secret and
    /// the derivation index come from the query parameter when it is given,
    /// else from the header; the app identity comes from its header. A
    /// request whose owner secret, derivation index or app identity cannot be
    /// used is refused (checked in that order).
    pub fn process_mutable_type_header_and_query_params(
        default_tries: u32,
        headers: &MutateHeaders,
        query_params: &MutateQueryParams,
    ) -> (r: Result<ParsedRequestParams, RequestParamsError>)
        ensures
            r is Err <==> (owner_secret_fails(
                opt_string_view(query_params.owner_secret),
                header_view(headers.owner_secret),
            ) || derivation_index_fails(
                query_params.type_derivation_key is Some,
                header_view(headers.derivation_index),
            ) || app_id_fails(header_view(headers.app_id))),
            (query_params.owner_secret matches Some(q) && !secret_key_hex_valid(q@)) ==> r matches Err(
                RequestParamsError::OwnerSecretQueryInvalid { .. },
            ),
            (headers.owner_secret matches Some(b) && query_params.owner_secret is None
                && header_text_spec(b@) is None) ==> r matches Err(
                RequestParamsError::OwnerSecretNotString,
            ),
            (headers.owner_secret matches Some(b) && query_params.owner_secret is None
                && header_text_spec(b@) is Some && owner_secret_fails(None, Some(b@))) ==> r matches Err(
                RequestParamsError::OwnerSecretInvalid { .. },
            ),
            (!owner_secret_fails(
                opt_string_view(query_params.owner_secret),
                header_view(headers.owner_secret),
            ) && query_params.type_derivation_key is None) ==> ((headers.derivation_index matches Some(
                b
            ) && header_text_spec(b@) is None) ==> r matches Err(
                RequestParamsError::DerivationIndexNotString,
            )),
            (!owner_secret_fails(
                opt_string_view(query_params.owner_secret),
                header_view(headers.owner_secret),
            ) && query_params.type_derivation_key is None) ==> ((headers.derivation_index matches Some(
                b
            ) && header_text_spec(b@) is Some && b@.len() != 32) ==> r matches Err(
                RequestParamsError::DerivationIndexWrongLength,
            )),
            (!owner_secret_fails(
                opt_string_view(query_params.owner_secret),
                header_view(headers.owner_secret),
            ) && !derivation_index_fails(
                query_params.type_derivation_key is Some,
                header_view(headers.derivation_index),
            ) && app_id_fails(header_view(headers.app_id))) ==> r matches Err(
                RequestParamsError::AppIdNotString,
            ),
            r matches Ok(p) ==> {
                &&& p.tries == tries_spec(query_params.tries, header_view(headers.tries), default_tries)
                &&& opt_string_view(p.object_name) == object_name_spec(
                    opt_string_view(query_params.object_name),
                    header_view(headers.object_name),
                )
                &&& (p.owner_secret is Some <==> (query_params.owner_secret is Some
                    || headers.owner_secret is Some))
                &&& (query_params.owner_secret matches Some(q) ==> p.owner_secret == Some(
                    secret_key_of_hex(q@),
                ))
                &&& (headers.owner_secret matches Some(b) ==> (query_params.owner_secret is None
                    ==> p.owner_secret == Some(secret_key_of_hex(header_text_spec(b@)->0))))
                &&& match query_params.type_derivation_key {
                    Some(k) => p.type_derivation_index == Some(k),
                    None => match p.type_derivation_index {
                        Some(a) => headers.derivation_index matches Some(b) && a@ == b@,
                        None => headers.derivation_index is None,
                    },
                }
                &&& opt_string_view(p.app_id) == match headers.app_id {
                    Some(b) => header_text_spec(b@),
                    None => None,
                }
            },
    {
        let tries: u32 = match query_params.tries {
            Some(t) => t,
            None => match &headers.tries {
                Some(b) => match header_text(b.as_slice()) {
                    Some(s) => {
                        let cs = chars_of(s.as_str());
                        match parse_u32(cs.as_slice()) {
                            Some(t) => t,
                            None => default_tries,
                        }
                    },
                    None => default_tries,
                },
                None => default_tries,
            },
        };

        let object_name: Option<String> = match &query_params.object_name {
            Some(n) => Some(n.clone()),
            None => match &headers.object_name {
                Some(b) => header_text(b.as_slice()),
                None => None,
            },
        };

        let owner_secret: Option<blsttc::SecretKey> = match &query_params.owner_secret {
            Some(q) => match secret_key_from_hex(q.as_str()) {
                Ok(secret) => Some(secret),
                Err(reason) => {
                    return Err(RequestParamsError::OwnerSecretQueryInvalid { reason });
                },
            },
            None => match &headers.owner_secret {
                Some(b) => match header_text(b.as_slice()) {
                    Some(s) => match secret_key_from_hex(s.as_str()) {
                        Ok(secret) => Some(secret),
                        Err(reason) => {
                            return Err(RequestParamsError::OwnerSecretInvalid { reason });
                        },
                    },
                    None => {
                        return Err(RequestParamsError::OwnerSecretNotString);
                    },
                },
                None => None,
            },
        };

        let type_derivation_index: Option<[u8; 32]> = match query_params.type_derivation_key {
            Some(k) => Some(k),
            None => match &headers.derivation_index {
                Some(b) => match header_text(b.as_slice()) {
                    Some(_) => {
                        if b.len() == 32 {
                            Some(array32(b.as_slice()))
                        } else {
                            return Err(RequestParamsError::DerivationIndexWrongLength);
                        }
                    },
                    None => {
                        return Err(RequestParamsError::DerivationIndexNotString);
                    },
                },
                None => None,
            },
        };

        let mut parsed_params = ParsedRequestParams {
            tries,
            object_name,
            owner_secret,
            type_derivation_index,
            app_id: None,
        };
        let app_id_header: Option<&[u8]> = match &headers.app_id {
            Some(b) => Some(b.as_slice()),
            None => None,
        };
        match parsed_params.parse_app_id_header_params(app_id_header) {
            Ok(()) => {},
            Err(e) => {
                return Err(e);
            },
        }
        Ok(parsed_params)
    }

    /// Reads the app identity header, if present (`app_id` holds its value).
    pub fn parse_app_id_header_params(&mut self, app_id: Option<&[u8]>) -> (r: Result<
        (),
        RequestParamsError,
    >)
        ensures
            match app_id {
                None => r is Ok && *final(self) == *old(self),
                Some(b) => match header_text_spec(b@) {
                    Some(t) => {
                        &&& r is Ok
                        &&& opt_string_view(final(self).app_id) == Some(t)
                        &&& final(self).tries == old(self).tries
                        &&& final(self).object_name == old(self).object_name
                        &&& final(self).owner_secret == old(self).owner_secret
                        &&& final(self).type_derivation_index == old(self).type_derivation_index
                    },
                    None => r matches Err(RequestParamsError::AppIdNotString) && *final(self) == *old(
                        self,
                    ),
                },
            },
    {
        match app_id {
            Some(b) => match header_text(b) {
                Some(s) => {
                    self.app_id = Some(s);
                    Ok(())
                },
                None => Err(RequestParamsError::AppIdNotString),
            },
            None => Ok(()),
        }
    }
}

/// The History of the `friends` app on the public network.
pub const FRIENDS_HISTORY_PUBLIC: &'static str = "b1d0f2c3c1dbbd1772a40d29f664104783cc93333d3a922c5e2c17dbe07c329cee1fa4e3452329c8a5d3eeb93f9c7d80";

/// The History of the `scratchchat` app on the public network.
pub const SCRATCHCHAT_HISTORY_PUBLIC: &'static str = "a27b3fdb495870ace8f91005223998dc675c8e1bceb50bac66c993bb720a013c9f83d7a46e6d0daecbb3530d5249e587";

/// Registers the built-in names of the dweb API: `awesome` (the awesome
/// site's History, `awesome_local` on a local test network, else
/// `awesome_public`) and, on the public network, `friends` and
/// `scratchchat`. Each is registered as the name-register API does, so a
/// name already held keeps its address.
pub fn register_builtin_names(
    registry: &mut NameRegistry,
    is_local: bool,
    awesome_local: &str,
    awesome_public: &str,
)
    requires
        old(registry).wf(),
    ensures
        final(registry).wf(),
        is_local ==> final(registry).entries() == register_entries(
            old(registry).entries(),
            "awesome"@,
            awesome_local@,
        ),
        !is_local ==> final(registry).entries() == register_entries(
            register_entries(
                register_entries(old(registry).entries(), "awesome"@, awesome_public@),
                "friends"@,
                FRIENDS_HISTORY_PUBLIC@,
            ),
            "scratchchat"@,
            SCRATCHCHAT_HISTORY_PUBLIC@,
        ),
{
    if is_local {
        let _ = registry.register("awesome", true, awesome_local);
    } else {
        let _ = registry.register("awesome", true, awesome_public);
        let _ = registry.register("friends", true, FRIENDS_HISTORY_PUBLIC);
        let _ = registry.register("scratchchat", true, SCRATCHCHAT_HISTORY_PUBLIC);
    }
}

/// The content type with which a file is served: its own, else `text/plain`.
pub fn content_type_or_plain(content_type: Option<String>) -> (r: String)
    ensures
        r@ == (match content_type {
            Some(c) => c@,
            None => "text/plain"@,
        }),
{
    match content_type {
        Some(c) => c,
        None => String::from_str("text/plain"),
    }
}

} // verus!
