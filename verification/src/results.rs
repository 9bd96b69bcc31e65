//! The results that the REST API returns for requests that store data, and
//! how each becomes an HTTP response.

use vstd::prelude::*;
use vstd::string::*;
use crate::objects::DwebType;
use crate::text::{push_str, string_of};

verus! {

/// HTTP 200 OK.
pub const STATUS_OK: u16 = 200;
/// HTTP 201 Created.
pub const STATUS_CREATED: u16 = 201;
/// HTTP 400 Bad Request.
pub const STATUS_BAD_REQUEST: u16 = 400;
/// HTTP 418 I'm a teapot: the status of a result not yet decided.
pub const STATUS_IM_A_TEAPOT: u16 = 418;
/// HTTP 500 Internal Server Error.
pub const STATUS_INTERNAL_SERVER_ERROR: u16 = 500;
/// HTTP 502 Bad Gateway: the status given for a network failure, and for a
/// status code that is not one.
pub const STATUS_BAD_GATEWAY: u16 = 502;

/// A number that `StatusCode::from_u16` accepts as an HTTP status.
pub open spec fn is_status_code(code: u16) -> bool {
    100 <= code && code < 1000
}

/// `StatusCode::is_success`: a 2xx status.
pub open spec fn is_success(code: u16) -> bool {
    200 <= code && code < 300
}

/// The status of a response for a result's status code:
/// `StatusCode::from_u16(code).unwrap_or(fallback)`.
pub open spec fn status_or(code: u16, fallback: u16) -> u16 {
    if is_status_code(code) {
        code
    } else {
        fallback
    }
}

/// See [`status_or`].
pub fn status_code_or(code: u16, fallback: u16) -> (r: u16)
    ensures
        r == status_or(code, fallback),
{
    if 100 <= code && code < 1000 {
        code
    } else {
        fallback
    }
}

/// How a result is answered: as JSON with a success status, or as an HTML
/// error page with another status.
#[derive(Debug, Clone, Copy, PartialEq, Eq)]
pub enum ResponsePlan {
    Json { status: u16 },
    ErrorPage { status: u16 },
}

/// The result of a POST or PUT of one of the Autonomi types.
#[derive(Debug, Clone)]
pub struct MutateResult {
    pub dweb_type: DwebType,
    /// The REST operation (e.g. "/pointer POST").
    pub rest_operation: String,
    /// The HTTP status of the operation.
    pub status_code: u16,
    /// "success", or an explanation of the error.
    pub status_message: String,
    /// The cost in ANT.
    pub cost_in_ant: String,
    /// The cost in ARB-ETH.
    pub cost_in_arb_eth: String,
    pub file_name: String,
    pub full_path: String,
    pub object_name: String,
    /// Hexadecimal address of what was stored (public data).
    pub network_address: String,
    /// Hexadecimal data map of what was stored (private data).
    pub data_map: String,
}

impl Default for MutateResult {
    fn default() -> (r: MutateResult)
        ensures
            r.dweb_type == DwebType::Unknown,
            r.rest_operation@ == Seq::<char>::empty(),
            r.status_code == STATUS_IM_A_TEAPOT,
            r.status_message@ == Seq::<char>::empty(),
            r.cost_in_ant@ == "0.0"@,
            r.cost_in_arb_eth@ == "0.0"@,
            r.file_name@ == Seq::<char>::empty(),
            r.full_path@ == Seq::<char>::empty(),
            r.object_name@ == Seq::<char>::empty(),
            r.network_address@ == Seq::<char>::empty(),
            r.data_map@ == Seq::<char>::empty(),
    {
        MutateResult {
            dweb_type: DwebType::Unknown,
            rest_operation: String::new(),
            status_code: STATUS_IM_A_TEAPOT,
            status_message: String::new(),
            cost_in_ant: String::from_str("0.0"),
            cost_in_arb_eth: String::from_str("0.0"),
            file_name: String::new(),
            full_path: String::new(),
            object_name: String::new(),
            network_address: String::new(),
            data_map: String::new(),
        }
    }
}

/// The response plan for a result's status code: JSON under the status when
/// it is a success, else an error page; a code that is no HTTP status is
/// answered as 502 (Bad Gateway).
pub open spec fn response_plan_spec(status_code: u16) -> ResponsePlan {
    let status = status_or(status_code, STATUS_BAD_GATEWAY);
    if is_success(status) {
        ResponsePlan::Json { status }
    } else {
        ResponsePlan::ErrorPage { status }
    }
}

/// The text of a network failure to store a value of a type.
pub open spec fn store_failure_message_spec(rest_type: Seq<char>, error: Seq<char>) -> Seq<char> {
    "failed store "@ + rest_type + " on the network - "@ + error
}

/// The cost reported when the spends could not be read.
pub const COST_UNKNOWN_ANT: &'static str = "unkown";
/// The cost reported when the spends could not be read.
pub const COST_UNKNOWN_ARB_ETH: &'static str = "unknown";

impl MutateResult {
    /// How the result is answered (see [`response_plan_spec`]).
    pub fn response_plan(&self) -> (r: ResponsePlan)
        ensures
            r == response_plan_spec(self.status_code),
    {
        let status = status_code_or(self.status_code, STATUS_BAD_GATEWAY);
        if 200 <= status && status < 300 {
            ResponsePlan::Json { status }
        } else {
            ResponsePlan::ErrorPage { status }
        }
    }

    /// The result of storing a value: "success", the costs (when the spends
    /// could be read) and the address where it was stored.
    pub fn stored(
        dweb_type: DwebType,
        rest_operation: String,
        status_code: u16,
        costs: Option<(String, String)>,
        network_address: String,
    ) -> (r: MutateResult)
        ensures
            r.dweb_type == dweb_type,
            r.rest_operation@ == rest_operation@,
            r.status_code == status_code,
            r.status_message@ == "success"@,
            match costs {
                Some((ant, eth)) => r.cost_in_ant@ == ant@ && r.cost_in_arb_eth@ == eth@,
                None => r.cost_in_ant@ == COST_UNKNOWN_ANT@ && r.cost_in_arb_eth@
                    == COST_UNKNOWN_ARB_ETH@,
            },
            r.network_address@ == network_address@,
            r.file_name@ == Seq::<char>::empty(),
            r.full_path@ == Seq::<char>::empty(),
            r.object_name@ == Seq::<char>::empty(),
            r.data_map@ == Seq::<char>::empty(),
    {
        let (cost_in_ant, cost_in_arb_eth) = match costs {
            Some(c) => c,
            None => (String::from_str(COST_UNKNOWN_ANT), String::from_str(COST_UNKNOWN_ARB_ETH)),
        };
        MutateResult {
            dweb_type,
            rest_operation,
            status_code,
            status_message: String::from_str("success"),
            cost_in_ant,
            cost_in_arb_eth,
            file_name: String::new(),
            full_path: String::new(),
            object_name: String::new(),
            network_address,
            data_map: String::new(),
        }
    }

    /// The result of a request that failed with a status and a message; the
    /// other fields are those of the default result.
    pub fn failed(dweb_type: DwebType, rest_operation: String, status_code: u16, status_message: String)
        -> (r: MutateResult)
        ensures
            r.dweb_type == dweb_type,
            r.rest_operation@ == rest_operation@,
            r.status_code == status_code,
            r.status_message@ == status_message@,
            r.cost_in_ant@ == "0.0"@,
            r.cost_in_arb_eth@ == "0.0"@,
            r.network_address@ == Seq::<char>::empty(),
            r.file_name@ == Seq::<char>::empty(),
            r.full_path@ == Seq::<char>::empty(),
            r.object_name@ == Seq::<char>::empty(),
            r.data_map@ == Seq::<char>::empty(),
    {
        MutateResult {
            dweb_type,
            rest_operation,
            status_code,
            status_message,
            cost_in_ant: String::from_str("0.0"),
            cost_in_arb_eth: String::from_str("0.0"),
            file_name: String::new(),
            full_path: String::new(),
            object_name: String::new(),
            network_address: String::new(),
            data_map: String::new(),
        }
    }
}

/// The message of a network failure to store a value of type `rest_type`.
pub fn store_failure_message(rest_type: &str, error: &str) -> (r: String)
    ensures
        r@ == store_failure_message_spec(rest_type@, error@),
{
    let mut v: Vec<char> = Vec::new();
    push_str(&mut v, "failed store ");
    push_str(&mut v, rest_type);
    push_str(&mut v, " on the network - ");
    push_str(&mut v, error);
    string_of(v.as_slice())
}

/// The result of uploading one file.
#[derive(Debug, Clone)]
pub struct PutResult {
    pub dweb_type: DwebType,
    pub status_code: u16,
    pub status_message: String,
    /// The cost in attos (decimal).
    pub cost_in_attos: String,
    pub file_name: String,
    /// Hexadecimal address of the stored data (public data).
    pub data_address: String,
    /// Hexadecimal data map of the stored data (private data).
    pub data_map: String,
}

impl PutResult {
    /// A result with the given type, status, message and cost, and no file
    /// name, address or data map.
    pub fn new(dweb_type: DwebType, status_code: u16, status_message: String, cost_in_attos: String)
        -> (r: PutResult)
        ensures
            r.dweb_type == dweb_type,
            r.status_code == status_code,
            r.status_message@ == status_message@,
            r.cost_in_attos@ == cost_in_attos@,
            r.file_name@ == Seq::<char>::empty(),
            r.data_address@ == Seq::<char>::empty(),
            r.data_map@ == Seq::<char>::empty(),
    {
        PutResult {
            dweb_type,
            status_code,
            status_message,
            cost_in_attos,
            file_name: String::new(),
            data_address: String::new(),
            data_map: String::new(),
        }
    }

    /// The result of storing data: "success" with the cost and the
    /// hexadecimal address where it was stored, as its data address for
    /// public data and as its data map for private data.
    pub fn stored(dweb_type: DwebType, status_code: u16, cost_in_attos: String, address: String, public: bool)
        -> (r: PutResult)
        ensures
            r.dweb_type == dweb_type,
            r.status_code == status_code,
            r.status_message@ == "success"@,
            r.cost_in_attos@ == cost_in_attos@,
            r.file_name@ == Seq::<char>::empty(),
            public ==> r.data_address@ == address@ && r.data_map@ == Seq::<char>::empty(),
            !public ==> r.data_map@ == address@ && r.data_address@ == Seq::<char>::empty(),
    {
        let mut r = PutResult::new(dweb_type, status_code, String::from_str("success"), cost_in_attos);
        if public {
            r.data_address = address;
        } else {
            r.data_map = address;
        }
        r
    }

    /// The result of a failed store: the status and message, at no cost.
    pub fn failed(dweb_type: DwebType, status_code: u16, status_message: String) -> (r: PutResult)
        ensures
            r.dweb_type == dweb_type,
            r.status_code == status_code,
            r.status_message@ == status_message@,
            r.cost_in_attos@ == "0"@,
            r.file_name@ == Seq::<char>::empty(),
            r.data_address@ == Seq::<char>::empty(),
            r.data_map@ == Seq::<char>::empty(),
    {
        PutResult::new(dweb_type, status_code, status_message, String::from_str("0"))
    }
}

/// The result of a failed file upload: a public file result of no cost
/// with the file's name, the status and the message.
pub fn make_failed_put_file_result(file_name: String, status_code: u16, status_message: String)
    -> (r: PutResult)
    ensures
        r.dweb_type == DwebType::PublicFile,
        r.status_code == status_code,
        r.status_message@ == status_message@,
        r.cost_in_attos@ == "0"@,
        r.file_name@ == file_name@,
        r.data_address@ == Seq::<char>::empty(),
        r.data_map@ == Seq::<char>::empty(),
{
    let mut put_result = PutResult::new(
        DwebType::PublicFile,
        status_code,
        status_message,
        String::from_str("0"),
    );
    put_result.file_name = file_name;
    put_result
}

/// The results of uploading a list of files, in the order of the files.
#[derive(Debug, Clone)]
pub struct PutResultList {
    pub put_results: Vec<PutResult>,
}

} // verus!
