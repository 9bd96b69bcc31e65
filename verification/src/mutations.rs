//! The REST operations that store a Pointer, a Scratchpad or a Chunk, and
//! the result each gives for what the network did.

use vstd::prelude::*;
use vstd::string::*;
use crate::api_dweb::{opt_string_view, params_error_text, RequestParamsError};
use crate::objects::{scratchpad_type_name, scratchpad_type_name_spec, DwebType};
use crate::results::{store_failure_message, store_failure_message_spec, MutateResult, COST_UNKNOWN_ANT, COST_UNKNOWN_ARB_ETH};
use crate::text::{push_str, string_of};

verus! {

/// The operations that store data.
#[derive(Debug, Clone, Copy, PartialEq, Eq, Structural)]
pub enum MutateOperation {
    PointerPost,
    PointerPut,
    ScratchpadPost,
    ScratchpadPut,
    PrivateScratchpadPost,
    PrivateScratchpadPut,
    PublicScratchpadPost,
    PublicScratchpadPut,
    ChunkPost,
}

/// What an operation stores.
pub open spec fn dweb_type_spec(op: MutateOperation) -> DwebType {
    match op {
        MutateOperation::PointerPost | MutateOperation::PointerPut => DwebType::Pointer,
        MutateOperation::ScratchpadPost | MutateOperation::ScratchpadPut => DwebType::Scratchpad,
        MutateOperation::PrivateScratchpadPost | MutateOperation::PrivateScratchpadPut => DwebType::PrivateScratchpad,
        MutateOperation::PublicScratchpadPost | MutateOperation::PublicScratchpadPut => DwebType::PublicScratchpad,
        MutateOperation::ChunkPost => DwebType::Chunk,
    }
}

/// The REST operation (route and method) of an operation.
pub open spec fn rest_operation_spec(op: MutateOperation) -> Seq<char> {
    match op {
        MutateOperation::PointerPost => "/pointer POST"@,
        MutateOperation::PointerPut => "/pointer PUT"@,
        MutateOperation::ScratchpadPost => "/scratchpad POST"@,
        MutateOperation::ScratchpadPut => "/scratchpad PUT"@,
        MutateOperation::PrivateScratchpadPost => "/scratchpad-private POST"@,
        MutateOperation::PrivateScratchpadPut => "/scratchpad-private PUT"@,
        MutateOperation::PublicScratchpadPost => "/scratchpad-public POST"@,
        MutateOperation::PublicScratchpadPut => "/scratchpad-public PUT"@,
        MutateOperation::ChunkPost => "/chunk POST"@,
    }
}

/// The handler of an operation, as named in its messages.
pub open spec fn rest_handler_spec(op: MutateOperation) -> Seq<char> {
    match op {
        MutateOperation::PointerPost => "pointer_post()"@,
        MutateOperation::PointerPut => "pointer_put()"@,
        MutateOperation::ScratchpadPost => "scratchpad_post()"@,
        MutateOperation::ScratchpadPut => "scratchpad_put()"@,
        MutateOperation::PrivateScratchpadPost => "scratchpad_private_post()"@,
        MutateOperation::PrivateScratchpadPut => "scratchpad_private_put()"@,
        MutateOperation::PublicScratchpadPost => "scratchpad_public_post()"@,
        MutateOperation::PublicScratchpadPut => "scratchpad_public_put()"@,
        MutateOperation::ChunkPost => "chunk_post()"@,
    }
}

/// The name of the stored type in an operation's messages.
pub open spec fn rest_type_spec(op: MutateOperation) -> Seq<char> {
    match op {
        MutateOperation::PointerPost | MutateOperation::PointerPut => "Pointer"@,
        MutateOperation::ScratchpadPost | MutateOperation::ScratchpadPut => "Scratchpad"@,
        MutateOperation::PrivateScratchpadPost | MutateOperation::PrivateScratchpadPut => "private Scratchpad"@,
        MutateOperation::PublicScratchpadPost | MutateOperation::PublicScratchpadPut => "public Scratchpad"@,
        MutateOperation::ChunkPost => "Chunk"@,
    }
}

/// The operation creates (POST, answered 201) rather than updates (PUT,
/// answered 200).
pub open spec fn creates(op: MutateOperation) -> bool {
    match op {
        MutateOperation::PointerPost | MutateOperation::ScratchpadPost
        | MutateOperation::PrivateScratchpadPost | MutateOperation::PublicScratchpadPost
        | MutateOperation::ChunkPost => true,
        _ => false,
    }
}

/// The operation reports what storing cost.
pub open spec fn reports_costs(op: MutateOperation) -> bool {
    match op {
        MutateOperation::ScratchpadPut | MutateOperation::PrivateScratchpadPut
        | MutateOperation::ChunkPost => false,
        _ => true,
    }
}

/// The operation reports the address of what it stored.
pub open spec fn reports_address(op: MutateOperation) -> bool {
    match op {
        MutateOperation::ScratchpadPut | MutateOperation::PrivateScratchpadPut
        | MutateOperation::PublicScratchpadPut => false,
        _ => true,
    }
}

/// The REST operation that the result carries (the chunk upload leaves it empty).
pub open spec fn result_operation_spec(op: MutateOperation) -> Seq<char> {
    if op == MutateOperation::ChunkPost {
        Seq::<char>::empty()
    } else {
        rest_operation_spec(op)
    }
}

/// The message of a network failure: the chunk upload names its handler first.
pub open spec fn failure_message_spec(op: MutateOperation, error: Seq<char>) -> Seq<char> {
    let m = store_failure_message_spec(rest_type_spec(op), error);
    if op == MutateOperation::ChunkPost {
        rest_handler_spec(op) + seq![' '] + m
    } else {
        m
    }
}

/// What the network did with a store: the address where it stored the
/// value and the costs (when the spends could be read), or the error.
#[derive(Debug, Clone)]
pub enum StoreOutcome {
    Stored { address: String, costs: Option<(String, String)> },
    Failed { error: String },
}


/// An error page that answers a request in place of its operation: the
/// status, the page's heading and its message.
#[derive(Debug, Clone)]
pub struct RefusalPage {
    pub status: u16,
    pub heading: String,
    pub message: String,
}

/// The content type with which a Scratchpad is stored: the one the request
/// gives, or the one derived (by the network client's
/// `app_name_to_vault_content_type`) from a name.
#[derive(Debug, Clone)]
pub enum ContentTypeChoice {
    Given(u64),
    DerivedFrom(String),
}

/// The network call that stores the value: create a new object, update an
/// existing one (the network picks the next counter), or put a value built
/// with a counter of the request's choosing.
#[derive(Debug, Clone, Copy, PartialEq, Eq, Structural)]
pub enum StoreCall {
    Create,
    Update,
    Put,
}

/// How an operation stores its value: the network call, the content type,
/// and the counter that the stored value carries when the request fixes it.
#[derive(Debug, Clone)]
pub struct StorePlan {
    pub call: StoreCall,
    pub content_type: ContentTypeChoice,
    pub counter: Option<u64>,
}

/// The network call of an operation.
pub open spec fn store_call_spec(op: MutateOperation) -> StoreCall {
    match op {
        MutateOperation::PointerPost | MutateOperation::ScratchpadPost
        | MutateOperation::PrivateScratchpadPost | MutateOperation::ChunkPost => StoreCall::Create,
        MutateOperation::ScratchpadPut | MutateOperation::PrivateScratchpadPut => StoreCall::Update,
        MutateOperation::PointerPut | MutateOperation::PublicScratchpadPost
        | MutateOperation::PublicScratchpadPut => StoreCall::Put,
    }
}

/// The counter the stored value carries: 0 for a new public Scratchpad, the
/// request's counter for a put of a Pointer or a public Scratchpad, none
/// (left to the network) otherwise.
pub open spec fn store_counter_spec(op: MutateOperation, counter: u64) -> Option<u64> {
    match op {
        MutateOperation::PublicScratchpadPost => Some(0u64),
        MutateOperation::PointerPut | MutateOperation::PublicScratchpadPut => Some(counter),
        _ => None,
    }
}

/// The content type: a new private Scratchpad whose request leaves the
/// content type 0 and names an app takes it from its type name; every other
/// store keeps the request's.
pub open spec fn content_type_name_spec(
    op: MutateOperation,
    data_encoding: u64,
    app_id: Option<Seq<char>>,
    object_name: Option<Seq<char>>,
) -> Option<Seq<char>> {
    if op == MutateOperation::PrivateScratchpadPost {
        scratchpad_type_name_spec(data_encoding, app_id, object_name)
    } else {
        None
    }
}

/// The handlers that load the server's secret key themselves (those of
/// `/scratchpad`), and refuse with a failed result when they cannot.
pub open spec fn loads_secret_key(op: MutateOperation) -> bool {
    op == MutateOperation::ScratchpadPost || op == MutateOperation::ScratchpadPut
}

/// The message of a refusal for want of an owner secret: Pointer handlers
/// could not get one, the `/scratchpad` handlers could not load the secret
/// key (a failed result, whose page names the handler before the result's
/// message), the other Scratchpad handlers could not derive one.
pub open spec fn owner_secret_message_spec(op: MutateOperation, error: Seq<char>) -> Seq<char> {
    if loads_secret_key(op) {
        rest_handler_spec(op) + seq![' '] + rest_handler_spec(op) + " failed to load secret key - "@
            + error
    } else {
        let verb = if op == MutateOperation::PointerPost || op == MutateOperation::PointerPut {
            " failed to get owner secret for "@
        } else {
            " failed to derive owner secret for "@
        };
        rest_handler_spec(op) + verb + rest_type_spec(op) + " - "@ + error
    }
}

/// Every operation that creates an object (a POST) is answered 201 on
/// success and reports the address where the network stored the object;
/// the updates (PUT) are answered 200.
pub proof fn created_objects_report_their_address(op: MutateOperation)
    ensures
        creates(op) ==> reports_address(op),
        creates(op) <==> (op == MutateOperation::PointerPost || op == MutateOperation::ScratchpadPost
            || op == MutateOperation::PrivateScratchpadPost || op == MutateOperation::PublicScratchpadPost
            || op == MutateOperation::ChunkPost),
{
}

impl MutateOperation {
    /// See [`dweb_type_spec`].
    pub fn dweb_type(&self) -> (r: DwebType)
        ensures
            r == dweb_type_spec(*self),
    {
        match self {
            MutateOperation::PointerPost | MutateOperation::PointerPut => DwebType::Pointer,
            MutateOperation::ScratchpadPost | MutateOperation::ScratchpadPut => DwebType::Scratchpad,
            MutateOperation::PrivateScratchpadPost | MutateOperation::PrivateScratchpadPut => DwebType::PrivateScratchpad,
            MutateOperation::PublicScratchpadPost | MutateOperation::PublicScratchpadPut => DwebType::PublicScratchpad,
            MutateOperation::ChunkPost => DwebType::Chunk,
        }
    }

    /// See [`rest_operation_spec`].
    pub fn rest_operation(&self) -> (r: String)
        ensures
            r@ == rest_operation_spec(*self),
    {
        match self {
            MutateOperation::PointerPost => String::from_str("/pointer POST"),
            MutateOperation::PointerPut => String::from_str("/pointer PUT"),
            MutateOperation::ScratchpadPost => String::from_str("/scratchpad POST"),
            MutateOperation::ScratchpadPut => String::from_str("/scratchpad PUT"),
            MutateOperation::PrivateScratchpadPost => String::from_str("/scratchpad-private POST"),
            MutateOperation::PrivateScratchpadPut => String::from_str("/scratchpad-private PUT"),
            MutateOperation::PublicScratchpadPost => String::from_str("/scratchpad-public POST"),
            MutateOperation::PublicScratchpadPut => String::from_str("/scratchpad-public PUT"),
            MutateOperation::ChunkPost => String::from_str("/chunk POST"),
        }
    }

    /// See [`rest_handler_spec`].
    pub fn rest_handler(&self) -> (r: String)
        ensures
            r@ == rest_handler_spec(*self),
    {
        match self {
            MutateOperation::PointerPost => String::from_str("pointer_post()"),
            MutateOperation::PointerPut => String::from_str("pointer_put()"),
            MutateOperation::ScratchpadPost => String::from_str("scratchpad_post()"),
            MutateOperation::ScratchpadPut => String::from_str("scratchpad_put()"),
            MutateOperation::PrivateScratchpadPost => String::from_str("scratchpad_private_post()"),
            MutateOperation::PrivateScratchpadPut => String::from_str("scratchpad_private_put()"),
            MutateOperation::PublicScratchpadPost => String::from_str("scratchpad_public_post()"),
            MutateOperation::PublicScratchpadPut => String::from_str("scratchpad_public_put()"),
            MutateOperation::ChunkPost => String::from_str("chunk_post()"),
        }
    }

    /// See [`rest_type_spec`].
    pub fn rest_type(&self) -> (r: String)
        ensures
            r@ == rest_type_spec(*self),
    {
        match self {
            MutateOperation::PointerPost | MutateOperation::PointerPut => String::from_str("Pointer"),
            MutateOperation::ScratchpadPost | MutateOperation::ScratchpadPut => String::from_str("Scratchpad"),
            MutateOperation::PrivateScratchpadPost | MutateOperation::PrivateScratchpadPut => String::from_str(
                "private Scratchpad",
            ),
            MutateOperation::PublicScratchpadPost | MutateOperation::PublicScratchpadPut => String::from_str(
                "public Scratchpad",
            ),
            MutateOperation::ChunkPost => String::from_str("Chunk"),
        }
    }

    /// The answer to a request whose parameters were refused: a 400 page
    /// headed by the REST operation.
    pub fn params_refusal(&self, error: &RequestParamsError) -> (r: RefusalPage)
        ensures
            r.status == 400,
            r.heading@ == rest_operation_spec(*self),
            r.message@ == rest_operation_spec(*self) + " request error - "@ + params_error_text(*error),
    {
        let heading = self.rest_operation();
        let mut v: Vec<char> = Vec::new();
        push_str(&mut v, heading.as_str());
        push_str(&mut v, " request error - ");
        let m = error.message();
        push_str(&mut v, m.as_str());
        RefusalPage { status: 400, heading, message: string_of(v.as_slice()) }
    }

    /// The answer to a request for which no owner secret could be had
    /// (`error` says why): 500 from the Pointer handlers and the
    /// `/scratchpad` handlers, 400 from the other Scratchpad handlers, headed
    /// by the REST operation.
    pub fn owner_secret_refusal(&self, error: &str) -> (r: RefusalPage)
        ensures
            r.status == (if *self == MutateOperation::PointerPost || *self == MutateOperation::PointerPut
                || loads_secret_key(*self) {
                500u16
            } else {
                400u16
            }),
            r.heading@ == rest_operation_spec(*self),
            r.message@ == owner_secret_message_spec(*self, error@),
    {
        let pointer = *self == MutateOperation::PointerPost || *self == MutateOperation::PointerPut;
        let loads = *self == MutateOperation::ScratchpadPost || *self == MutateOperation::ScratchpadPut;
        let handler = self.rest_handler();
        let mut v: Vec<char> = Vec::new();
        push_str(&mut v, handler.as_str());
        if loads {
            v.push(' ');
            push_str(&mut v, handler.as_str());
            push_str(&mut v, " failed to load secret key - ");
            push_str(&mut v, error);
            let status: u16 = 500;
            return RefusalPage { status, heading: self.rest_operation(), message: string_of(v.as_slice()) };
        }
        let rest_type = self.rest_type();
        if pointer {
            push_str(&mut v, " failed to get owner secret for ");
        } else {
            push_str(&mut v, " failed to derive owner secret for ");
        }
        push_str(&mut v, rest_type.as_str());
        push_str(&mut v, " - ");
        push_str(&mut v, error);
        let status: u16 = if pointer { 500 } else { 400 };
        RefusalPage { status, heading: self.rest_operation(), message: string_of(v.as_slice()) }
    }

    /// The result for a Pointer whose target could not be read (`error`
    /// says why): 400, with the handler's message.
    pub fn target_refusal(&self, error: &str) -> (r: MutateResult)
        ensures
            r.dweb_type == dweb_type_spec(*self),
            r.rest_operation@ == rest_operation_spec(*self),
            r.status_code == 400,
            r.status_message@ == rest_handler_spec(*self) + " failed - "@ + error@,
            r.network_address@ == Seq::<char>::empty(),
            r.cost_in_ant@ == "0.0"@,
            r.cost_in_arb_eth@ == "0.0"@,
    {
        let handler = self.rest_handler();
        let mut v: Vec<char> = Vec::new();
        push_str(&mut v, handler.as_str());
        push_str(&mut v, " failed - ");
        push_str(&mut v, error);
        MutateResult::failed(self.dweb_type(), self.rest_operation(), 400, string_of(v.as_slice()))
    }

    /// How the operation stores a value whose request gives `data_encoding`
    /// and `counter`, for the request's app and object name.
    pub fn store_plan(
        &self,
        data_encoding: u64,
        counter: u64,
        app_id: &Option<String>,
        object_name: &Option<String>,
    ) -> (r: StorePlan)
        ensures
            r.call == store_call_spec(*self),
            r.counter == store_counter_spec(*self, counter),
            match content_type_name_spec(
                *self,
                data_encoding,
                opt_string_view(*app_id),
                opt_string_view(*object_name),
            ) {
                Some(n) => r.content_type matches ContentTypeChoice::DerivedFrom(m) && m@ == n,
                None => r.content_type matches ContentTypeChoice::Given(e) && e == data_encoding,
            },
    {
        let call = match self {
            MutateOperation::PointerPost | MutateOperation::ScratchpadPost
            | MutateOperation::PrivateScratchpadPost | MutateOperation::ChunkPost => StoreCall::Create,
            MutateOperation::ScratchpadPut | MutateOperation::PrivateScratchpadPut => StoreCall::Update,
            MutateOperation::PointerPut | MutateOperation::PublicScratchpadPost
            | MutateOperation::PublicScratchpadPut => StoreCall::Put,
        };
        let counter = match self {
            MutateOperation::PublicScratchpadPost => Some(0u64),
            MutateOperation::PointerPut | MutateOperation::PublicScratchpadPut => Some(counter),
            _ => None,
        };
        let content_type = if *self == MutateOperation::PrivateScratchpadPost {
            match scratchpad_type_name(data_encoding, app_id, object_name) {
                Some(name) => ContentTypeChoice::DerivedFrom(name),
                None => ContentTypeChoice::Given(data_encoding),
            }
        } else {
            ContentTypeChoice::Given(data_encoding)
        };
        StorePlan { call, content_type, counter }
    }

    /// The result of the operation for what the network did: on success
    /// "success" under 201 (creating) or 200 (updating), with the costs and
    /// the address where the operation reports them; on failure 502 with
    /// the failure message.
    pub fn result(&self, outcome: StoreOutcome) -> (r: MutateResult)
        ensures
            r.dweb_type == dweb_type_spec(*self),
            r.rest_operation@ == result_operation_spec(*self),
            r.file_name@ == Seq::<char>::empty(),
            r.full_path@ == Seq::<char>::empty(),
            r.object_name@ == Seq::<char>::empty(),
            r.data_map@ == Seq::<char>::empty(),
            outcome matches StoreOutcome::Stored { address, .. } ==> (r.status_code == 201 ==> r.network_address@
                == address@),
            outcome matches StoreOutcome::Stored { address, .. } ==> (creates(*self) ==> r.network_address@
                == address@),
            match outcome {
                StoreOutcome::Stored { address, costs } => {
                    &&& r.status_code == (if creates(*self) { 201u16 } else { 200u16 })
                    &&& r.status_message@ == "success"@
                    &&& r.network_address@ == (if reports_address(*self) {
                        address@
                    } else {
                        Seq::<char>::empty()
                    })
                    &&& (reports_costs(*self) ==> match costs {
                        Some((ant, eth)) => r.cost_in_ant@ == ant@ && r.cost_in_arb_eth@ == eth@,
                        None => r.cost_in_ant@ == COST_UNKNOWN_ANT@ && r.cost_in_arb_eth@
                            == COST_UNKNOWN_ARB_ETH@,
                    })
                    &&& (!reports_costs(*self) ==> r.cost_in_ant@ == "0.0"@ && r.cost_in_arb_eth@
                        == "0.0"@)
                },
                StoreOutcome::Failed { error } => {
                    &&& r.status_code == 502
                    &&& r.status_message@ == failure_message_spec(*self, error@)
                    &&& r.network_address@ == Seq::<char>::empty()
                    &&& r.cost_in_ant@ == "0.0"@
                    &&& r.cost_in_arb_eth@ == "0.0"@
                },
            },
    {
        let operation = if *self == MutateOperation::ChunkPost {
            String::new()
        } else {
            self.rest_operation()
        };
        match outcome {
            StoreOutcome::Stored { address, costs } => {
                let status: u16 = match self {
                    MutateOperation::PointerPost | MutateOperation::ScratchpadPost
                    | MutateOperation::PrivateScratchpadPost | MutateOperation::PublicScratchpadPost
                    | MutateOperation::ChunkPost => 201,
                    _ => 200,
                };
                let costs = match self {
                    MutateOperation::ScratchpadPut | MutateOperation::PrivateScratchpadPut
                    | MutateOperation::ChunkPost => Some((String::from_str("0.0"), String::from_str("0.0"))),
                    _ => costs,
                };
                let address = match self {
                    MutateOperation::ScratchpadPut | MutateOperation::PrivateScratchpadPut
                    | MutateOperation::PublicScratchpadPut => String::new(),
                    _ => address,
                };
                MutateResult::stored(self.dweb_type(), operation, status, costs, address)
            },
            StoreOutcome::Failed { error } => {
                let rest_type = self.rest_type();
                let m = store_failure_message(rest_type.as_str(), error.as_str());
                let message = if *self == MutateOperation::ChunkPost {
                    let mut v: Vec<char> = Vec::new();
                    push_str(&mut v, "chunk_post() ");
                    push_str(&mut v, m.as_str());
                    proof {
                        reveal_strlit("chunk_post() ");
                        reveal_strlit("chunk_post()");
                        assert("chunk_post() "@ =~= "chunk_post()"@ + seq![' ']);
                    }
                    string_of(v.as_slice())
                } else {
                    m
                };
                MutateResult::failed(self.dweb_type(), operation, 502, message)
            },
        }
    }
}

} // verus!
