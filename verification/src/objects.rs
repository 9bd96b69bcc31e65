//! The representations of Autonomi data types that the REST API exchanges
//! with web clients (Pointers, Chunks, Scratchpads), and the results it
//! returns for requests that store data.

use vstd::prelude::*;
use vstd::string::*;
use crate::keys::{public_key_from_hex, public_key_from_hex_spec, xor_name_from_hex, xor_name_from_hex_spec};
use crate::text::{push_str, string_of};

verus! {

/// The kinds of data that the dweb APIs store and report.
#[derive(Debug, Clone, Copy, PartialEq, Eq)]
pub enum DwebType {
    Unknown,
    Chunk,
    PublicFile,
    PrivateFile,
    PublicArchive,
    PrivateArchive,
    Pointer,
    Scratchpad,
    PublicScratchpad,
    PrivateScratchpad,
}

/// The target of a Pointer, by the kind of its address: a chunk address is
/// the 32 bytes of an XorName, the others the 48 bytes of a public key.
#[derive(Debug, Clone, PartialEq, Eq)]
pub enum PointerTarget {
    ChunkAddress(Vec<u8>),
    GraphEntryAddress(Vec<u8>),
    PointerAddress(Vec<u8>),
    ScratchpadAddress(Vec<u8>),
}

/// The view of a pointer target: its kind (0 chunk, 1 graph entry, 2
/// pointer, 3 scratchpad) and its address bytes.
pub open spec fn target_view(t: PointerTarget) -> (int, Seq<u8>) {
    match t {
        PointerTarget::ChunkAddress(a) => (0, a@),
        PointerTarget::GraphEntryAddress(a) => (1, a@),
        PointerTarget::PointerAddress(a) => (2, a@),
        PointerTarget::ScratchpadAddress(a) => (3, a@),
    }
}

/// A Pointer as web clients see it. Exactly one target is expected; unused
/// targets are empty strings.
#[derive(Debug, Clone)]
pub struct DwebPointer {
    pub pointer_address: String,
    pub counter: u32,
    pub chunk_target_address: String,
    pub graphentry_target_address: String,
    pub pointer_target_address: String,
    pub scratchpad_target_address: String,
}

impl Default for DwebPointer {
    fn default() -> (r: DwebPointer)
        ensures
            r.pointer_address@ == Seq::<char>::empty(),
            r.counter == 0,
            r.chunk_target_address@ == Seq::<char>::empty(),
            r.graphentry_target_address@ == Seq::<char>::empty(),
            r.pointer_target_address@ == Seq::<char>::empty(),
            r.scratchpad_target_address@ == Seq::<char>::empty(),
    {
        DwebPointer {
            pointer_address: String::new(),
            counter: 0,
            chunk_target_address: String::new(),
            graphentry_target_address: String::new(),
            pointer_target_address: String::new(),
            scratchpad_target_address: String::new(),
        }
    }
}

/// Why an address given as hexadecimal text was refused.
#[derive(Debug, Clone, Copy, PartialEq, Eq)]
pub enum AddressParseError {
    /// Not hexadecimal text of the address's length (or, for a key
    /// address, not a valid public key).
    Invalid,
}

/// A Pointer request with no usable target.
#[derive(Debug, Clone, Copy, PartialEq, Eq)]
pub struct MissingPointerTarget;

impl MissingPointerTarget {
    /// The text of the error.
    pub fn message(&self) -> (r: String)
        ensures
            r@ == "missing or invalid Pointer target"@,
    {
        String::from_str("missing or invalid Pointer target")
    }
}

/// The target that a Pointer request designates: the first of its chunk,
/// graph entry, pointer and scratchpad targets that parses.
pub open spec fn pointer_target_spec(p: DwebPointer) -> Option<(int, Seq<u8>)> {
    match xor_name_from_hex_spec(p.chunk_target_address@) {
        Some(a) => Some((0, a)),
        None => match public_key_from_hex_spec(p.graphentry_target_address@) {
            Some(a) => Some((1, a)),
            None => match public_key_from_hex_spec(p.pointer_target_address@) {
                Some(a) => Some((2, a)),
                None => match public_key_from_hex_spec(p.scratchpad_target_address@) {
                    Some(a) => Some((3, a)),
                    None => None,
                },
            },
        },
    }
}

fn opt_to_result(a: Option<Vec<u8>>) -> (r: Result<Vec<u8>, AddressParseError>)
    ensures
        match a {
            Some(b) => r matches Ok(c) && c@ == b@,
            None => r is Err,
        },
{
    match a {
        Some(b) => Ok(b),
        None => Err(AddressParseError::Invalid),
    }
}

impl DwebPointer {
    /// The target of this Pointer: the first of its targets, in the order
    /// chunk, graph entry, pointer, scratchpad, that is a valid address.
    pub fn pointer_target(&self) -> (r: Result<PointerTarget, MissingPointerTarget>)
        ensures
            match r {
                Ok(t) => pointer_target_spec(*self) == Some(target_view(t)),
                Err(_) => pointer_target_spec(*self) is None,
            },
    {
        if let Ok(a) = self.chunk_target_address() {
            Ok(PointerTarget::ChunkAddress(a))
        } else if let Ok(a) = self.graphentry_target_address() {
            Ok(PointerTarget::GraphEntryAddress(a))
        } else if let Ok(a) = self.pointer_target_address() {
            Ok(PointerTarget::PointerAddress(a))
        } else if let Ok(a) = self.scratchpad_target_address() {
            Ok(PointerTarget::ScratchpadAddress(a))
        } else {
            Err(MissingPointerTarget)
        }
    }

    /// The chunk target (32 bytes), if its text is a valid chunk address.
    pub fn chunk_target_address(&self) -> (r: Result<Vec<u8>, AddressParseError>)
        ensures
            match xor_name_from_hex_spec(self.chunk_target_address@) {
                Some(a) => r matches Ok(b) && b@ == a,
                None => r is Err,
            },
    {
        opt_to_result(xor_name_from_hex(self.chunk_target_address.as_str()))
    }

    /// The graph entry target (a public key), if its text is a valid address.
    pub fn graphentry_target_address(&self) -> (r: Result<Vec<u8>, AddressParseError>)
        ensures
            match public_key_from_hex_spec(self.graphentry_target_address@) {
                Some(a) => r matches Ok(b) && b@ == a,
                None => r is Err,
            },
    {
        opt_to_result(public_key_from_hex(self.graphentry_target_address.as_str()))
    }

    /// The pointer target (a public key), if its text is a valid address.
    pub fn pointer_target_address(&self) -> (r: Result<Vec<u8>, AddressParseError>)
        ensures
            match public_key_from_hex_spec(self.pointer_target_address@) {
                Some(a) => r matches Ok(b) && b@ == a,
                None => r is Err,
            },
    {
        opt_to_result(public_key_from_hex(self.pointer_target_address.as_str()))
    }

    /// The scratchpad target (a public key), if its text is a valid address.
    pub fn scratchpad_target_address(&self) -> (r: Result<Vec<u8>, AddressParseError>)
        ensures
            match public_key_from_hex_spec(self.scratchpad_target_address@) {
                Some(a) => r matches Ok(b) && b@ == a,
                None => r is Err,
            },
    {
        opt_to_result(public_key_from_hex(self.scratchpad_target_address.as_str()))
    }
}

/// A Chunk as web clients see it.
#[derive(Debug, Clone)]
pub struct DwebChunk {
    pub content: String,
}

/// A Scratchpad as web clients see it.
#[derive(Debug, Clone)]
pub struct DwebScratchpad {
    pub dweb_type: DwebType,
    pub scratchpad_address: String,
    pub data_encoding: u64,
    pub encrypted_data: Vec<u8>,
    pub unencrypted_data: Vec<u8>,
    pub counter: u64,
}

impl Default for DwebScratchpad {
    fn default() -> (r: DwebScratchpad)
        ensures
            r.dweb_type == DwebType::PrivateScratchpad,
            r.scratchpad_address@ == Seq::<char>::empty(),
            r.data_encoding == 0,
            r.encrypted_data@ == Seq::<u8>::empty(),
            r.unencrypted_data@ == Seq::<u8>::empty(),
            r.counter == 0,
    {
        DwebScratchpad {
            dweb_type: DwebType::PrivateScratchpad,
            scratchpad_address: String::new(),
            data_encoding: 0,
            encrypted_data: Vec::new(),
            unencrypted_data: Vec::new(),
            counter: 0,
        }
    }
}

/// The name from which a Scratchpad's content type is derived when the
/// request leaves the content type 0 and names an app: the app identifier,
/// `-scratchpad-` and the object name (empty when none). `None` when the
/// request's own content type stands.
pub open spec fn scratchpad_type_name_spec(
    data_encoding: u64,
    app_id: Option<Seq<char>>,
    object_name: Option<Seq<char>>,
) -> Option<Seq<char>> {
    if data_encoding == 0 && app_id is Some {
        Some(
            app_id->0 + "-scratchpad-"@ + match object_name {
                Some(n) => n,
                None => Seq::<char>::empty(),
            },
        )
    } else {
        None
    }
}

/// See [`scratchpad_type_name_spec`].
pub fn scratchpad_type_name(data_encoding: u64, app_id: &Option<String>, object_name: &Option<String>)
    -> (r: Option<String>)
    ensures
        crate::api_dweb::opt_string_view(r) == scratchpad_type_name_spec(
            data_encoding,
            crate::api_dweb::opt_string_view(*app_id),
            crate::api_dweb::opt_string_view(*object_name),
        ),
{
    if data_encoding == 0 {
        match app_id {
            Some(id) => {
                let mut v: Vec<char> = Vec::new();
                push_str(&mut v, id.as_str());
                push_str(&mut v, "-scratchpad-");
                match object_name {
                    Some(n) => push_str(&mut v, n.as_str()),
                    None => {
                        assert(v@ + Seq::<char>::empty() =~= v@);
                    },
                }
                Some(string_of(v.as_slice()))
            },
            None => None,
        }
    } else {
        None
    }
}

/// The counter of a Scratchpad written over a fork: one more than the
/// counter of the first of the forked versions.
pub fn fork_counter(first_counter: u64) -> (r: u64)
    requires
        first_counter < u64::MAX,
    ensures
        r == first_counter + 1,
{
    first_counter + 1
}

} // verus!
