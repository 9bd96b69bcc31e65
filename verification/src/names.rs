//! The DWEB-NAME registry: short names that the server resolves to the
//! address of a content History, registered at start-up (the built-in names)
//! and through the name-register API.

use vstd::prelude::*;
use crate::text::{chars_of, chars_eq, string_of};
use crate::keys::{hex_encode, hex_encode_spec, public_key_from_hex, public_key_from_hex_spec};

verus! {

/// Names are unique in a list of registrations.
pub open spec fn distinct_names(s: Seq<(Seq<char>, Seq<u8>)>) -> bool {
    forall|i: int, j: int| 0 <= i < j < s.len() ==> #[trigger] s[i].0 != #[trigger] s[j].0
}

/// Whether a name occurs in a list of registrations.
pub open spec fn has_name(s: Seq<(Seq<char>, Seq<u8>)>, name: Seq<char>) -> bool {
    exists|i: int| 0 <= i < s.len() && #[trigger] s[i].0 == name
}

/// The map from name to History address that a list of registrations denotes.
pub open spec fn names_map(s: Seq<(Seq<char>, Seq<u8>)>) -> Map<Seq<char>, Seq<u8>> {
    Map::new(
        |k: Seq<char>| has_name(s, k),
        |k: Seq<char>| s[choose|i: int| 0 <= i < s.len() && #[trigger] s[i].0 == k].1,
    )
}

/// The registrations after registering `name` for the History address in
/// hexadecimal text `address`: a new entry at the end when the address is a
/// valid History address and the name is not yet registered; else unchanged.
pub open spec fn register_entries(
    s: Seq<(Seq<char>, Seq<u8>)>,
    name: Seq<char>,
    address: Seq<char>,
) -> Seq<(Seq<char>, Seq<u8>)> {
    match public_key_from_hex_spec(address) {
        Some(a) => if has_name(s, name) {
            s
        } else {
            s.push((name, a))
        },
        None => s,
    }
}

/// The outcome of a registration request.
#[derive(Debug, Clone, PartialEq, Eq)]
pub enum RegisterOutcome {
    /// The name is not a valid DWEB-NAME.
    InvalidName,
    /// The address is not a valid History address.
    InvalidAddress,
    /// The name is registered for another History address (given here).
    InUse { existing: Vec<u8> },
    /// The name was already registered for this History address.
    AlreadyRegistered,
    /// The name is now registered.
    Registered,
}

/// The names known to the server, each with its History address (the 48
/// bytes of its BLS public key), in the order they were registered.
pub struct NameRegistry {
    entries: Vec<(Vec<char>, Vec<u8>)>,
}

impl View for NameRegistry {
    type V = Map<Seq<char>, Seq<u8>>;

    open spec fn view(&self) -> Map<Seq<char>, Seq<u8>> {
        names_map(self.entries())
    }
}

proof fn lemma_names_map_at(s: Seq<(Seq<char>, Seq<u8>)>, i: int)
    requires
        distinct_names(s),
        0 <= i < s.len(),
    ensures
        names_map(s).contains_key(s[i].0),
        names_map(s)[s[i].0] == s[i].1,
{
    let k = s[i].0;
    assert(has_name(s, k));
    let j = choose|j: int| 0 <= j < s.len() && #[trigger] s[j].0 == k;
    if j < i {
        assert(s[j].0 != s[i].0);
    } else if i < j {
        assert(s[i].0 != s[j].0);
    }
}

proof fn lemma_names_map_push(s: Seq<(Seq<char>, Seq<u8>)>, name: Seq<char>, a: Seq<u8>)
    requires
        distinct_names(s),
        !has_name(s, name),
    ensures
        distinct_names(s.push((name, a))),
        names_map(s.push((name, a))) == names_map(s).insert(name, a),
{
    let t = s.push((name, a));
    assert forall|i: int, j: int| 0 <= i < j < t.len() implies #[trigger] t[i].0 != #[trigger] t[j].0 by {
        if j == s.len() {
            assert(s[i].0 == t[i].0);
            if s[i].0 == name {
                assert(has_name(s, name));
            }
        } else {
            assert(s[i].0 != s[j].0);
        }
    }
    assert forall|k: Seq<char>| #[trigger] has_name(t, k) == (has_name(s, k) || k == name) by {
        if has_name(s, k) {
            let i = choose|i: int| 0 <= i < s.len() && #[trigger] s[i].0 == k;
            assert(t[i].0 == k);
        }
        if k == name {
            assert(t[s.len() as int].0 == k);
        }
        if has_name(t, k) && k != name {
            let i = choose|i: int| 0 <= i < t.len() && #[trigger] t[i].0 == k;
            assert(i < s.len());
            assert(s[i].0 == k);
        }
    }
    assert forall|k: Seq<char>| #[trigger] names_map(t).contains_key(k) implies names_map(t)[k]
        == names_map(s).insert(name, a)[k] by {
        let i = choose|i: int| 0 <= i < t.len() && #[trigger] t[i].0 == k;
        lemma_names_map_at(t, i);
        if i < s.len() {
            assert(t[i] == s[i]);
            lemma_names_map_at(s, i);
        }
    }
    assert(names_map(t) =~= names_map(s).insert(name, a));
}

fn bytes_eq(a: &[u8], b: &[u8]) -> (r: bool)
    ensures
        r == (a@ == b@),
{
    if a.len() != b.len() {
        return false;
    }
    let mut i: usize = 0;
    while i < a.len()
        invariant
            i <= a.len(),
            a.len() == b.len(),
            forall|j: int| 0 <= j < i ==> a@[j] == b@[j],
        decreases a.len() - i,
    {
        if a[i] != b[i] {
            return false;
        }
        i = i + 1;
    }
    assert(a@ =~= b@);
    true
}

proof fn lemma_names_map_absent(s: Seq<(Seq<char>, Seq<u8>)>, name: Seq<char>)
    requires
        forall|i: int| 0 <= i < s.len() ==> #[trigger] s[i].0 != name,
    ensures
        !has_name(s, name),
        !names_map(s).contains_key(name),
{
}

impl NameRegistry {
    /// The registrations, in order: each name with its History address.
    pub closed spec fn entries(&self) -> Seq<(Seq<char>, Seq<u8>)> {
        self.entries@.map_values(|e: (Vec<char>, Vec<u8>)| (e.0@, e.1@))
    }

    /// Names are registered at most once.
    pub open spec fn wf(&self) -> bool {
        distinct_names(self.entries())
    }

    /// An empty registry.
    pub fn new() -> (r: NameRegistry)
        ensures
            r.wf(),
            r.entries() == Seq::<(Seq<char>, Seq<u8>)>::empty(),
            r@ == Map::<Seq<char>, Seq<u8>>::empty(),
    {
        let r = NameRegistry { entries: Vec::new() };
        assert(r.entries() =~= Seq::<(Seq<char>, Seq<u8>)>::empty());
        assert(r@ =~= Map::<Seq<char>, Seq<u8>>::empty());
        r
    }

    fn position(&self, name: &[char]) -> (r: Option<usize>)
        requires
            self.wf(),
        ensures
            match r {
                Some(i) => i < self.entries().len() && self.entries()[i as int].0 == name@
                    && self@.contains_key(name@) && self@[name@] == self.entries()[i as int].1,
                None => !has_name(self.entries(), name@) && !self@.contains_key(name@),
            },
    {
        let mut i: usize = 0;
        while i < self.entries.len()
            invariant
                i <= self.entries.len(),
                self.wf(),
                self.entries() == self.entries@.map_values(|e: (Vec<char>, Vec<u8>)| (e.0@, e.1@)),
                forall|j: int| 0 <= j < i ==> #[trigger] self.entries()[j].0 != name@,
            decreases self.entries.len() - i,
        {
            if chars_eq(self.entries[i].0.as_slice(), name) {
                proof {
                    lemma_names_map_at(self.entries(), i as int);
                }
                return Some(i);
            }
            i = i + 1;
        }
        proof {
            lemma_names_map_absent(self.entries(), name@);
        }
        None
    }

    /// The History address registered for a name, if any.
    pub fn lookup(&self, name: &str) -> (r: Option<Vec<u8>>)
        requires
            self.wf(),
        ensures
            match r {
                Some(a) => self@.contains_key(name@) && self@[name@] == a@,
                None => !self@.contains_key(name@),
            },
    {
        let n = chars_of(name);
        match self.position(n.as_slice()) {
            Some(i) => {
                let a = self.entries[i].1.clone();
                assert(a@ =~= self.entries()[i as int].1);
                Some(a)
            },
            None => None,
        }
    }

    /// Registers a name for the History address in hexadecimal text
    /// `history_address`. `name_is_valid` says whether the name passed the
    /// DWEB-NAME check. A name already registered for another address is
    /// refused, and the registry is left as it was; a name registered again
    /// for the same address is accepted without change.
    pub fn register(&mut self, dweb_name: &str, name_is_valid: bool, history_address: &str) -> (r:
        RegisterOutcome)
        requires
            old(self).wf(),
        ensures
            final(self).wf(),
            final(self).entries() == (if name_is_valid {
                register_entries(old(self).entries(), dweb_name@, history_address@)
            } else {
                old(self).entries()
            }),
            !name_is_valid ==> r is InvalidName,
            name_is_valid && public_key_from_hex_spec(history_address@) is None ==> r is InvalidAddress,
            name_is_valid && public_key_from_hex_spec(history_address@) is Some ==> {
                let a = public_key_from_hex_spec(history_address@)->0;
                if !old(self)@.contains_key(dweb_name@) {
                    &&& r is Registered
                    &&& final(self)@ == old(self)@.insert(dweb_name@, a)
                } else if old(self)@[dweb_name@] == a {
                    r is AlreadyRegistered
                } else {
                    r matches RegisterOutcome::InUse { existing } && existing@ == old(self)@[dweb_name@]
                }
            },
    {
        if !name_is_valid {
            return RegisterOutcome::InvalidName;
        }
        let address = match public_key_from_hex(history_address) {
            Some(a) => a,
            None => {
                return RegisterOutcome::InvalidAddress;
            },
        };
        let name = chars_of(dweb_name);
        match self.position(name.as_slice()) {
            Some(i) => {
                assert(has_name(self.entries(), dweb_name@));
                let existing = self.entries[i].1.clone();
                assert(existing@ =~= self.entries()[i as int].1);
                if bytes_eq(existing.as_slice(), address.as_slice()) {
                    RegisterOutcome::AlreadyRegistered
                } else {
                    RegisterOutcome::InUse { existing }
                }
            },
            None => {
                let ghost before = self.entries();
                proof {
                    lemma_names_map_push(before, dweb_name@, address@);
                }
                self.entries.push((name, address));
                assert(self.entries() =~= before.push((dweb_name@, address@)));
                RegisterOutcome::Registered
            },
        }
    }

    /// The registered names with their History addresses in hexadecimal
    /// text, in the order of registration.
    pub fn list(&self) -> (r: Vec<(String, String)>)
        ensures
            r@.len() == self.entries().len(),
            forall|i: int|
                0 <= i < r@.len() ==> (#[trigger] r@[i]).0@ == self.entries()[i].0 && r@[i].1@
                    == hex_encode_spec(self.entries()[i].1),
    {
        let mut r: Vec<(String, String)> = Vec::new();
        let mut i: usize = 0;
        while i < self.entries.len()
            invariant
                i <= self.entries.len(),
                r@.len() == i,
                self.entries() == self.entries@.map_values(|e: (Vec<char>, Vec<u8>)| (e.0@, e.1@)),
                forall|j: int|
                    0 <= j < i ==> (#[trigger] r@[j]).0@ == self.entries()[j].0 && r@[j].1@
                        == hex_encode_spec(self.entries()[j].1),
            decreases self.entries.len() - i,
        {
            let name = string_of(self.entries[i].0.as_slice());
            let address = hex_encode(self.entries[i].1.as_slice());
            r.push((name, address));
            i = i + 1;
        }
        r
    }
}

/// Registers the built-in names: `awesome` for the awesome site's History
/// (`awesome_local` on a local test network, else `awesome_public`).
pub fn register_builtin_names(
    registry: &mut NameRegistry,
    is_local: bool,
    awesome_local: &str,
    awesome_public: &str,
)
    requires
        old(registry).wf(),
    ensures
        final(registry).wf(),
        final(registry).entries() == register_entries(
            old(registry).entries(),
            "awesome"@,
            if is_local { awesome_local@ } else { awesome_public@ },
        ),
{
    if is_local {
        let _ = registry.register("awesome", true, awesome_local);
    } else {
        let _ = registry.register("awesome", true, awesome_public);
    }
}

/// Registering a name for a valid History address that no one holds makes
/// the name resolve to that address, and leaves every other name as it was.
pub proof fn registered_name_resolves(
    s: Seq<(Seq<char>, Seq<u8>)>,
    name: Seq<char>,
    address: Seq<char>,
    other: Seq<char>,
)
    requires
        distinct_names(s),
        public_key_from_hex_spec(address) is Some,
        !names_map(s).contains_key(name),
    ensures
        distinct_names(register_entries(s, name, address)),
        names_map(register_entries(s, name, address))[name] == public_key_from_hex_spec(
            address,
        )->0,
        other != name ==> names_map(register_entries(s, name, address)).contains_key(other)
            == names_map(s).contains_key(other),
        other != name ==> names_map(register_entries(s, name, address))[other] == names_map(
            s,
        )[other],
{
    lemma_names_map_push(s, name, public_key_from_hex_spec(address)->0);
}

/// The first registration of a name wins: registering a name that is already
/// held, for any address, changes nothing.
pub proof fn first_registration_wins(
    s: Seq<(Seq<char>, Seq<u8>)>,
    name: Seq<char>,
    address: Seq<char>,
)
    requires
        names_map(s).contains_key(name),
    ensures
        register_entries(s, name, address) == s,
{
}

/// The list of registrations and the names the registry resolves agree:
/// every listed name resolves to the address listed with it, and every name
/// that resolves is listed (once, as names are registered at most once).
pub proof fn listed_names_resolve(s: Seq<(Seq<char>, Seq<u8>)>, name: Seq<char>)
    requires
        distinct_names(s),
    ensures
        forall|i: int|
            0 <= i < s.len() ==> names_map(s).contains_key(#[trigger] s[i].0) && names_map(s)[s[i].0]
                == s[i].1,
        names_map(s).contains_key(name) <==> exists|i: int| 0 <= i < s.len() && #[trigger] s[i].0 == name,
{
    assert forall|i: int| 0 <= i < s.len() implies names_map(s).contains_key(#[trigger] s[i].0)
        && names_map(s)[s[i].0] == s[i].1 by {
        lemma_names_map_at(s, i);
    }
}

/// The text of the refusal of a name already registered for another History
/// address.
pub open spec fn in_use_message_spec(dweb_name: Seq<char>, existing: Seq<u8>) -> Seq<char> {
    "DWEB-NAME '"@ + dweb_name + "' already in use for HISTORY-ADDRESS '"@ + hex_encode_spec(
        existing,
    ) + "'"@
}

/// The message with which a registration for a name held by another
/// History address is refused.
pub fn in_use_message(dweb_name: &str, existing: &[u8]) -> (r: String)
    ensures
        r@ == in_use_message_spec(dweb_name@, existing@),
{
    let mut v: Vec<char> = Vec::new();
    crate::text::push_str(&mut v, "DWEB-NAME '");
    crate::text::push_str(&mut v, dweb_name);
    crate::text::push_str(&mut v, "' already in use for HISTORY-ADDRESS '");
    let h = hex_encode(existing);
    crate::text::push_str(&mut v, h.as_str());
    crate::text::push_str(&mut v, "'");
    string_of(v.as_slice())
}

/// The HTTP status with which the name-register API answers an outcome: 400
/// for a refused request, 200 otherwise.
pub fn register_status(outcome: &RegisterOutcome) -> (r: u16)
    ensures
        r == (match outcome {
            RegisterOutcome::InvalidName | RegisterOutcome::InvalidAddress
            | RegisterOutcome::InUse { .. } => 400u16,
            _ => 200u16,
        }),
{
    match outcome {
        RegisterOutcome::InvalidName | RegisterOutcome::InvalidAddress | RegisterOutcome::InUse {
            ..
        } => 400,
        _ => 200,
    }
}

} // verus!
