//! The decisions of the `/dweb-open`, `/dweb-open-as` and DWEB-LINK
//! handlers, as a state machine: the handler reports what the outside work
//! gave (resolving the address, finding or creating the directory version,
//! starting a server for it, registering a name) and is told what to do next.

use vstd::prelude::*;
use vstd::string::*;
use crate::links::{redirect_path, redirect_path_spec, should_register_as_name, AS_NAME_NONE};
use crate::api_dweb::opt_string_view;

verus! {

/// What an open handler does next.
#[derive(Debug, Clone, PartialEq, Eq)]
pub enum OpenAction {
    /// Answer 400 (Bad Request): the address or name is not recognised.
    RefuseUnrecognised,
    /// Find (or create) the directory version and its port.
    LookupDirectoryVersion,
    /// Start a server for the new directory version.
    SpawnServer,
    /// Register the requested name for the opened History.
    RegisterName,
    /// Answer 502 (Bad Gateway) with the error.
    FailBadGateway,
    /// Redirect to the directory version's port, at the path if any.
    Redirect { path: Option<String> },
}

/// Where an open request stands.
#[derive(Debug, Clone, Copy, PartialEq, Eq)]
pub enum OpenStage {
    Resolving,
    LookingUp,
    Spawning,
    Registering,
    Done,
}

/// An open request in progress.
#[derive(Debug)]
pub struct DwebOpen {
    /// The name to register for the opened History (may be empty).
    pub as_name: String,
    /// The remote path, as parsed from the URL (without its leading `/`).
    pub remote_path: String,
    pub stage: OpenStage,
    /// Whether the directory version found comes from a History.
    pub has_history: bool,
}

/// The requested name is registered: it is neither empty nor `anonymous`.
pub open spec fn registers_name(as_name: Seq<char>) -> bool {
    as_name.len() > 0 && as_name != AS_NAME_NONE@
}

/// The redirection that ends a successful open request.
pub open spec fn is_redirect_to(a: OpenAction, remote_path: Seq<char>) -> bool {
    a matches OpenAction::Redirect { path } && opt_string_view(path) == redirect_path_spec(
        remote_path,
    )
}

impl DwebOpen {
    /// A new open request for `as_name` (empty when none) and the remote path.
    pub fn new(as_name: String, remote_path: String) -> (r: DwebOpen)
        ensures
            r.stage == OpenStage::Resolving,
            r.as_name@ == as_name@,
            r.remote_path@ == remote_path@,
    {
        DwebOpen { as_name, remote_path, stage: OpenStage::Resolving, has_history: false }
    }

    fn redirect(&self) -> (r: OpenAction)
        ensures
            is_redirect_to(r, self.remote_path@),
    {
        let path = redirect_path(&self.remote_path);
        proof {
            assert(opt_string_view(path) == redirect_path_spec(self.remote_path@));
        }
        OpenAction::Redirect { path }
    }

    /// The address or name was resolved (`recognised`: to a History or an
    /// archive address) or not.
    pub fn on_resolved(&mut self, recognised: bool) -> (a: OpenAction)
        requires
            old(self).stage == OpenStage::Resolving,
        ensures
            final(self).as_name == old(self).as_name,
            final(self).remote_path == old(self).remote_path,
            recognised ==> a == OpenAction::LookupDirectoryVersion && final(self).stage
                == OpenStage::LookingUp,
            !recognised ==> a == OpenAction::RefuseUnrecognised && final(self).stage
                == OpenStage::Done,
    {
        if recognised {
            self.stage = OpenStage::LookingUp;
            OpenAction::LookupDirectoryVersion
        } else {
            self.stage = OpenStage::Done;
            OpenAction::RefuseUnrecognised
        }
    }

    /// The directory version was found (`ok`), from the cache of running
    /// servers or newly made (`from_cache`), for a History or not
    /// (`has_history`); or it could not be had.
    pub fn on_lookup(&mut self, ok: bool, from_cache: bool, has_history: bool) -> (a: OpenAction)
        requires
            old(self).stage == OpenStage::LookingUp,
        ensures
            final(self).as_name == old(self).as_name,
            final(self).remote_path == old(self).remote_path,
            final(self).has_history == has_history,
            !ok ==> a == OpenAction::FailBadGateway && final(self).stage == OpenStage::Done,
            ok && from_cache ==> is_redirect_to(a, old(self).remote_path@) && final(self).stage
                == OpenStage::Done,
            ok && !from_cache ==> a == OpenAction::SpawnServer && final(self).stage
                == OpenStage::Spawning,
    {
        self.has_history = has_history;
        if !ok {
            self.stage = OpenStage::Done;
            OpenAction::FailBadGateway
        } else if from_cache {
            self.stage = OpenStage::Done;
            self.redirect()
        } else {
            self.stage = OpenStage::Spawning;
            OpenAction::SpawnServer
        }
    }

    /// The server for the new directory version started (`ok`) or not.
    pub fn on_spawned(&mut self, ok: bool) -> (a: OpenAction)
        requires
            old(self).stage == OpenStage::Spawning,
        ensures
            final(self).as_name == old(self).as_name,
            final(self).remote_path == old(self).remote_path,
            final(self).has_history == old(self).has_history,
            !ok ==> a == OpenAction::FailBadGateway && final(self).stage == OpenStage::Done,
            ok && registers_name(old(self).as_name@) && old(self).has_history ==> a
                == OpenAction::RegisterName && final(self).stage == OpenStage::Registering,
            ok && !(registers_name(old(self).as_name@) && old(self).has_history) ==> is_redirect_to(
                a,
                old(self).remote_path@,
            ) && final(self).stage == OpenStage::Done,
    {
        if !ok {
            self.stage = OpenStage::Done;
            OpenAction::FailBadGateway
        } else if should_register_as_name(&self.as_name) && self.has_history {
            self.stage = OpenStage::Registering;
            OpenAction::RegisterName
        } else {
            self.stage = OpenStage::Done;
            self.redirect()
        }
    }

    /// The name registration finished; its outcome does not change the answer.
    pub fn on_registered(&mut self) -> (a: OpenAction)
        requires
            old(self).stage == OpenStage::Registering,
        ensures
            final(self).as_name == old(self).as_name,
            final(self).remote_path == old(self).remote_path,
            is_redirect_to(a, old(self).remote_path@),
            final(self).stage == OpenStage::Done,
    {
        self.stage = OpenStage::Done;
        self.redirect()
    }
}

} // verus!
