//! The lifecycle of the sidecar: a state that moves forward only, from
//! uninitialized through bootstrapped and active to shut down, and may skip
//! steps on the way.
use vstd::prelude::*;

use crate::types::{ConnectionCredentials, Mode, RepositoryKey, RepositoryKeyView};

verus! {

/// Where the sidecar is in its lifecycle.
#[derive(Debug)]
pub enum StateMachine {
    Uninitialized,
    /// The repository key and the sha that was bootstrapped from disk.
    Bootstrapped((RepositoryKey, String)),
    Active(ConnectionCredentials),
    Shutdown,
}

/// The credentials of an active sidecar, as plain values.
pub struct CredentialsView {
    pub repo_key: RepositoryKeyView,
    pub api_key: Seq<char>,
    pub session_key: Seq<char>,
}

impl View for ConnectionCredentials {
    type V = CredentialsView;

    open spec fn view(&self) -> CredentialsView {
        CredentialsView {
            repo_key: self.repo_key@,
            api_key: self.api_key@,
            session_key: self.session_key@,
        }
    }
}

pub enum StateView {
    Uninitialized,
    Bootstrapped(RepositoryKeyView, Seq<char>),
    Active(CredentialsView),
    Shutdown,
}

impl View for StateMachine {
    type V = StateView;

    open spec fn view(&self) -> StateView {
        match self {
            StateMachine::Uninitialized => StateView::Uninitialized,
            StateMachine::Bootstrapped((rk, sha)) => StateView::Bootstrapped(rk@, sha@),
            StateMachine::Active(cc) => StateView::Active(cc@),
            StateMachine::Shutdown => StateView::Shutdown,
        }
    }
}

/// The position of a state along the lifecycle; no transition lowers it.
pub open spec fn rank(s: StateView) -> int {
    match s {
        StateView::Uninitialized => 0,
        StateView::Bootstrapped(..) => 1,
        StateView::Active(..) => 2,
        StateView::Shutdown => 3,
    }
}

fn clone_credentials(cc: &ConnectionCredentials) -> (r: ConnectionCredentials)
    ensures
        r@ == cc@,
{
    ConnectionCredentials {
        repo_key: cc.repo_key.clone(),
        api_key: cc.api_key.clone(),
        session_key: cc.session_key.clone(),
    }
}

impl Clone for StateMachine {
    fn clone(&self) -> (r: Self)
        ensures
            r@ == self@,
    {
        match self {
            StateMachine::Uninitialized => StateMachine::Uninitialized,
            StateMachine::Bootstrapped((rk, sha)) => StateMachine::Bootstrapped((rk.clone(), sha.clone())),
            StateMachine::Active(cc) => StateMachine::Active(clone_credentials(cc)),
            StateMachine::Shutdown => StateMachine::Shutdown,
        }
    }
}

/// The state of the sidecar outside its configuration: the lifecycle state,
/// how many clients are registered, whether a shutdown was requested, and the
/// mode it runs in. It alone makes transitions.
#[derive(Debug)]
pub struct StateStore {
    state: StateMachine,
    register_counter: usize,
    received_shutdown: bool,
    mode: Mode,
}

pub struct StateStoreView {
    pub state: StateView,
    pub register_counter: usize,
    pub received_shutdown: bool,
    pub mode: Mode,
}

impl View for StateStore {
    type V = StateStoreView;

    closed spec fn view(&self) -> StateStoreView {
        StateStoreView {
            state: self.state@,
            register_counter: self.register_counter,
            received_shutdown: self.received_shutdown,
            mode: self.mode,
        }
    }
}

impl StateStore {
    /// A store that starts bootstrapped when a bootstrap was loaded, and
    /// uninitialized otherwise, with no client registered.
    pub fn new(bootstrap: Option<(RepositoryKey, String)>, mode: Mode) -> (s: StateStore)
        ensures
            s@.state == match bootstrap {
                None => StateView::Uninitialized,
                Some((rk, sha)) => StateView::Bootstrapped(rk@, sha@),
            },
            s@.register_counter == 0,
            !s@.received_shutdown,
            s@.mode == mode,
    {
        let state = match bootstrap {
            None => StateMachine::Uninitialized,
            Some(b) => StateMachine::Bootstrapped(b),
        };
        StateStore { state, register_counter: 0, received_shutdown: false, mode }
    }

    /// Counts a registered client (the count wraps around as an atomic
    /// counter does). In default mode a sidecar that is not yet active, nor
    /// shut down, becomes active with the given credentials. Returns whether
    /// the state changed.
    pub fn register(&mut self, repo_key: RepositoryKey, api_key: String, session_key: String) -> (changed: bool)
        ensures
            final(self)@.register_counter == old(self)@.register_counter.wrapping_add(1),
            final(self)@.received_shutdown == old(self)@.received_shutdown,
            final(self)@.mode == old(self)@.mode,
            changed <==> (old(self)@.mode == Mode::Default && rank(old(self)@.state) < 2),
            changed ==> final(self)@.state == StateView::Active(
                CredentialsView { repo_key: repo_key@, api_key: api_key@, session_key: session_key@ },
            ),
            !changed ==> final(self)@.state == old(self)@.state,
            rank(old(self)@.state) <= rank(final(self)@.state),
            old(self)@.state == StateView::Shutdown ==> final(self)@.state == StateView::Shutdown,
    {
        self.register_counter = self.register_counter.wrapping_add(1);
        if self.mode == Mode::Default {
            match self.state {
                StateMachine::Uninitialized | StateMachine::Bootstrapped(_) => {
                    self.state = StateMachine::Active(
                        ConnectionCredentials { repo_key, api_key, session_key },
                    );
                    return true;
                },
                _ => {},
            }
        }
        false
    }

    /// Counts a client gone. When a shutdown was requested and this was the
    /// last client, the sidecar shuts down. Returns whether the state changed.
    pub fn deregister(&mut self) -> (changed: bool)
        ensures
            final(self)@.register_counter == old(self)@.register_counter.wrapping_sub(1),
            final(self)@.received_shutdown == old(self)@.received_shutdown,
            final(self)@.mode == old(self)@.mode,
            changed <==> (old(self)@.received_shutdown && old(self)@.register_counter == 1
                && old(self)@.state != StateView::Shutdown),
            changed ==> final(self)@.state == StateView::Shutdown,
            !changed ==> final(self)@.state == old(self)@.state,
            rank(old(self)@.state) <= rank(final(self)@.state),
            old(self)@.state == StateView::Shutdown ==> final(self)@.state == StateView::Shutdown,
    {
        let previous = self.register_counter;
        self.register_counter = self.register_counter.wrapping_sub(1);
        if self.received_shutdown && previous == 1 {
            match self.state {
                StateMachine::Shutdown => {},
                _ => {
                    self.state = StateMachine::Shutdown;
                    return true;
                },
            }
        }
        false
    }

    /// Records that a shutdown was requested; with no client registered the
    /// sidecar shuts down at once. Returns whether the state changed.
    pub fn shutdown(&mut self) -> (changed: bool)
        ensures
            final(self)@.register_counter == old(self)@.register_counter,
            final(self)@.received_shutdown,
            final(self)@.mode == old(self)@.mode,
            changed <==> (old(self)@.register_counter == 0 && old(self)@.state != StateView::Shutdown),
            changed ==> final(self)@.state == StateView::Shutdown,
            !changed ==> final(self)@.state == old(self)@.state,
            rank(old(self)@.state) <= rank(final(self)@.state),
            old(self)@.state == StateView::Shutdown ==> final(self)@.state == StateView::Shutdown,
    {
        self.received_shutdown = true;
        if self.register_counter == 0 {
            match self.state {
                StateMachine::Shutdown => {},
                _ => {
                    self.state = StateMachine::Shutdown;
                    return true;
                },
            }
        }
        false
    }

    /// A copy of the current state.
    pub fn current_state(&self) -> (s: StateMachine)
        ensures
            s@ == self@.state,
    {
        self.state.clone()
    }
}

} // verus!
