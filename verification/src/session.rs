//! Getting a session: load the kept credentials, or else discover the bridge,
//! pair with it and keep what it issued.
//!
//! Like the handshake inside it, linking is a state machine: the caller
//! performs each [`LinkAction`] and reports back with a [`LinkEvent`].

use crate::bridge::{base_url_of, Bridge};
use crate::commands::{planned, register_request, Command, HttpCall, HttpCallView, Register};
use crate::discovery::{discover, distinct_addresses};
use crate::error::ErrorKind;
use crate::registration::{
    advance, outcome_of, pending_action, Action, ActionView, Event, EventView, PhaseView,
    Registration, RegistrationView,
};
use crate::store::{
    kept, linked, loaded, store_text, LinkedBridge, LinkedBridgeView, StoreContent,
    StoreContentView,
};
use crate::text::texts;
use vstd::prelude::*;

verus! {

/// Where linking stands.
pub enum LinkPhase {
    /// The kept credentials are to be loaded.
    Loading,
    /// The network is to be searched for bridges.
    Discovering,
    /// The operator is to be asked for the name of the application; the
    /// search gave `candidates`.
    Naming { candidates: Vec<String> },
    /// The operator is to be asked for the address of the bridge.
    AskingAddress,
    /// The handshake is under way.
    Registering(Registration),
    /// The credentials just issued are to be kept.
    Saving(LinkedBridge),
    /// The session is ready.
    Linked(LinkedBridge),
    /// Linking was given up.
    Failed(ErrorKind),
}

/// The mathematical value of a [`LinkPhase`].
pub enum LinkPhaseView {
    Loading,
    Discovering,
    Naming { candidates: Seq<Seq<char>> },
    AskingAddress,
    Registering(RegistrationView),
    Saving(LinkedBridgeView),
    Linked(LinkedBridgeView),
    Failed(ErrorKind),
}

impl View for LinkPhase {
    type V = LinkPhaseView;

    open spec fn view(&self) -> LinkPhaseView {
        match self {
            LinkPhase::Loading => LinkPhaseView::Loading,
            LinkPhase::Discovering => LinkPhaseView::Discovering,
            LinkPhase::Naming { candidates } => LinkPhaseView::Naming {
                candidates: texts(candidates@),
            },
            LinkPhase::AskingAddress => LinkPhaseView::AskingAddress,
            LinkPhase::Registering(r) => LinkPhaseView::Registering(r@),
            LinkPhase::Saving(b) => LinkPhaseView::Saving(b@),
            LinkPhase::Linked(b) => LinkPhaseView::Linked(b@),
            LinkPhase::Failed(e) => LinkPhaseView::Failed(*e),
        }
    }
}

/// What the caller reports back after performing a [`LinkAction`].
#[derive(Clone, Debug, PartialEq, Eq)]
pub enum LinkEvent {
    /// What was found where the credentials are kept.
    Loaded(StoreContent),
    /// The source addresses of the answers to the search, in the order they
    /// came; `None` where the search could not be made.
    Discovered(Option<Vec<String>>),
    /// The name the operator entered for the application; empty where none
    /// was entered.
    Named(String),
    /// The address the operator entered.
    Address(String),
    /// What happened to the probe or the pause of the handshake.
    Handshake(Event),
    /// Whether the credentials could be kept.
    Saved(bool),
}

/// The mathematical value of a [`LinkEvent`].
pub enum LinkEventView {
    Loaded(StoreContentView),
    Discovered(Option<Seq<Seq<char>>>),
    Named(Seq<char>),
    Address(Seq<char>),
    Handshake(EventView),
    Saved(bool),
}

impl View for LinkEvent {
    type V = LinkEventView;

    open spec fn view(&self) -> LinkEventView {
        match self {
            LinkEvent::Loaded(content) => LinkEventView::Loaded(content@),
            LinkEvent::Discovered(found) => LinkEventView::Discovered(
                match found {
                    Some(responders) => Some(texts(responders@)),
                    None => None,
                },
            ),
            LinkEvent::Named(name) => LinkEventView::Named(name@),
            LinkEvent::Address(a) => LinkEventView::Address(a@),
            LinkEvent::Handshake(e) => LinkEventView::Handshake(e@),
            LinkEvent::Saved(ok) => LinkEventView::Saved(*ok),
        }
    }
}

/// What the caller is to do next.
#[derive(Debug, PartialEq, Eq)]
pub enum LinkAction {
    /// Read what is kept of an earlier link.
    Load,
    /// Search the network for bridges.
    Discover,
    /// Ask the operator for the name of the application.
    AskName,
    /// Ask the operator for the address of the bridge.
    AskAddress,
    /// Send the pairing request `call` to the bridge at `address`.
    Probe { address: String, call: HttpCall },
    /// Ask the operator to press the link button, then pause.
    Wait { seconds: u64 },
    /// Keep the credentials of `bridge`, as the text `text`.
    Save { bridge: LinkedBridge, text: String },
    /// The session with `bridge` is ready.
    Done { bridge: LinkedBridge },
    /// Linking is over without a session.
    Abort { error: ErrorKind },
}

/// The mathematical value of a [`LinkAction`].
pub enum LinkActionView {
    Load,
    Discover,
    AskName,
    AskAddress,
    Probe { address: Seq<char>, call: HttpCallView },
    Wait { seconds: u64 },
    Save { bridge: LinkedBridgeView, text: Seq<char> },
    Done { bridge: LinkedBridgeView },
    Abort { error: ErrorKind },
}

impl View for LinkAction {
    type V = LinkActionView;

    open spec fn view(&self) -> LinkActionView {
        match self {
            LinkAction::Load => LinkActionView::Load,
            LinkAction::Discover => LinkActionView::Discover,
            LinkAction::AskName => LinkActionView::AskName,
            LinkAction::AskAddress => LinkActionView::AskAddress,
            LinkAction::Probe { address, call } => LinkActionView::Probe {
                address: address@,
                call: call@,
            },
            LinkAction::Wait { seconds } => LinkActionView::Wait { seconds: *seconds },
            LinkAction::Save { bridge, text } => LinkActionView::Save {
                bridge: bridge@,
                text: text@,
            },
            LinkAction::Done { bridge } => LinkActionView::Done { bridge: bridge@ },
            LinkAction::Abort { error } => LinkActionView::Abort { error: *error },
        }
    }
}

/// The name an application goes by where the operator enters none.
pub open spec fn default_app_name() -> Seq<char> {
    "huemanity"@
}

/// The name the application goes by, given what the operator entered.
pub open spec fn app_name(entered: Seq<char>) -> Seq<char> {
    if entered.len() == 0 {
        default_app_name()
    } else {
        entered
    }
}

/// The mathematical value of a [`Link`]: who asks for the credential, under
/// which application name, and the phase.
pub struct LinkView {
    pub username: Seq<char>,
    pub appname: Seq<char>,
    pub phase: LinkPhaseView,
}

impl LinkView {
    /// A handshake that is under way is well formed and has not ended, and
    /// the base URL of a bridge is that of its address.
    pub open spec fn well_formed(self) -> bool {
        match self.phase {
            LinkPhaseView::Registering(r) => r.well_formed() && !r.finished(),
            LinkPhaseView::Saving(b) => b.base_url == base_url_of(b.address),
            LinkPhaseView::Linked(b) => b.base_url == base_url_of(b.address),
            _ => true,
        }
    }
}

/// Where a handshake leads once an event was taken in: on to keeping the
/// credentials when it is confirmed, to failure when it is given up, and
/// else on with the handshake.
pub open spec fn after_handshake(state: RegistrationView) -> LinkPhaseView {
    match outcome_of(state) {
        Some(Ok(bridge)) => LinkPhaseView::Saving(bridge),
        Some(Err(error)) => LinkPhaseView::Failed(error),
        None => LinkPhaseView::Registering(state),
    }
}

/// The phase after `event`.
///
/// Kept credentials make the session at once; a store that cannot be read
/// ends linking. Where nothing is kept, the network is searched, and each
/// address that answered is a candidate, once. The operator then names the
/// application. With candidates the handshake races them; where nobody
/// answered, or the search could not be made, the operator is asked for the
/// address and the handshake goes against that one. What the handshake
/// issues is kept before the session is ready. An event that does not
/// answer what the phase is waiting for changes nothing.
pub open spec fn link_next(phase: LinkPhaseView, event: LinkEventView) -> LinkPhaseView {
    match (phase, event) {
        (LinkPhaseView::Loading, LinkEventView::Loaded(content)) => match loaded(content) {
            Ok(bridge) => LinkPhaseView::Linked(bridge),
            Err(ErrorKind::NotFound) => LinkPhaseView::Discovering,
            Err(error) => LinkPhaseView::Failed(error),
        },
        (LinkPhaseView::Discovering, LinkEventView::Discovered(Some(responders))) => LinkPhaseView::Naming {
            candidates: distinct_addresses(responders),
        },
        (LinkPhaseView::Discovering, LinkEventView::Discovered(None)) => LinkPhaseView::Naming {
            candidates: Seq::empty(),
        },
        (LinkPhaseView::Naming { candidates }, LinkEventView::Named(_)) => if candidates.len()
            == 0 {
            LinkPhaseView::AskingAddress
        } else {
            LinkPhaseView::Registering(
                RegistrationView { targets: candidates, phase: PhaseView::AwaitingConfirmation },
            )
        },
        (LinkPhaseView::AskingAddress, LinkEventView::Address(address)) => LinkPhaseView::Registering(
            RegistrationView { targets: seq![address], phase: PhaseView::Probing { cursor: 0 } },
        ),
        (LinkPhaseView::Registering(r), LinkEventView::Handshake(e)) => after_handshake(
            advance(r, e),
        ),
        (LinkPhaseView::Saving(bridge), LinkEventView::Saved(ok)) => if ok {
            LinkPhaseView::Linked(bridge)
        } else {
            LinkPhaseView::Failed(ErrorKind::StoreFailure)
        },
        _ => phase,
    }
}

/// Linking after `event`: the phase moves as [`link_next`] says, and the
/// application takes the name the operator entered when asked for it.
pub open spec fn link_after(state: LinkView, event: LinkEventView) -> LinkView {
    LinkView {
        username: state.username,
        appname: match (state.phase, event) {
            (LinkPhaseView::Naming { .. }, LinkEventView::Named(entered)) => app_name(entered),
            _ => state.appname,
        },
        phase: link_next(state.phase, event),
    }
}

/// What linking in this state asks of the caller.
pub open spec fn link_action(state: LinkView) -> LinkActionView {
    match state.phase {
        LinkPhaseView::Loading => LinkActionView::Load,
        LinkPhaseView::Discovering => LinkActionView::Discover,
        LinkPhaseView::Naming { .. } => LinkActionView::AskName,
        LinkPhaseView::AskingAddress => LinkActionView::AskAddress,
        LinkPhaseView::Registering(r) => match pending_action(r) {
            ActionView::Probe { address } => LinkActionView::Probe {
                address,
                call: planned(
                    base_url_of(address),
                    register_request(state.appname, state.username),
                ),
            },
            ActionView::Wait { seconds } => LinkActionView::Wait { seconds },
            ActionView::Finish { .. } => LinkActionView::Abort {
                error: ErrorKind::InvariantViolation,
            },
            ActionView::Abort { error } => LinkActionView::Abort { error },
        },
        LinkPhaseView::Saving(bridge) => LinkActionView::Save {
            bridge,
            text: store_text(bridge.address, bridge.credential),
        },
        LinkPhaseView::Linked(bridge) => LinkActionView::Done { bridge },
        LinkPhaseView::Failed(error) => LinkActionView::Abort { error },
    }
}

/// Credentials that were kept for a bridge make the session with that bridge
/// at once, with no search and no handshake.
pub proof fn law_kept_credentials_link_at_once(bridge: LinkedBridgeView)
    ensures
        link_next(LinkPhaseView::Loading, LinkEventView::Loaded(kept(bridge)))
            == LinkPhaseView::Linked(linked(bridge.address, bridge.credential)),
{
}

/// Linking to a bridge, from kept credentials or by pairing anew.
pub struct Link {
    register: Register,
    phase: LinkPhase,
}

impl View for Link {
    type V = LinkView;

    closed spec fn view(&self) -> LinkView {
        LinkView {
            username: self.register.username@,
            appname: self.register.appname@,
            phase: self.phase@,
        }
    }
}

impl Link {
    #[verifier::type_invariant]
    spec fn inv(self) -> bool {
        self@.well_formed()
    }

    /// Linking on behalf of `username` starts by loading what is kept. Until
    /// the operator names the application it goes by its default name.
    pub fn new(username: String) -> (r: Link)
        ensures
            r@ == (LinkView {
                username: username@,
                appname: default_app_name(),
                phase: LinkPhaseView::Loading,
            }),
    {
        Link {
            register: Register { username, appname: "huemanity".to_owned() },
            phase: LinkPhase::Loading,
        }
    }

    /// What the caller is to do now.
    pub fn action(&self) -> (r: LinkAction)
        ensures
            r@ == link_action(self@),
    {
        proof {
            use_type_invariant(self);
        }
        match &self.phase {
            LinkPhase::Loading => LinkAction::Load,
            LinkPhase::Discovering => LinkAction::Discover,
            LinkPhase::Naming { .. } => LinkAction::AskName,
            LinkPhase::AskingAddress => LinkAction::AskAddress,
            LinkPhase::Registering(r) => match r.action() {
                Action::Probe { address } => {
                    let bridge = Bridge::at(address.clone());
                    match self.register.send(&bridge) {
                        Ok(call) => LinkAction::Probe { address, call },
                        Err(error) => LinkAction::Abort { error },
                    }
                },
                Action::Wait { seconds } => LinkAction::Wait { seconds },
                Action::Finish { .. } => LinkAction::Abort { error: ErrorKind::InvariantViolation },
                Action::Abort { error } => LinkAction::Abort { error },
            },
            LinkPhase::Saving(bridge) => LinkAction::Save {
                bridge: LinkedBridge::new(bridge.address.clone(), bridge.credential.clone()),
                text: bridge.render(),
            },
            LinkPhase::Linked(bridge) => LinkAction::Done {
                bridge: LinkedBridge::new(bridge.address.clone(), bridge.credential.clone()),
            },
            LinkPhase::Failed(error) => LinkAction::Abort { error: *error },
        }
    }

    /// Takes in what happened and says what to do next.
    pub fn step(self, event: LinkEvent) -> (r: (Link, LinkAction))
        ensures
            r.0@ == link_after(self@, event@),
            r.1@ == link_action(r.0@),
            r.0@.well_formed(),
    {
        proof {
            use_type_invariant(&self);
        }
        let Link { register, phase } = self;
        let Register { username, appname } = register;
        let mut name = appname;
        let next = match phase {
            LinkPhase::Loading => match event {
                LinkEvent::Loaded(content) => match LinkedBridge::load(content) {
                    Ok(bridge) => LinkPhase::Linked(bridge),
                    Err(ErrorKind::NotFound) => LinkPhase::Discovering,
                    Err(error) => LinkPhase::Failed(error),
                },
                _ => LinkPhase::Loading,
            },
            LinkPhase::Discovering => match event {
                LinkEvent::Discovered(Some(responders)) => LinkPhase::Naming {
                    candidates: discover(responders),
                },
                LinkEvent::Discovered(None) => {
                    let none: Vec<String> = Vec::new();
                    assert(texts(none@) =~= Seq::<Seq<char>>::empty());
                    LinkPhase::Naming { candidates: none }
                },
                _ => LinkPhase::Discovering,
            },
            LinkPhase::Naming { candidates } => match event {
                LinkEvent::Named(entered) => {
                    if entered.as_str().unicode_len() > 0 {
                        name = entered;
                    } else {
                        name = "huemanity".to_owned();
                    }
                    if candidates.len() == 0 {
                        LinkPhase::AskingAddress
                    } else {
                        match Registration::multi(candidates) {
                            Ok(r) => LinkPhase::Registering(r),
                            Err(error) => LinkPhase::Failed(error),
                        }
                    }
                },
                _ => LinkPhase::Naming { candidates },
            },
            LinkPhase::AskingAddress => match event {
                LinkEvent::Address(address) => LinkPhase::Registering(Registration::single(address)),
                _ => LinkPhase::AskingAddress,
            },
            LinkPhase::Registering(r) => match event {
                LinkEvent::Handshake(e) => {
                    let (after, _) = r.step(e);
                    match after.outcome() {
                        Some(Ok(bridge)) => LinkPhase::Saving(bridge),
                        Some(Err(error)) => LinkPhase::Failed(error),
                        None => LinkPhase::Registering(after),
                    }
                },
                _ => LinkPhase::Registering(r),
            },
            LinkPhase::Saving(bridge) => match event {
                LinkEvent::Saved(ok) => if ok {
                    LinkPhase::Linked(bridge)
                } else {
                    LinkPhase::Failed(ErrorKind::StoreFailure)
                },
                _ => LinkPhase::Saving(bridge),
            },
            other => other,
        };
        let state = Link { register: Register { username, appname: name }, phase: next };
        let action = state.action();
        (state, action)
    }
}

} // verus!
