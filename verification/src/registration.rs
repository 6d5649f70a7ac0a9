//! The pairing handshake: probe the bridge, wait while its link button has not
//! been pressed, and end with the address and the credential it issued.
//!
//! The handshake is a state machine. The caller performs each [`Action`]
//! (an HTTP probe, a pause) and reports what happened as an [`Event`];
//! [`Registration::step`] decides what comes next.

use crate::codec::{json_parse, parse};
use crate::error::ErrorKind;
use crate::json::{then_field, Json, JsonView};
use crate::network::{descend, error_code, read_error_code, LINK_BUTTON_NOT_PRESSED};
use crate::store::{linked, LinkedBridge, LinkedBridgeView};
use crate::text::texts;
use vstd::prelude::*;

verus! {

/// How long to pause before the bridge is asked again, in seconds.
pub const BACKOFF_SECONDS: u64 = 5;

/// What one answer to a pairing request means.
#[derive(Clone, Debug, PartialEq, Eq)]
pub enum ProbeOutcome {
    /// The bridge issued this credential.
    Confirmed(String),
    /// The link button has not been pressed: ask again later.
    Pending,
    /// The answer has neither the "not pressed" code nor a credential.
    Malformed,
}

/// The mathematical value of a [`ProbeOutcome`].
pub enum ProbeOutcomeView {
    Confirmed(Seq<char>),
    Pending,
    Malformed,
}

impl View for ProbeOutcome {
    type V = ProbeOutcomeView;

    open spec fn view(&self) -> ProbeOutcomeView {
        match self {
            ProbeOutcome::Confirmed(c) => ProbeOutcomeView::Confirmed(c@),
            ProbeOutcome::Pending => ProbeOutcomeView::Pending,
            ProbeOutcome::Malformed => ProbeOutcomeView::Malformed,
        }
    }
}

/// The string at `[0].success.username` of an answer, where there is one.
pub open spec fn issued_credential(reply: JsonView) -> Option<Seq<char>> {
    match then_field(then_field(reply.item(0), "success"@), "username"@) {
        Some(name) => name.as_text(),
        None => None,
    }
}

/// What an answer means: the "not pressed" code is looked for first, then
/// the credential.
pub open spec fn probe_outcome(reply: JsonView) -> ProbeOutcomeView {
    if error_code(reply) == Some(LINK_BUTTON_NOT_PRESSED) {
        ProbeOutcomeView::Pending
    } else {
        match issued_credential(reply) {
            Some(credential) => ProbeOutcomeView::Confirmed(credential),
            None => ProbeOutcomeView::Malformed,
        }
    }
}

/// What the body of an answer means; a body that is not JSON is malformed.
pub open spec fn body_outcome(body: Seq<char>) -> ProbeOutcomeView {
    match json_parse(body) {
        Some(reply) => probe_outcome(reply),
        None => ProbeOutcomeView::Malformed,
    }
}

/// Decodes one parsed answer to a pairing request.
pub fn classify_probe(reply: &Json) -> (r: ProbeOutcome)
    ensures
        r@ == probe_outcome(reply@),
{
    if read_error_code(reply) == Some(LINK_BUTTON_NOT_PRESSED) {
        return ProbeOutcome::Pending;
    }
    match descend(reply.at(0), "success", "username") {
        Some(value) => match value.as_str() {
            Some(credential) => ProbeOutcome::Confirmed(credential.to_owned()),
            None => ProbeOutcome::Malformed,
        },
        None => ProbeOutcome::Malformed,
    }
}

/// Decodes the body of one answer to a pairing request.
pub fn decode_probe(body: &str) -> (r: ProbeOutcome)
    ensures
        r@ == body_outcome(body@),
{
    match parse(body) {
        Ok(reply) => classify_probe(&reply),
        Err(_) => ProbeOutcome::Malformed,
    }
}

/// Where a handshake stands.
#[derive(Clone, Debug, PartialEq, Eq)]
pub enum Phase {
    /// The candidate at `cursor` is to be probed, or its answer is awaited.
    Probing { cursor: usize },
    /// Every candidate said "not pressed"; a pause comes before the next pass.
    AwaitingConfirmation,
    /// The candidate at `cursor` issued `credential`.
    Confirmed { cursor: usize, credential: String },
    /// The handshake was given up.
    Failed { error: ErrorKind },
}

/// The mathematical value of a [`Phase`].
pub enum PhaseView {
    Probing { cursor: nat },
    AwaitingConfirmation,
    Confirmed { cursor: nat, credential: Seq<char> },
    Failed { error: ErrorKind },
}

impl View for Phase {
    type V = PhaseView;

    open spec fn view(&self) -> PhaseView {
        match self {
            Phase::Probing { cursor } => PhaseView::Probing { cursor: *cursor as nat },
            Phase::AwaitingConfirmation => PhaseView::AwaitingConfirmation,
            Phase::Confirmed { cursor, credential } => PhaseView::Confirmed {
                cursor: *cursor as nat,
                credential: credential@,
            },
            Phase::Failed { error } => PhaseView::Failed { error: *error },
        }
    }
}

/// What the caller reports back after performing an [`Action`].
#[derive(Clone, Debug, PartialEq, Eq)]
pub enum Event {
    /// The probe was answered.
    Replied(ProbeOutcome),
    /// The pause is over.
    Waited,
    /// The probe could not be sent, or no answer came back.
    TransportFailed,
}

/// The mathematical value of an [`Event`].
pub enum EventView {
    Replied(ProbeOutcomeView),
    Waited,
    TransportFailed,
}

impl View for Event {
    type V = EventView;

    open spec fn view(&self) -> EventView {
        match self {
            Event::Replied(outcome) => EventView::Replied(outcome@),
            Event::Waited => EventView::Waited,
            Event::TransportFailed => EventView::TransportFailed,
        }
    }
}

/// What the caller is to do next.
#[derive(Clone, Debug, PartialEq, Eq)]
pub enum Action {
    /// Send the pairing request to `address`.
    Probe { address: String },
    /// Ask the operator to press the link button, then pause for `seconds`.
    Wait { seconds: u64 },
    /// The handshake is over: `address` issued `credential`.
    Finish { address: String, credential: String },
    /// The handshake is over without a credential.
    Abort { error: ErrorKind },
}

/// The mathematical value of an [`Action`].
pub enum ActionView {
    Probe { address: Seq<char> },
    Wait { seconds: u64 },
    Finish { address: Seq<char>, credential: Seq<char> },
    Abort { error: ErrorKind },
}

impl View for Action {
    type V = ActionView;

    open spec fn view(&self) -> ActionView {
        match self {
            Action::Probe { address } => ActionView::Probe { address: address@ },
            Action::Wait { seconds } => ActionView::Wait { seconds: *seconds },
            Action::Finish { address, credential } => ActionView::Finish {
                address: address@,
                credential: credential@,
            },
            Action::Abort { error } => ActionView::Abort { error: *error },
        }
    }
}

/// The mathematical value of a [`Registration`]: the candidate addresses in
/// probing order, and the phase.
pub struct RegistrationView {
    pub targets: Seq<Seq<char>>,
    pub phase: PhaseView,
}

impl RegistrationView {
    /// There is a candidate, the cursor points at one, and a handshake that
    /// was given up was given up for the network or for the protocol: never
    /// because the link button had not been pressed.
    pub open spec fn well_formed(self) -> bool {
        &&& self.targets.len() > 0
        &&& match self.phase {
            PhaseView::Probing { cursor } => cursor < self.targets.len(),
            PhaseView::Confirmed { cursor, .. } => cursor < self.targets.len(),
            PhaseView::Failed { error } => error == ErrorKind::NetworkFailure || error
                == ErrorKind::ProtocolError,
            PhaseView::AwaitingConfirmation => true,
        }
    }

    /// No further event changes the handshake.
    pub open spec fn finished(self) -> bool {
        self.phase is Confirmed || self.phase is Failed
    }
}

/// The phase after `event`. A credential ends the handshake at once; "not
/// pressed" moves on to the next candidate, or to a pause after the last one;
/// the end of a pause starts a new pass at the first candidate. An event that
/// does not answer what the phase is waiting for changes nothing.
pub open spec fn next_phase(count: nat, phase: PhaseView, event: EventView) -> PhaseView {
    match (phase, event) {
        (
            PhaseView::Probing { cursor },
            EventView::Replied(ProbeOutcomeView::Confirmed(credential)),
        ) => PhaseView::Confirmed { cursor, credential },
        (PhaseView::Probing { cursor }, EventView::Replied(ProbeOutcomeView::Pending)) => if cursor
            + 1 < count {
            PhaseView::Probing { cursor: cursor + 1 }
        } else {
            PhaseView::AwaitingConfirmation
        },
        (
            PhaseView::Probing { .. },
            EventView::Replied(ProbeOutcomeView::Malformed),
        ) => PhaseView::Failed { error: ErrorKind::ProtocolError },
        (PhaseView::Probing { .. }, EventView::TransportFailed) => PhaseView::Failed {
            error: ErrorKind::NetworkFailure,
        },
        (PhaseView::AwaitingConfirmation, EventView::Waited) => PhaseView::Probing { cursor: 0 },
        _ => phase,
    }
}

/// The handshake after `event`.
pub open spec fn advance(state: RegistrationView, event: EventView) -> RegistrationView {
    RegistrationView {
        targets: state.targets,
        phase: next_phase(state.targets.len(), state.phase, event),
    }
}

/// What a handshake in this state asks of the caller.
pub open spec fn pending_action(state: RegistrationView) -> ActionView {
    match state.phase {
        PhaseView::Probing { cursor } => ActionView::Probe { address: state.targets[cursor as int] },
        PhaseView::AwaitingConfirmation => ActionView::Wait { seconds: BACKOFF_SECONDS },
        PhaseView::Confirmed { cursor, credential } => ActionView::Finish {
            address: state.targets[cursor as int],
            credential,
        },
        PhaseView::Failed { error } => ActionView::Abort { error },
    }
}

/// How a handshake ended, once it has: with the bridge that issued the
/// credential, or with the error that ended it.
pub open spec fn outcome_of(state: RegistrationView) -> Option<Result<LinkedBridgeView, ErrorKind>> {
    match state.phase {
        PhaseView::Confirmed { cursor, credential } => Some(
            Ok(linked(state.targets[cursor as int], credential)),
        ),
        PhaseView::Failed { error } => Some(Err(error)),
        _ => None,
    }
}

/// One pairing handshake, against one address or several.
pub struct Registration {
    targets: Vec<String>,
    phase: Phase,
}

impl View for Registration {
    type V = RegistrationView;

    closed spec fn view(&self) -> RegistrationView {
        RegistrationView { targets: texts(self.targets@), phase: self.phase@ }
    }
}

impl Registration {
    #[verifier::type_invariant]
    spec fn inv(self) -> bool {
        self@.well_formed()
    }

    /// A handshake against one known address. The first probe goes out at
    /// once, without a pause before it.
    pub fn single(address: String) -> (r: Registration)
        ensures
            r@ == (RegistrationView {
                targets: seq![address@],
                phase: PhaseView::Probing { cursor: 0 },
            }),
    {
        let mut targets: Vec<String> = Vec::new();
        targets.push(address);
        assert(texts(targets@) =~= seq![address@]);
        Registration { targets, phase: Phase::Probing { cursor: 0 } }
    }

    /// A handshake against several candidates, probed in the order given.
    /// Each pass starts with a pause. With no candidate there is nothing to
    /// wait for, and the handshake is refused.
    pub fn multi(candidates: Vec<String>) -> (r: Result<Registration, ErrorKind>)
        ensures
            candidates.len() == 0 ==> r == Err::<Registration, ErrorKind>(
                ErrorKind::InvariantViolation,
            ),
            candidates.len() > 0 ==> r is Ok && r->Ok_0@ == (RegistrationView {
                targets: texts(candidates@),
                phase: PhaseView::AwaitingConfirmation,
            }),
    {
        if candidates.len() == 0 {
            Err(ErrorKind::InvariantViolation)
        } else {
            Ok(Registration { targets: candidates, phase: Phase::AwaitingConfirmation })
        }
    }

    /// Starts a handshake from what is known: an explicit address takes
    /// precedence over discovered candidates; with neither, or with an empty
    /// candidate list and no address, the handshake is refused.
    pub fn begin(address: Option<String>, candidates: Option<Vec<String>>) -> (r: Result<
        Registration,
        ErrorKind,
    >)
        ensures
            match (address, candidates) {
                (Some(a), _) => r is Ok && r->Ok_0@ == (RegistrationView {
                    targets: seq![a@],
                    phase: PhaseView::Probing { cursor: 0 },
                }),
                (None, Some(c)) => if c.len() > 0 {
                    r is Ok && r->Ok_0@ == (RegistrationView {
                        targets: texts(c@),
                        phase: PhaseView::AwaitingConfirmation,
                    })
                } else {
                    r == Err::<Registration, ErrorKind>(
                        ErrorKind::InvariantViolation,
                    )
                },
                (None, None) => r == Err::<Registration, ErrorKind>(
                    ErrorKind::InvariantViolation,
                ),
            },
    {
        match address {
            Some(a) => Ok(Registration::single(a)),
            None => match candidates {
                Some(c) => Registration::multi(c),
                None => Err(ErrorKind::InvariantViolation),
            },
        }
    }

    /// What the caller is to do now.
    pub fn action(&self) -> (r: Action)
        ensures
            r@ == pending_action(self@),
    {
        proof {
            use_type_invariant(self);
        }
        match &self.phase {
            Phase::Probing { cursor } => Action::Probe { address: self.targets[*cursor].clone() },
            Phase::AwaitingConfirmation => Action::Wait { seconds: BACKOFF_SECONDS },
            Phase::Confirmed { cursor, credential } => Action::Finish {
                address: self.targets[*cursor].clone(),
                credential: credential.clone(),
            },
            Phase::Failed { error } => Action::Abort { error: *error },
        }
    }

    /// How the handshake ended, once it has.
    pub fn outcome(&self) -> (r: Option<Result<LinkedBridge, ErrorKind>>)
        ensures
            match outcome_of(self@) {
                Some(Ok(bridge)) => r matches Some(Ok(b)) && b@ == bridge,
                Some(Err(error)) => r == Some(Err::<LinkedBridge, ErrorKind>(error)),
                None => r is None,
            },
    {
        proof {
            use_type_invariant(self);
        }
        match &self.phase {
            Phase::Confirmed { cursor, credential } => Some(
                Ok(LinkedBridge::new(self.targets[*cursor].clone(), credential.clone())),
            ),
            Phase::Failed { error } => Some(Err(*error)),
            _ => None,
        }
    }

    /// True once the handshake has a credential or was given up.
    pub fn is_finished(&self) -> (r: bool)
        ensures
            r == self@.finished(),
    {
        match &self.phase {
            Phase::Confirmed { .. } => true,
            Phase::Failed { .. } => true,
            _ => false,
        }
    }

    /// Takes in what happened and says what to do next.
    pub fn step(self, event: Event) -> (r: (Registration, Action))
        ensures
            r.0@ == advance(self@, event@),
            r.1@ == pending_action(r.0@),
            r.0@.well_formed(),
    {
        proof {
            use_type_invariant(&self);
        }
        let Registration { targets, phase } = self;
        assert(texts(targets@).len() == targets.len());
        assert(phase@ == self@.phase);
        let next = match phase {
            Phase::Probing { cursor } => match event {
                Event::Replied(ProbeOutcome::Confirmed(credential)) => Phase::Confirmed {
                    cursor,
                    credential,
                },
                Event::Replied(ProbeOutcome::Pending) => if cursor + 1 < targets.len() {
                    Phase::Probing { cursor: cursor + 1 }
                } else {
                    Phase::AwaitingConfirmation
                },
                Event::Replied(ProbeOutcome::Malformed) => Phase::Failed {
                    error: ErrorKind::ProtocolError,
                },
                Event::TransportFailed => Phase::Failed {
                    error: ErrorKind::NetworkFailure,
                },
                Event::Waited => Phase::Probing { cursor },
            },
            Phase::AwaitingConfirmation => match event {
                Event::Waited => Phase::Probing { cursor: 0 },
                _ => Phase::AwaitingConfirmation,
            },
            other => other,
        };
        let state = Registration { targets, phase: next };
        let action = state.action();
        (state, action)
    }
}

/// What a handshake does against a bridge whose answers are known.
pub struct Run {
    /// The addresses probed, in the order of the probes.
    pub probes: Seq<Seq<char>>,
    /// How many pauses were made.
    pub waits: nat,
    /// The phase in which the handshake stopped.
    pub end: PhaseView,
}

/// Drives a handshake from `state`: probe number `j` is answered with
/// `replies[j]`, each pause is followed by its end. The run stops when the
/// handshake is finished or a probe would get no answer.
pub open spec fn run(state: RegistrationView, replies: Seq<ProbeOutcomeView>) -> Run
    decreases replies.len(), (if state.phase is AwaitingConfirmation { 1nat } else { 0nat }),
{
    match state.phase {
        PhaseView::AwaitingConfirmation => {
            let rest = run(advance(state, EventView::Waited), replies);
            Run { probes: rest.probes, waits: rest.waits + 1, end: rest.end }
        },
        PhaseView::Probing { cursor } => if replies.len() == 0 {
            Run { probes: Seq::empty(), waits: 0, end: state.phase }
        } else {
            let rest = run(advance(state, EventView::Replied(replies[0])), replies.drop_first());
            Run {
                probes: seq![state.targets[cursor as int]] + rest.probes,
                waits: rest.waits,
                end: rest.end,
            }
        },
        _ => Run { probes: Seq::empty(), waits: 0, end: state.phase },
    }
}

/// The first `pending` answers say "not pressed" and the next one issues
/// `credential`.
pub open spec fn confirms_after(
    replies: Seq<ProbeOutcomeView>,
    pending: nat,
    credential: Seq<char>,
) -> bool {
    &&& pending < replies.len()
    &&& forall|j: int| 0 <= j < pending ==> replies[j] is Pending
    &&& replies[pending as int] == ProbeOutcomeView::Confirmed(credential)
}

proof fn lemma_wrap(x: nat, count: nat)
    requires
        count > 0,
    ensures
        (x + count) % count == x % count,
        (x + count) / count == x / count + 1,
{
    let q = (x / count) as int;
    let r = (x % count) as int;
    vstd::arithmetic::div_mod::lemma_fundamental_div_mod(x as int, count as int);
    vstd::arithmetic::div_mod::lemma_mod_pos_bound(x as int, count as int);
    assert((q + 1) * count == q * count + count) by (nonlinear_arith);
    assert(count * q == q * count) by (nonlinear_arith);
    vstd::arithmetic::div_mod::lemma_fundamental_div_mod_converse(
        (x + count) as int,
        count as int,
        q + 1,
        r,
    );
}

proof fn lemma_probing_run(
    targets: Seq<Seq<char>>,
    cursor: nat,
    replies: Seq<ProbeOutcomeView>,
    pending: nat,
    credential: Seq<char>,
)
    requires
        cursor < targets.len(),
        confirms_after(replies, pending, credential),
    ensures
        ({
            let r = run(RegistrationView { targets, phase: PhaseView::Probing { cursor } }, replies);
            &&& r.end == PhaseView::Confirmed {
                cursor: (cursor + pending) % targets.len(),
                credential,
            }
            &&& r.probes.len() == pending + 1
            &&& forall|j: int|
                0 <= j <= pending ==> #[trigger] r.probes[j] == targets[(cursor + j) % (
                targets.len() as int)]
            &&& r.waits == (cursor + pending) / targets.len()
        }),
    decreases pending,
{
    let count = targets.len();
    let state = RegistrationView { targets, phase: PhaseView::Probing { cursor } };
    let r = run(state, replies);
    vstd::arithmetic::div_mod::lemma_small_mod(cursor, count);
    vstd::arithmetic::div_mod::lemma_basic_div(cursor as int, count as int);
    if pending == 0 {
        let after = advance(state, EventView::Replied(replies[0]));
        assert(after.phase == PhaseView::Confirmed { cursor, credential });
        assert(run(after, replies.drop_first()).probes =~= Seq::empty());
        assert(r.probes =~= seq![targets[cursor as int]]);
    } else {
        let rest = replies.drop_first();
        assert(confirms_after(rest, (pending - 1) as nat, credential)) by {
            assert forall|j: int| 0 <= j < pending - 1 implies rest[j] is Pending by {
                assert(rest[j] == replies[j + 1]);
            }
        }
        let after = advance(state, EventView::Replied(replies[0]));
        assert(replies[0] is Pending);
        if cursor + 1 < count {
            assert(after.phase == PhaseView::Probing { cursor: cursor + 1 });
            lemma_probing_run(targets, cursor + 1, rest, (pending - 1) as nat, credential);
            let tail = run(after, rest);
            assert(r.probes =~= seq![targets[cursor as int]] + tail.probes);
            assert forall|j: int| 0 <= j <= pending implies #[trigger] r.probes[j] == targets[(
            cursor + j) % (count as int)] by {
                if j > 0 {
                    assert(r.probes[j] == tail.probes[j - 1]);
                    assert(cursor + 1 + (j - 1) == cursor + j);
                }
            }
            assert(cursor + 1 + (pending - 1) == cursor + pending);
        } else {
            assert(after.phase == PhaseView::AwaitingConfirmation);
            let resumed = advance(after, EventView::Waited);
            assert(resumed.phase == PhaseView::Probing { cursor: 0 });
            lemma_probing_run(targets, 0, rest, (pending - 1) as nat, credential);
            let tail = run(resumed, rest);
            assert(run(after, rest).probes == tail.probes);
            assert(r.probes =~= seq![targets[cursor as int]] + tail.probes);
            assert(cursor + pending == (pending - 1) + count);
            lemma_wrap((pending - 1) as nat, count);
            assert forall|j: int| 0 <= j <= pending implies #[trigger] r.probes[j] == targets[(
            cursor + j) % (count as int)] by {
                if j > 0 {
                    assert(r.probes[j] == tail.probes[j - 1]);
                    assert(cursor + j == (j - 1) + count);
                    lemma_wrap((j - 1) as nat, count);
                }
            }
        }
    }
}

/// Retrying against one address: where the bridge says "not pressed"
/// `pending` times and then issues a credential, the handshake probes that
/// address exactly `pending + 1` times, pauses `pending` times in between,
/// and ends with the credential. However long the human takes, a pause never
/// turns into a failure.
pub proof fn law_single_address_retries(
    address: Seq<char>,
    replies: Seq<ProbeOutcomeView>,
    pending: nat,
    credential: Seq<char>,
)
    requires
        confirms_after(replies, pending, credential),
    ensures
        ({
            let r = run(
                RegistrationView { targets: seq![address], phase: PhaseView::Probing { cursor: 0 } },
                replies,
            );
            &&& r.end == PhaseView::Confirmed { cursor: 0, credential }
            &&& r.probes.len() == pending + 1
            &&& forall|j: int| 0 <= j <= pending ==> #[trigger] r.probes[j] == address
            &&& r.waits == pending
        }),
{
    let targets = seq![address];
    lemma_probing_run(targets, 0, replies, pending, credential);
    let r = run(RegistrationView { targets, phase: PhaseView::Probing { cursor: 0 } }, replies);
    assert(pending % 1 == 0);
    assert(pending / 1 == pending);
    assert forall|j: int| 0 <= j <= pending implies #[trigger] r.probes[j] == address by {
        assert(j % 1 == 0);
        assert(r.probes[j] == targets[(0 + j) % 1]);
    }
}

/// Racing several candidates: probes go round the candidates in order, a
/// pause before each pass. The first probe that is answered with a
/// credential ends the handshake: its address wins, and nothing is probed
/// after it, in that pass or later.
pub proof fn law_first_confirmation_wins(
    candidates: Seq<Seq<char>>,
    replies: Seq<ProbeOutcomeView>,
    pending: nat,
    credential: Seq<char>,
)
    requires
        candidates.len() > 0,
        confirms_after(replies, pending, credential),
    ensures
        ({
            let r = run(
                RegistrationView { targets: candidates, phase: PhaseView::AwaitingConfirmation },
                replies,
            );
            &&& r.end == PhaseView::Confirmed { cursor: pending % candidates.len(), credential }
            &&& r.probes.len() == pending + 1
            &&& forall|j: int|
                0 <= j <= pending ==> #[trigger] r.probes[j] == candidates[j % (
                candidates.len() as int)]
            &&& r.waits == pending / candidates.len() + 1
        }),
{
    lemma_probing_run(candidates, 0, replies, pending, credential);
    let start = RegistrationView { targets: candidates, phase: PhaseView::AwaitingConfirmation };
    let resumed = advance(start, EventView::Waited);
    assert(resumed.phase == PhaseView::Probing { cursor: 0 });
    let r = run(start, replies);
    let tail = run(resumed, replies);
    assert(r.probes == tail.probes);
    assert forall|j: int| 0 <= j <= pending implies #[trigger] r.probes[j] == candidates[j % (
    candidates.len() as int)] by {
        assert(tail.probes[j] == candidates[(0 + j) % (candidates.len() as int)]);
    }
}

/// Which candidate a probe before the winning one goes to, and in which
/// pass: a candidate in an earlier pass, or one before the winner in the last.
proof fn lemma_pass_of(j: int, count: nat, passes: nat, winner: nat)
    requires
        winner < count,
        0 <= j < passes * count + winner,
    ensures
        0 <= j % (count as int) < count,
        0 <= j / (count as int) <= passes,
        j / (count as int) == passes ==> j % (count as int) < winner,
{
    let q = j / (count as int);
    let m = j % (count as int);
    vstd::arithmetic::div_mod::lemma_fundamental_div_mod(j, count as int);
    vstd::arithmetic::div_mod::lemma_mod_pos_bound(j, count as int);
    assert(count * q == q * count) by (nonlinear_arith);
    if q > passes {
        assert(q * count >= passes * count + count) by (nonlinear_arith)
            requires
                q >= passes + 1,
                count > 0,
        ;
    }
    if q < 0 {
        assert(q * count <= -count) by (nonlinear_arith)
            requires
                q <= -1,
                count > 0,
        ;
    }
}

/// The answers of bridges where what a candidate answers depends on
/// the candidate and on the pass alone: probe number `j` goes to candidate
/// `j % count` in pass `j / count`.
pub open spec fn answers_by_pass(
    count: nat,
    answer: spec_fn(int, int) -> ProbeOutcomeView,
    probes: nat,
) -> Seq<ProbeOutcomeView> {
    Seq::new(probes, |j: int| answer(j % (count as int), j / (count as int)))
}

/// Racing candidates of which only one ever confirms: where candidate
/// `winner` says "not pressed" for `passes` passes and then issues a
/// credential, and every other candidate always says "not pressed", the
/// handshake selects `winner` with that credential in pass number `passes`.
/// Every candidate before the winner was probed in that pass, and none after
/// it: the probes number `passes` full passes and `winner + 1` more.
pub proof fn law_only_confirming_candidate_is_selected(
    candidates: Seq<Seq<char>>,
    answer: spec_fn(int, int) -> ProbeOutcomeView,
    winner: nat,
    passes: nat,
    credential: Seq<char>,
    probes: nat,
)
    requires
        winner < candidates.len(),
        forall|i: int, p: int|
            0 <= i < candidates.len() && i != winner && 0 <= p ==> #[trigger] answer(i, p) is Pending,
        forall|p: int| 0 <= p < passes ==> #[trigger] answer(winner as int, p) is Pending,
        answer(winner as int, passes as int) == ProbeOutcomeView::Confirmed(credential),
        probes > passes * candidates.len() + winner,
    ensures
        ({
            let r = run(
                RegistrationView { targets: candidates, phase: PhaseView::AwaitingConfirmation },
                answers_by_pass(candidates.len(), answer, probes),
            );
            &&& r.end == PhaseView::Confirmed { cursor: winner, credential }
            &&& r.probes.len() == passes * candidates.len() + winner + 1
            &&& r.probes.last() == candidates[winner as int]
            &&& r.waits == passes + 1
        }),
{
    let count = candidates.len();
    let replies = answers_by_pass(count, answer, probes);
    let k = passes * count + winner;
    vstd::arithmetic::div_mod::lemma_fundamental_div_mod_converse(
        k as int,
        count as int,
        passes as int,
        winner as int,
    );
    assert forall|j: int| 0 <= j < k implies replies[j] is Pending by {
        lemma_pass_of(j, count, passes, winner);
    }
    assert(replies[k as int] == ProbeOutcomeView::Confirmed(credential));
    law_first_confirmation_wins(candidates, replies, k, credential);
    let r = run(
        RegistrationView { targets: candidates, phase: PhaseView::AwaitingConfirmation },
        replies,
    );
    assert(r.probes.last() == r.probes[k as int]);
}

/// "Not pressed" is never a failure: while every answer says so, the
/// handshake is still probing or pausing, whatever the number of answers.
pub proof fn law_pending_never_ends(state: RegistrationView, replies: Seq<ProbeOutcomeView>)
    requires
        state.well_formed(),
        !state.finished(),
        forall|j: int| 0 <= j < replies.len() ==> replies[j] is Pending,
    ensures
        !(RegistrationView { targets: state.targets, phase: run(state, replies).end }).finished(),
        run(state, replies).probes.len() == replies.len(),
    decreases replies.len(), (if state.phase is AwaitingConfirmation { 1nat } else { 0nat }),
{
    match state.phase {
        PhaseView::AwaitingConfirmation => {
            law_pending_never_ends(advance(state, EventView::Waited), replies);
        },
        PhaseView::Probing { cursor } => {
            if replies.len() > 0 {
                let rest = replies.drop_first();
                assert forall|j: int| 0 <= j < rest.len() implies rest[j] is Pending by {
                    assert(rest[j] == replies[j + 1]);
                }
                law_pending_never_ends(advance(state, EventView::Replied(replies[0])), rest);
            }
        },
        _ => {},
    }
}

} // verus!
