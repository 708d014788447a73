//! The forwarding of one request: which connection it goes through, when it
//! is tried again, and what is answered when it cannot be forwarded.
//!
//! The service decides; the caller does the work. For each request the
//! caller asks `begin` whether the host names a target, then repeats:
//! `start_attempt` hands out a connection or asks for a new one, the caller
//! sends the request and reports the outcome to `finish_attempt`, which says
//! whether the request is done, is tried again after a delay, or is given up.
use crate::connection_dispatcher::{ConnectionsDispatcher, Upstream};
use crate::mocks_reader::{first_match, none_answers, spec_first_match, Mock};
use crate::target::{is_well_formed, Target};
use vstd::prelude::*;
use vstd::string::StringExecFns;

verus! {

/// The number of attempts after which a request is given up.
pub const MAX_RETRIES: usize = 4;

/// The delay after the first failed attempt, in milliseconds. The delay
/// after a later one is this many times the number of attempts made.
pub const BASE_DELAY_MS: u64 = 100;

/// The status of the answers that the proxy makes up itself.
pub const FAILURE_STATUS: u16 = 500;

/// The delay after the given number of failed attempts, in milliseconds.
pub open spec fn spec_backoff_ms(attempt: nat) -> nat {
    attempt * BASE_DELAY_MS as nat
}

/// The delay to wait after the failure of attempt number `attempt`.
pub fn backoff_ms(attempt: usize) -> (delay: u64)
    requires
        attempt <= MAX_RETRIES,
    ensures
        delay == spec_backoff_ms(attempt as nat),
{
    attempt as u64 * BASE_DELAY_MS
}

/// An answer that the proxy makes up itself, in place of an answer of the
/// upstream.
#[derive(Debug)]
pub struct Reply {
    pub status: u16,
    pub body: String,
}

/// What `Reply` holds.
pub ghost struct ReplyView {
    pub status: u16,
    pub body: Seq<char>,
}

impl View for Reply {
    type V = ReplyView;

    open spec fn view(&self) -> ReplyView {
        ReplyView { status: self.status, body: self.body@ }
    }
}

/// The answer to a request whose host names no target.
pub open spec fn spec_malformed_host() -> ReplyView {
    ReplyView { status: FAILURE_STATUS, body: "Incorrect format of the received host\n"@ }
}

/// The answer to a request that could not be forwarded.
pub open spec fn spec_unable_to_forward() -> ReplyView {
    ReplyView { status: FAILURE_STATUS, body: "Unable to port-forward\n"@ }
}

impl Reply {
    /// The answer to a request whose host names no target.
    pub fn malformed_host() -> (reply: Reply)
        ensures
            reply@ == spec_malformed_host(),
    {
        Reply {
            status: FAILURE_STATUS,
            body: String::from_str("Incorrect format of the received host\n"),
        }
    }

    /// The answer to a request that could not be forwarded.
    pub fn unable_to_forward() -> (reply: Reply)
        ensures
            reply@ == spec_unable_to_forward(),
    {
        Reply { status: FAILURE_STATUS, body: String::from_str("Unable to port-forward\n") }
    }
}

/// Why an attempt failed.
#[derive(Clone, Copy, Debug, PartialEq, Eq, Structural)]
pub enum Failure {
    /// No pod was found for the target, or the pods could not be listed.
    DiscoveryFailed,
    /// A tunnel was opened, but no connection could be set up over it.
    HandshakeFailed,
    /// The request could not be sent, or no answer came back.
    SendFailed,
    /// The body of the request can no longer be replayed.
    Capped,
}

impl Failure {
    /// The failure of an attempt in which the request could not be sent.
    /// `capped` is what the body for the next attempt says of itself: whether
    /// it was capped, or nothing where there is no such body or its state
    /// cannot be found. Only a body that can be replayed leaves the request
    /// another attempt.
    pub fn after_send(capped: Option<bool>) -> (cause: Failure)
        ensures
            cause == if capped == Some(false) {
                Failure::SendFailed
            } else {
                Failure::Capped
            },
    {
        match capped {
            Some(false) => Failure::SendFailed,
            _ => Failure::Capped,
        }
    }
}

/// What the caller reports of an attempt.
pub enum Outcome<H> {
    /// The upstream answered. The handle through which it did is given back.
    Sent(H),
    /// The attempt failed.
    Failed(Failure),
}

/// What becomes of a request after an attempt.
#[derive(Debug)]
pub enum Verdict {
    /// The upstream's answer goes to the client as it is.
    Done,
    /// The request is tried again after a delay.
    Retry { delay_ms: u64 },
    /// The request is given up: the client gets this answer.
    GiveUp(Reply),
}

/// What `Verdict` holds.
pub ghost enum VerdictView {
    Done,
    Retry { delay_ms: nat },
    GiveUp(ReplyView),
}

impl View for Verdict {
    type V = VerdictView;

    open spec fn view(&self) -> VerdictView {
        match self {
            Verdict::Done => VerdictView::Done,
            Verdict::Retry { delay_ms } => VerdictView::Retry { delay_ms: *delay_ms as nat },
            Verdict::GiveUp(reply) => VerdictView::GiveUp(reply@),
        }
    }
}

/// The forwarding of one request, as far as it has come.
#[derive(Debug)]
pub struct Forward {
    host: String,
    attempt: usize,
}

/// What `Forward` holds.
pub ghost struct ForwardView {
    /// The host of the request, which names its target.
    pub host: Seq<char>,
    /// The number of attempts that were started.
    pub attempt: nat,
}

impl View for Forward {
    type V = ForwardView;

    closed spec fn view(&self) -> ForwardView {
        ForwardView { host: self.host@, attempt: self.attempt as nat }
    }
}

impl Forward {
    /// Every forwarding is of a well-formed host and stays within the
    /// number of attempts.
    #[verifier::type_invariant]
    spec fn bounded(self) -> bool {
        self.attempt <= MAX_RETRIES && is_well_formed(self.host@)
    }

    /// The host of the request.
    pub fn host(&self) -> (host: &str)
        ensures
            host@ == self@.host,
            is_well_formed(host@),
    {
        proof {
            use_type_invariant(self);
        }
        self.host.as_str()
    }

    /// The number of attempts that were started.
    pub fn attempt(&self) -> (attempt: usize)
        ensures
            attempt == self@.attempt,
            attempt <= MAX_RETRIES,
    {
        proof {
            use_type_invariant(self);
        }
        self.attempt
    }
}

/// What the start of an attempt does: it counts the attempt and lends the
/// idle handle of the host, if there is one.
pub open spec fn spec_start<H>(idle: Map<Seq<char>, H>, forward: ForwardView) -> (
    Map<Seq<char>, H>,
    ForwardView,
    Option<H>,
) {
    (
        idle.remove(forward.host),
        ForwardView { attempt: forward.attempt + 1, ..forward },
        if idle.contains_key(forward.host) {
            Some(idle[forward.host])
        } else {
            None
        },
    )
}

/// What the end of an attempt does. After an answer the handle is idle
/// again and the request is done. After a failure no handle is left for the
/// host; the request is tried again after a delay that grows with the number
/// of attempts, and is given up after the last attempt or when its body can
/// no longer be replayed.
pub open spec fn spec_finish<H>(
    idle: Map<Seq<char>, H>,
    forward: ForwardView,
    outcome: Outcome<H>,
) -> (Map<Seq<char>, H>, VerdictView) {
    match outcome {
        Outcome::Sent(handle) => (idle.insert(forward.host, handle), VerdictView::Done),
        Outcome::Failed(cause) => (
            idle.remove(forward.host),
            if cause == Failure::Capped || forward.attempt >= MAX_RETRIES {
                VerdictView::GiveUp(spec_unable_to_forward())
            } else {
                VerdictView::Retry { delay_ms: spec_backoff_ms(forward.attempt) }
            },
        ),
    }
}

/// What is done with a request before any connection is touched.
pub enum Dispatch {
    /// The request is answered from the mock at this place of the table.
    Mocked(usize),
    /// The request is forwarded.
    Forwarded(Forward),
    /// The request is answered at once: its host names no target.
    Rejected(Reply),
}

/// The service that forwards requests. It holds the idle connections.
pub struct RequestHandlingService<H> {
    upstream_connection: ConnectionsDispatcher<H>,
}

impl<H> View for RequestHandlingService<H> {
    type V = Map<Seq<char>, H>;

    closed spec fn view(&self) -> Map<Seq<char>, H> {
        self.upstream_connection@
    }
}

impl<H> RequestHandlingService<H> {
    /// A service without connections.
    pub fn new() -> (service: Self)
        ensures
            service@ == Map::<Seq<char>, H>::empty(),
    {
        RequestHandlingService { upstream_connection: ConnectionsDispatcher::new() }
    }

    /// The number of idle connections.
    pub fn idle_connections(&self) -> (count: usize)
        ensures
            count == self@.dom().len(),
            self@.dom().finite(),
    {
        self.upstream_connection.len()
    }

    /// Whether a connection is idle for `host`.
    pub fn has_idle_connection(&self, host: &str) -> (idle: bool)
        ensures
            idle == self@.contains_key(host@),
    {
        self.upstream_connection.contains(host)
    }

    /// Takes the idle connection of `host` out of the service, if there is
    /// one.
    pub fn take(&mut self, host: &str) -> (taken: Option<H>)
        ensures
            final(self)@ == old(self)@.remove(host@),
            taken == if old(self)@.contains_key(host@) {
                Some(old(self)@[host@])
            } else {
                None
            },
    {
        self.upstream_connection.take(host)
    }

    /// Takes back a connection that is still good, outside an attempt: it is
    /// idle for `host` from now on. For a request whose client left while
    /// the upstream was answering.
    pub fn give_it_back(&mut self, sender: H, host: &str)
        ensures
            final(self)@ == old(self)@.insert(host@, sender),
    {
        self.upstream_connection.release(host, sender);
    }

    /// Begins the forwarding of a request for `host`. A host that names no
    /// target is answered at once, before any connection is touched.
    pub fn begin(&self, host: &str) -> (begun: Result<Forward, Reply>)
        ensures
            match begun {
                Ok(forward) => is_well_formed(host@) && forward@ == (ForwardView {
                    host: host@,
                    attempt: 0,
                }),
                Err(reply) => !is_well_formed(host@) && reply@ == spec_malformed_host(),
            },
    {
        match Target::parse(host) {
            Ok(_) => Ok(Forward { host: String::from_str(host), attempt: 0 }),
            Err(_) => Err(Reply::malformed_host()),
        }
    }

    /// Says what is done with a request, before any connection is touched.
    /// The first mock of the table that is for the request answers it. A
    /// request for which there is no mock is forwarded, unless its host names
    /// no target.
    pub fn dispatch(&self, mocks: &Vec<Mock>, host: &str, method: &str, path: &str) -> (dispatch:
        Dispatch)
        ensures
            match dispatch {
                Dispatch::Mocked(at) => spec_first_match(mocks@, host@, method@, path@, Some(at)),
                Dispatch::Forwarded(forward) => {
                    &&& none_answers(mocks@, mocks@.len() as int, host@, method@, path@)
                    &&& is_well_formed(host@)
                    &&& forward@ == (ForwardView { host: host@, attempt: 0 })
                },
                Dispatch::Rejected(reply) => {
                    &&& none_answers(mocks@, mocks@.len() as int, host@, method@, path@)
                    &&& !is_well_formed(host@)
                    &&& reply@ == spec_malformed_host()
                },
            },
    {
        match first_match(mocks, host, method, path) {
            Some(at) => Dispatch::Mocked(at),
            None => match self.begin(host) {
                Ok(forward) => Dispatch::Forwarded(forward),
                Err(reply) => Dispatch::Rejected(reply),
            },
        }
    }

    /// Starts the next attempt: counts it and hands out the connection to
    /// send through, or the target to which one is to be made. The forwarding
    /// must have an attempt left.
    pub fn start_attempt(&mut self, forward: &mut Forward) -> (upstream: Upstream<H>)
        requires
            old(forward)@.attempt < MAX_RETRIES,
        ensures
            final(self)@ == spec_start(old(self)@, old(forward)@).0,
            final(forward)@ == spec_start(old(self)@, old(forward)@).1,
            match upstream {
                Upstream::Loaned(handle) => spec_start(old(self)@, old(forward)@).2 == Some(
                    handle,
                ),
                Upstream::Creating(target) => spec_start(old(self)@, old(forward)@).2 is None
                    && target.spec_key() == old(forward)@.host,
            },
    {
        proof {
            use_type_invariant(&*forward);
        }
        forward.attempt = forward.attempt + 1;
        match self.upstream_connection.get_upstream_client(forward.host.as_str()) {
            Ok(upstream) => upstream,
            // A forwarding is only ever begun for a well-formed host.
            Err(_) => vstd::pervasive::unreached(),
        }
    }

    /// Ends an attempt with what the caller reports of it, and says what
    /// becomes of the request.
    pub fn finish_attempt(&mut self, forward: &Forward, outcome: Outcome<H>) -> (verdict: Verdict)
        ensures
            final(self)@ == spec_finish(old(self)@, forward@, outcome).0,
            verdict@ == spec_finish(old(self)@, forward@, outcome).1,
    {
        proof {
            use_type_invariant(forward);
        }
        match outcome {
            Outcome::Sent(handle) => {
                self.upstream_connection.release(forward.host.as_str(), handle);
                Verdict::Done
            },
            Outcome::Failed(cause) => {
                self.upstream_connection.report_broken_upstream_connection(forward.host.as_str());
                if cause == Failure::Capped || forward.attempt >= MAX_RETRIES {
                    Verdict::GiveUp(Reply::unable_to_forward())
                } else {
                    Verdict::Retry { delay_ms: backoff_ms(forward.attempt) }
                }
            },
        }
    }
}

/// The course of a forwarding: what it has led to once the caller has
/// reported the given outcomes, one per attempt.
pub ghost struct Run<H> {
    /// The idle handles at the end.
    pub idle: Map<Seq<char>, H>,
    /// The number of attempts that were started.
    pub attempts: nat,
    /// The delays that were asked for, in order.
    pub delays: Seq<nat>,
    /// What became of the request, if that was settled.
    pub verdict: Option<VerdictView>,
}

/// The course that a forwarding takes from the given state when its
/// attempts end with `outcomes`, in order. Outcomes beyond the one that
/// settles the request are not looked at.
pub open spec fn spec_run<H>(
    idle: Map<Seq<char>, H>,
    forward: ForwardView,
    outcomes: Seq<Outcome<H>>,
) -> Run<H>
    decreases outcomes.len(),
{
    if outcomes.len() == 0 || forward.attempt >= MAX_RETRIES {
        Run { idle, attempts: forward.attempt, delays: Seq::empty(), verdict: None }
    } else {
        let started = spec_start(idle, forward);
        let finished = spec_finish(started.0, started.1, outcomes[0]);
        match finished.1 {
            VerdictView::Retry { delay_ms } => {
                let rest = spec_run(finished.0, started.1, outcomes.drop_first());
                Run { delays: seq![delay_ms] + rest.delays, ..rest }
            },
            _ => Run {
                idle: finished.0,
                attempts: started.1.attempt,
                delays: Seq::empty(),
                verdict: Some(finished.1),
            },
        }
    }
}

/// Whether an outcome is a failure after which another attempt is in order.
pub open spec fn is_retryable<H>(outcome: Outcome<H>) -> bool {
    outcome matches Outcome::Failed(cause) && cause != Failure::Capped
}

/// Retry bound: when every attempt fails, a request is given up after
/// exactly `MAX_RETRIES` attempts with the answer for a request that could
/// not be forwarded. The delays between the attempts never shrink, and no
/// handle is left for the host.
pub proof fn lemma_always_failing_gives_up<H>(
    idle: Map<Seq<char>, H>,
    host: Seq<char>,
    outcomes: Seq<Outcome<H>>,
)
    requires
        outcomes.len() >= MAX_RETRIES,
        forall|i: int| 0 <= i < outcomes.len() ==> is_retryable(#[trigger] outcomes[i]),
    ensures
        ({
            let run = spec_run(idle, ForwardView { host, attempt: 0 }, outcomes);
            &&& run.attempts == MAX_RETRIES
            &&& run.verdict == Some(VerdictView::GiveUp(spec_unable_to_forward()))
            &&& run.delays == seq![100nat, 200nat, 300nat]
            &&& forall|i: int, j: int|
                0 <= i <= j < run.delays.len() ==> run.delays[i] <= run.delays[j]
            &&& !run.idle.contains_key(host)
        }),
{
    reveal_with_fuel(spec_run, 5);
}

/// Success path: when the first attempt fails and the second one is
/// answered, the request is done after two attempts and one delay, and the
/// handle that answered is the idle handle of the host.
pub proof fn lemma_second_attempt_succeeds<H>(
    idle: Map<Seq<char>, H>,
    host: Seq<char>,
    outcomes: Seq<Outcome<H>>,
    handle: H,
)
    requires
        outcomes.len() >= 2,
        is_retryable(outcomes[0]),
        outcomes[1] == Outcome::Sent(handle),
    ensures
        ({
            let run = spec_run(idle, ForwardView { host, attempt: 0 }, outcomes);
            &&& run.verdict == Some(VerdictView::Done)
            &&& run.attempts == 2
            &&& run.delays == seq![100nat]
            &&& run.idle == idle.insert(host, handle)
            &&& run.idle.contains_key(host) && run.idle[host] == handle
        }),
{
    reveal_with_fuel(spec_run, 3);
}

/// Backoff: whatever the outcomes of the attempts, each delay is the base
/// delay times the number of attempts made before it, so the delays of a
/// request never shrink, and none exceeds the delay after the last attempt
/// but one.
pub proof fn lemma_delays_grow<H>(
    idle: Map<Seq<char>, H>,
    forward: ForwardView,
    outcomes: Seq<Outcome<H>>,
)
    ensures
        ({
            let run = spec_run(idle, forward, outcomes);
            &&& forall|i: int|
                0 <= i < run.delays.len() ==> #[trigger] run.delays[i] == spec_backoff_ms(
                    (forward.attempt + 1 + i) as nat,
                )
            &&& forall|i: int, j: int|
                0 <= i <= j < run.delays.len() ==> run.delays[i] <= run.delays[j]
            &&& forward.attempt + run.delays.len() < MAX_RETRIES || run.delays.len() == 0
            &&& forall|i: int|
                0 <= i < run.delays.len() ==> #[trigger] run.delays[i] < spec_backoff_ms(
                    MAX_RETRIES as nat,
                )
        }),
    decreases outcomes.len(),
{
    if outcomes.len() > 0 && forward.attempt < MAX_RETRIES {
        let started = spec_start(idle, forward);
        let finished = spec_finish(started.0, started.1, outcomes[0]);
        match finished.1 {
            VerdictView::Retry { delay_ms } => {
                lemma_delays_grow(finished.0, started.1, outcomes.drop_first());
                let run = spec_run(idle, forward, outcomes);
                assert forall|i: int| 0 <= i < run.delays.len() implies #[trigger] run.delays[i]
                    == spec_backoff_ms((forward.attempt + 1 + i) as nat) by {}
                assert forall|i: int, j: int| 0 <= i <= j < run.delays.len() implies run.delays[i]
                    <= run.delays[j] by {}
            },
            _ => {},
        }
    }
}

/// The first answer settles a request: whatever was idle before, after an
/// answered attempt the handle that answered is idle for the host, and the
/// upstream's answer goes to the client.
pub proof fn lemma_answer_settles<H>(idle: Map<Seq<char>, H>, forward: ForwardView, handle: H)
    requires
        forward.attempt < MAX_RETRIES,
    ensures
        ({
            let run = spec_run(idle, forward, seq![Outcome::Sent(handle)]);
            &&& run.verdict == Some(VerdictView::Done)
            &&& run.attempts == forward.attempt + 1
            &&& run.idle == idle.insert(forward.host, handle)
        }),
{
}

/// A body that can no longer be replayed ends a request at once, however
/// few attempts were made.
pub proof fn lemma_capped_is_terminal<H>(idle: Map<Seq<char>, H>, forward: ForwardView)
    ensures
        spec_finish(idle, forward, Outcome::<H>::Failed(Failure::Capped)).1 == VerdictView::GiveUp(
            spec_unable_to_forward(),
        ),
{
}

/// A failure while a tunnel to a pod was being opened.
#[derive(Debug)]
pub struct RuntimeError {
    cause: String,
}

impl Clone for RuntimeError {
    fn clone(&self) -> (copy: Self)
        ensures
            copy.spec_cause() == self.spec_cause(),
    {
        RuntimeError { cause: self.cause.clone() }
    }
}

impl RuntimeError {
    pub closed spec fn spec_cause(&self) -> Seq<char> {
        self.cause@
    }

    /// A failure with the given cause.
    pub fn from(msg: &str) -> (error: RuntimeError)
        ensures
            error.spec_cause() == msg@,
    {
        let cause = String::from_str(msg);
        RuntimeError { cause }
    }

    /// The cause of the failure.
    pub fn cause(&self) -> (cause: &str)
        ensures
            cause@ == self.spec_cause(),
    {
        self.cause.as_str()
    }

    /// The text of the failure.
    pub fn to_string(&self) -> (text: String)
        ensures
            text@ == "Port-forwarder failed in runtime: cause "@ + self.spec_cause(),
    {
        let mut text = String::from_str("Port-forwarder failed in runtime: cause ");
        text.append(self.cause.as_str());
        text
    }
}

/// The port of a pod to which the tunnel leads.
pub const POD_PORT: u16 = 8080;

/// What happened while a tunnel was being opened.
pub enum TunnelEvent {
    /// A tunnel is wanted; nothing has been done for it.
    Wanted,
    /// The pods could not be listed.
    ListFailed,
    /// The pods were listed: these are their names, in the order of the
    /// listing.
    Listed(Vec<String>),
    /// The port of the pod could not be forwarded.
    ForwardFailed,
    /// The port of the pod is being forwarded.
    Forwarded,
    /// The forwarder had no stream for the port.
    StreamMissing,
    /// The forwarder handed out the stream of the port.
    StreamTaken,
}

/// What is to be done next to open a tunnel.
pub enum TunnelStep {
    /// List the pods of the namespace that the selector finds.
    ListPods { namespace: String, selector: String },
    /// Forward the port of the pod.
    Forward { pod: String, port: u16 },
    /// Take the stream of the port from the forwarder.
    TakeStream { port: u16 },
    /// The stream is the tunnel.
    Ready,
    /// No tunnel can be had.
    Failed(RuntimeError),
}

/// What `TunnelStep` holds.
pub ghost enum TunnelStepView {
    ListPods { namespace: Seq<char>, selector: Seq<char> },
    Forward { pod: Seq<char>, port: u16 },
    TakeStream { port: u16 },
    Ready,
    Failed(Seq<char>),
}

impl View for TunnelStep {
    type V = TunnelStepView;

    open spec fn view(&self) -> TunnelStepView {
        match self {
            TunnelStep::ListPods { namespace, selector } => TunnelStepView::ListPods {
                namespace: namespace@,
                selector: selector@,
            },
            TunnelStep::Forward { pod, port } => TunnelStepView::Forward { pod: pod@, port: *port },
            TunnelStep::TakeStream { port } => TunnelStepView::TakeStream { port: *port },
            TunnelStep::Ready => TunnelStepView::Ready,
            TunnelStep::Failed(error) => TunnelStepView::Failed(error.spec_cause()),
        }
    }
}

/// The cause given when no pod runs the application.
pub open spec fn spec_no_pods_found(host: Seq<char>, target: Target) -> Seq<char> {
    "No pods found for host "@ + host + " - extract: application_name: "@
        + target.spec_application_name() + " and namespace "@ + target.spec_namespace()
}

/// The step that follows an event on the way to a tunnel to `target`. The
/// pods are found by the label of the application in its namespace; the
/// tunnel leads to the first pod of the listing.
pub open spec fn spec_get_stream(target: Target, host: Seq<char>, event: TunnelEvent) -> TunnelStepView {
    match event {
        TunnelEvent::Wanted => TunnelStepView::ListPods {
            namespace: target.spec_namespace(),
            selector: "app="@ + target.spec_application_name(),
        },
        TunnelEvent::ListFailed => TunnelStepView::Failed("Unable to list pods"@),
        TunnelEvent::Listed(pods) => if pods@.len() == 0 {
            TunnelStepView::Failed(spec_no_pods_found(host, target))
        } else {
            TunnelStepView::Forward { pod: pods@[0]@, port: POD_PORT }
        },
        TunnelEvent::ForwardFailed => TunnelStepView::Failed("Unable to obtain port-forwarder"@),
        TunnelEvent::Forwarded => TunnelStepView::TakeStream { port: POD_PORT },
        TunnelEvent::StreamMissing => TunnelStepView::Failed("Unable to obtain stream"@),
        TunnelEvent::StreamTaken => TunnelStepView::Ready,
    }
}

/// Says what is to be done next to open a tunnel to `target` for a request
/// to `host`, after `event`.
pub fn get_stream(target: &Target, host: &str, event: TunnelEvent) -> (step: TunnelStep)
    ensures
        step@ == spec_get_stream(*target, host@, event),
{
    match event {
        TunnelEvent::Wanted => TunnelStep::ListPods {
            namespace: String::from_str(target.namespace()),
            selector: target.label_selector(),
        },
        TunnelEvent::ListFailed => TunnelStep::Failed(RuntimeError::from("Unable to list pods")),
        TunnelEvent::Listed(pods) => {
            if pods.len() == 0 {
                let mut cause = String::from_str("No pods found for host ");
                cause.append(host);
                cause.append(" - extract: application_name: ");
                cause.append(target.application_name());
                cause.append(" and namespace ");
                cause.append(target.namespace());
                TunnelStep::Failed(RuntimeError::from(cause.as_str()))
            } else {
                TunnelStep::Forward { pod: pods[0].clone(), port: POD_PORT }
            }
        },
        TunnelEvent::ForwardFailed => TunnelStep::Failed(
            RuntimeError::from("Unable to obtain port-forwarder"),
        ),
        TunnelEvent::Forwarded => TunnelStep::TakeStream { port: POD_PORT },
        TunnelEvent::StreamMissing => TunnelStep::Failed(
            RuntimeError::from("Unable to obtain stream"),
        ),
        TunnelEvent::StreamTaken => TunnelStep::Ready,
    }
}

/// `std::str::from_utf8`: the text that the bytes encode, if they are valid
/// UTF-8.
#[verifier::external_body]
fn str_from_utf8(bytes: &[u8]) -> (text: Option<&str>)
    ensures
        text is Some <==> vstd::utf8::valid_utf8(bytes@),
        text matches Some(decoded) ==> vstd::utf8::encode_utf8(decoded@) == bytes@,
{
    std::str::from_utf8(bytes).ok()
}

/// Makes services that log what passes through them.
#[derive(Debug, Clone, Copy)]
pub struct LogLayer;

impl LogLayer {
    /// Wraps `inner` in a service that logs.
    pub fn layer<S>(&self, inner: S) -> (service: LogService<S>)
        ensures
            service.spec_inner() == inner,
    {
        LogService { inner }
    }
}

/// A service that logs the chunks of the bodies that pass through it, as far
/// as they are text, and hands its requests to the service inside.
#[derive(Debug)]
pub struct LogService<S> {
    inner: S,
}

impl<S: Clone> Clone for LogService<S> {
    /// A logging service around a clone of the service inside.
    fn clone(&self) -> (copy: Self)
        ensures
            cloned::<S>(self.spec_inner(), copy.spec_inner()),
    {
        LogService { inner: self.inner.clone() }
    }
}

/// The log line for a chunk of a request to `host`.
pub open spec fn spec_request_chunk_line(host: Seq<char>, text: Seq<char>) -> Seq<char> {
    "["@ + host + "] request body chunk "@ + text
}

/// The log line for a chunk of a response.
pub open spec fn spec_response_chunk_line(text: Seq<char>) -> Seq<char> {
    "resposne body chunk "@ + text
}

impl<S> LogService<S> {
    pub closed spec fn spec_inner(&self) -> S {
        self.inner
    }

    /// The service inside.
    pub fn inner(&self) -> (inner: &S)
        ensures
            *inner == self.spec_inner(),
    {
        &self.inner
    }

    /// The service inside, to call it.
    pub fn inner_mut(&mut self) -> (inner: &mut S)
        ensures
            *inner == old(self).spec_inner(),
            final(self).spec_inner() == *final(inner),
    {
        &mut self.inner
    }

    /// The service inside, on its own.
    pub fn into_inner(self) -> (inner: S)
        ensures
            inner == self.spec_inner(),
    {
        self.inner
    }

    /// The line to log for a chunk of the body of a request to `host`:
    /// the chunk as text. A chunk that is no text has no line.
    pub fn request_chunk_line(&self, host: &str, chunk: &[u8]) -> (line: Option<String>)
        ensures
            match line {
                Some(line) => vstd::utf8::valid_utf8(chunk@) && line@ == spec_request_chunk_line(
                    host@,
                    vstd::utf8::decode_utf8(chunk@),
                ),
                None => !vstd::utf8::valid_utf8(chunk@),
            },
    {
        match str_from_utf8(chunk) {
            Some(text) => {
                proof {
                    vstd::utf8::encode_utf8_decode_utf8(text@);
                }
                let mut line = String::from_str("[");
                line.append(host);
                line.append("] request body chunk ");
                line.append(text);
                Some(line)
            },
            None => None,
        }
    }

    /// The line to log for a chunk of the body of a response: the chunk as
    /// text. A chunk that is no text has no line.
    pub fn response_chunk_line(&self, chunk: &[u8]) -> (line: Option<String>)
        ensures
            match line {
                Some(line) => vstd::utf8::valid_utf8(chunk@) && line@ == spec_response_chunk_line(
                    vstd::utf8::decode_utf8(chunk@),
                ),
                None => !vstd::utf8::valid_utf8(chunk@),
            },
    {
        match str_from_utf8(chunk) {
            Some(text) => {
                proof {
                    vstd::utf8::encode_utf8_decode_utf8(text@);
                }
                let mut line = String::from_str("resposne body chunk ");
                line.append(text);
                Some(line)
            },
            None => None,
        }
    }
}

} // verus!
