//! Handing a request to a session container, and its answer back.

use vstd::prelude::*;
use vstd::utf8::encode_utf8;

use crate::backend::counted;
use crate::headers::{
    all_copied, firsts_copied, is_header_name, is_header_value, lemma_values_with_only,
    lemma_without_name, valid_header_name, valid_header_value, value_of, values_of, with_only,
    without_name, HeaderView, Headers,
};
use crate::number::{decimal, decimal_text};
use crate::runtime::{Protocol, ResolvedRuntime, ResolvedRuntimeView};
use crate::text::{agrees, ascii_lower, bytes_of, cat2, texts, trim_trailing, without_trailing};

verus! {

pub const RUNTIME_SESSION_ID_HEADER: &'static str = "x-amzn-bedrock-agentcore-runtime-session-id";

pub const RUNTIME_USER_ID_HEADER: &'static str = "x-amzn-bedrock-agentcore-runtime-user-id";

pub const MCP_SESSION_ID_HEADER: &'static str = "mcp-session-id";

pub const MCP_PROTOCOL_VERSION_HEADER: &'static str = "mcp-protocol-version";

/// The headers that carry a trace.
pub open spec fn trace_headers() -> Seq<Seq<char>> {
    seq!["x-amzn-trace-id"@, "traceparent"@, "tracestate"@, "baggage"@]
}

pub fn trace_header_names() -> (r: Vec<String>)
    ensures
        texts(r@) == trace_headers(),
{
    let r = vec![
        "x-amzn-trace-id".to_owned(),
        "traceparent".to_owned(),
        "tracestate".to_owned(),
        "baggage".to_owned(),
    ];
    proof {
        assert(texts(r@) =~= trace_headers());
    }
    r
}

/// Why a request could not be handed on.
#[derive(Debug)]
pub enum ProxyError {
    AgentCardNotConfigured,
    InvalidHeader(String),
    Unavailable(String),
    RuntimeClient(u16),
    RequestLimit,
    TimedOut,
    Cancelled,
    ResponseLimit,
    Response(String),
}

#[verifier::ext_equal]
pub enum ProxyErrorView {
    AgentCardNotConfigured,
    InvalidHeader(Seq<char>),
    Unavailable(Seq<char>),
    RuntimeClient(u16),
    RequestLimit,
    TimedOut,
    Cancelled,
    ResponseLimit,
    Response(Seq<char>),
}

impl View for ProxyError {
    type V = ProxyErrorView;

    open spec fn view(&self) -> ProxyErrorView {
        match self {
            ProxyError::AgentCardNotConfigured => ProxyErrorView::AgentCardNotConfigured,
            ProxyError::InvalidHeader(name) => ProxyErrorView::InvalidHeader(name@),
            ProxyError::Unavailable(message) => ProxyErrorView::Unavailable(message@),
            ProxyError::RuntimeClient(status) => ProxyErrorView::RuntimeClient(*status),
            ProxyError::RequestLimit => ProxyErrorView::RequestLimit,
            ProxyError::TimedOut => ProxyErrorView::TimedOut,
            ProxyError::Cancelled => ProxyErrorView::Cancelled,
            ProxyError::ResponseLimit => ProxyErrorView::ResponseLimit,
            ProxyError::Response(message) => ProxyErrorView::Response(message@),
        }
    }
}

impl ProxyErrorView {
    pub open spec fn text(self) -> Seq<char> {
        match self {
            ProxyErrorView::AgentCardNotConfigured => "runtime agent card is not configured"@,
            ProxyErrorView::InvalidHeader(name) => "runtime request contains invalid header "@
                + name,
            ProxyErrorView::Unavailable(message) => "runtime container is unavailable: "@ + message,
            ProxyErrorView::RuntimeClient(status) => "runtime container returned HTTP "@ + decimal(
                status as nat,
            ),
            ProxyErrorView::RequestLimit => "runtime request exceeded configured limits"@,
            ProxyErrorView::TimedOut => "runtime request timed out"@,
            ProxyErrorView::Cancelled => "runtime session was stopped"@,
            ProxyErrorView::ResponseLimit => "runtime response exceeded its configured limit"@,
            ProxyErrorView::Response(message) => "failed to construct runtime response: "@
                + message,
        }
    }
}

impl ProxyError {
    pub fn message(&self) -> (r: String)
        ensures
            r@ == self@.text(),
    {
        match self {
            ProxyError::AgentCardNotConfigured => "runtime agent card is not configured".to_owned(),
            ProxyError::InvalidHeader(name) => cat2(
                "runtime request contains invalid header ",
                name.as_str(),
            ),
            ProxyError::Unavailable(message) => cat2(
                "runtime container is unavailable: ",
                message.as_str(),
            ),
            ProxyError::RuntimeClient(status) => cat2(
                "runtime container returned HTTP ",
                decimal_text(*status as u64).as_str(),
            ),
            ProxyError::RequestLimit => "runtime request exceeded configured limits".to_owned(),
            ProxyError::TimedOut => "runtime request timed out".to_owned(),
            ProxyError::Cancelled => "runtime session was stopped".to_owned(),
            ProxyError::ResponseLimit => "runtime response exceeded its configured limit".to_owned(),
            ProxyError::Response(message) => cat2(
                "failed to construct runtime response: ",
                message.as_str(),
            ),
        }
    }
}

// What goes to the container.

/// What is asked of a container.
#[derive(Clone, Copy, Debug, PartialEq, Eq, Structural)]
pub enum ProxyTarget {
    Invocation,
    AgentCard,
}

/// The headers that every container gets, where a request has them.
pub open spec fn forwarded_headers() -> Seq<Seq<char>> {
    seq![
        "content-type"@,
        "accept"@,
        RUNTIME_USER_ID_HEADER@,
        MCP_PROTOCOL_VERSION_HEADER@,
    ] + trace_headers()
}

/// The first text of a list that does not name a header.
pub open spec fn first_invalid_name(names: Seq<Seq<char>>) -> Option<Seq<char>>
    decreases names.len(),
{
    if names.len() == 0 {
        None
    } else {
        match first_invalid_name(names.drop_last()) {
            Some(name) => Some(name),
            None => if is_header_name(names.last()) {
                None
            } else {
                Some(names.last())
            },
        }
    }
}

proof fn lemma_invalid_name_stays(names: Seq<Seq<char>>, n: int)
    requires
        0 <= n <= names.len(),
        first_invalid_name(names.take(n)) is Some,
    ensures
        first_invalid_name(names) == first_invalid_name(names.take(n)),
    decreases names.len() - n,
{
    if n < names.len() {
        assert(names.take(n + 1).drop_last() =~= names.take(n));
        lemma_invalid_name_stays(names, n + 1);
    } else {
        assert(names.take(n) =~= names);
    }
}

fn find_invalid_name(names: &Vec<String>) -> (r: Option<String>)
    ensures
        crate::text::opt_text(r) == first_invalid_name(texts(names@)),
{
    for i in 0..names.len()
        invariant
            first_invalid_name(texts(names@).take(i as int)) is None,
    {
        proof {
            assert(texts(names@).take(i as int + 1).drop_last() =~= texts(names@).take(i as int));
            assert(texts(names@).take(i as int + 1).last() == names@[i as int]@);
        }
        if !valid_header_name(names[i].as_str()) {
            proof {
                lemma_invalid_name_stays(texts(names@), i as int + 1);
            }
            return Some(names[i].clone());
        }
    }
    proof {
        assert(texts(names@).take(names@.len() as int) =~= texts(names@));
    }
    None
}

/// The first session of the other protocol that a request names, where the runtime speaks it.
pub open spec fn mcp_session_of(headers: Seq<HeaderView>, protocol: Protocol) -> Option<Seq<u8>> {
    if protocol == Protocol::Mcp {
        value_of(headers, MCP_SESSION_ID_HEADER@)
    } else {
        None
    }
}

/// The headers that a container gets: those of the request that every container gets or that the
/// runtime allows, and the session, which no header of the request can change.
pub open spec fn outbound_headers_of(
    headers: Seq<HeaderView>,
    protocol: Protocol,
    allowed: Seq<Seq<char>>,
    session_id: Seq<char>,
) -> Result<Seq<HeaderView>, ProxyErrorView> {
    match first_invalid_name(allowed) {
        Some(name) => Err(ProxyErrorView::InvalidHeader(name)),
        None => if !is_header_value(session_id) {
            Err(ProxyErrorView::InvalidHeader(RUNTIME_SESSION_ID_HEADER@))
        } else {
            let named = with_only(
                all_copied(headers, forwarded_headers()) + all_copied(headers, allowed),
                RUNTIME_SESSION_ID_HEADER@,
                encode_utf8(session_id),
            );
            match mcp_session_of(headers, protocol) {
                Some(value) => Ok(with_only(named, MCP_SESSION_ID_HEADER@, value)),
                None => Ok(named),
            }
        },
    }
}

fn mcp_session(headers: &Headers, protocol: Protocol) -> (r: Option<Vec<u8>>)
    ensures
        match r {
            Some(value) => mcp_session_of(headers@, protocol) == Some(value@),
            None => mcp_session_of(headers@, protocol) is None,
        },
{
    match protocol {
        Protocol::Mcp => headers.get(MCP_SESSION_ID_HEADER),
        _ => None,
    }
}

pub fn outbound_headers(
    headers: &Headers,
    protocol: Protocol,
    allowed: &Vec<String>,
    session_id: &str,
) -> (r: Result<Headers, ProxyError>)
    ensures
        agrees(r, outbound_headers_of(headers@, protocol, texts(allowed@), session_id@)),
{
    let mut fixed = vec![
        "content-type".to_owned(),
        "accept".to_owned(),
        RUNTIME_USER_ID_HEADER.to_owned(),
        MCP_PROTOCOL_VERSION_HEADER.to_owned(),
    ];
    let ghost first = fixed@;
    let mut traces = trace_header_names();
    let ghost second = traces@;
    fixed.append(&mut traces);
    proof {
        assert(texts(fixed@) =~= texts(first) + texts(second));
        assert(texts(fixed@) =~= forwarded_headers());
    }
    if let Some(name) = find_invalid_name(allowed) {
        return Err(ProxyError::InvalidHeader(name));
    }
    if !valid_header_value(session_id) {
        return Err(ProxyError::InvalidHeader(RUNTIME_SESSION_ID_HEADER.to_owned()));
    }
    let mut out = Headers::new();
    out.copy_all(headers, &fixed);
    out.copy_all(headers, allowed);
    proof {
        assert(out@ =~= all_copied(headers@, forwarded_headers()) + all_copied(
            headers@,
            texts(allowed@),
        ));
    }
    out.insert(RUNTIME_SESSION_ID_HEADER, bytes_of(session_id));
    if let Some(value) = mcp_session(headers, protocol) {
        out.insert(MCP_SESSION_ID_HEADER, value);
    }
    Ok(out)
}

/// A request as it goes to a container.
#[derive(Debug)]
pub struct ForwardPlan {
    pub method: String,
    pub url: String,
    pub headers: Headers,
    /// Whether the body of the request goes along.
    pub with_body: bool,
}

#[verifier::ext_equal]
pub struct ForwardPlanView {
    pub method: Seq<char>,
    pub url: Seq<char>,
    pub headers: Seq<HeaderView>,
    pub with_body: bool,
}

impl View for ForwardPlan {
    type V = ForwardPlanView;

    open spec fn view(&self) -> ForwardPlanView {
        ForwardPlanView {
            method: self.method@,
            url: self.url@,
            headers: self.headers@,
            with_body: self.with_body,
        }
    }
}

/// Where on a container something is asked.
pub open spec fn target_path_of(target: ProxyTarget, protocol: Protocol) -> Result<
    Seq<char>,
    ProxyErrorView,
> {
    match target {
        ProxyTarget::Invocation => Ok(protocol.spec_invocation_path()),
        ProxyTarget::AgentCard => match protocol.spec_agent_card_path() {
            Some(path) => Ok(path),
            None => Err(ProxyErrorView::AgentCardNotConfigured),
        },
    }
}

pub fn target_path(target: ProxyTarget, protocol: Protocol) -> (r: Result<String, ProxyError>)
    ensures
        agrees(r, target_path_of(target, protocol)),
{
    match target {
        ProxyTarget::Invocation => Ok(protocol.invocation_path().to_owned()),
        ProxyTarget::AgentCard => match protocol.agent_card_path() {
            Some(path) => Ok(path.to_owned()),
            None => Err(ProxyError::AgentCardNotConfigured),
        },
    }
}

pub open spec fn forward_plan_of(
    runtime: ResolvedRuntimeView,
    target: ProxyTarget,
    endpoint: Seq<char>,
    headers: Seq<HeaderView>,
    session_id: Seq<char>,
) -> Result<ForwardPlanView, ProxyErrorView> {
    match target_path_of(target, runtime.protocol) {
        Err(error) => Err(error),
        Ok(path) => match outbound_headers_of(
            headers,
            runtime.protocol,
            runtime.allowed_custom_headers,
            session_id,
        ) {
            Err(error) => Err(error),
            Ok(outbound) => Ok(
                ForwardPlanView {
                    method: if target == ProxyTarget::Invocation {
                        "POST"@
                    } else {
                        "GET"@
                    },
                    url: without_trailing(endpoint, '/') + path,
                    headers: outbound,
                    with_body: target == ProxyTarget::Invocation,
                },
            ),
        },
    }
}

/// Plans how a request goes to the container of a session.
pub fn forward_plan(
    runtime: &ResolvedRuntime,
    target: ProxyTarget,
    endpoint: &str,
    headers: &Headers,
    session_id: &str,
) -> (r: Result<ForwardPlan, ProxyError>)
    ensures
        agrees(r, forward_plan_of(runtime@, target, endpoint@, headers@, session_id@)),
{
    let path = match target_path(target, runtime.protocol) {
        Ok(path) => path,
        Err(error) => {
            return Err(error);
        },
    };
    let outbound = match outbound_headers(
        headers,
        runtime.protocol,
        &runtime.allowed_custom_headers,
        session_id,
    ) {
        Ok(outbound) => outbound,
        Err(error) => {
            return Err(error);
        },
    };
    let url = cat2(trim_trailing(endpoint, '/').as_str(), path.as_str());
    Ok(
        match target {
            ProxyTarget::Invocation => ForwardPlan {
                method: "POST".to_owned(),
                url,
                headers: outbound,
                with_body: true,
            },
            ProxyTarget::AgentCard => ForwardPlan {
                method: "GET".to_owned(),
                url,
                headers: outbound,
                with_body: false,
            },
        },
    )
}

// Bodies, piece by piece.

/// Why a body ends early.
#[derive(Debug)]
pub enum StreamFault {
    Interrupted(String),
    TimedOut(String),
    InvalidData(String),
    Broken(String),
}

#[verifier::ext_equal]
pub enum StreamFaultView {
    Interrupted(Seq<char>),
    TimedOut(Seq<char>),
    InvalidData(Seq<char>),
    Broken(Seq<char>),
}

impl View for StreamFault {
    type V = StreamFaultView;

    open spec fn view(&self) -> StreamFaultView {
        match self {
            StreamFault::Interrupted(m) => StreamFaultView::Interrupted(m@),
            StreamFault::TimedOut(m) => StreamFaultView::TimedOut(m@),
            StreamFault::InvalidData(m) => StreamFaultView::InvalidData(m@),
            StreamFault::Broken(m) => StreamFaultView::Broken(m@),
        }
    }
}

/// What came of waiting for the next piece of an answer.
#[derive(Debug)]
pub enum ReadEvent {
    /// The session was stopped.
    Cancelled,
    /// The time of the request is over.
    TimedOut,
    /// The body could not be read on.
    Failed(String),
    /// A piece of this many bytes.
    Chunk(usize),
    /// The body is complete.
    Ended,
}

#[verifier::ext_equal]
pub enum ReadEventView {
    Cancelled,
    TimedOut,
    Failed(Seq<char>),
    Chunk(usize),
    Ended,
}

impl View for ReadEvent {
    type V = ReadEventView;

    open spec fn view(&self) -> ReadEventView {
        match self {
            ReadEvent::Cancelled => ReadEventView::Cancelled,
            ReadEvent::TimedOut => ReadEventView::TimedOut,
            ReadEvent::Failed(m) => ReadEventView::Failed(m@),
            ReadEvent::Chunk(bytes) => ReadEventView::Chunk(*bytes),
            ReadEvent::Ended => ReadEventView::Ended,
        }
    }
}

/// What came of waiting for the next piece of a request. Only the stop of the session ends the
/// wait.
#[derive(Debug)]
pub enum RequestEvent {
    /// The session was stopped.
    Cancelled,
    /// The body could not be read on.
    Failed(String),
    /// A piece of this many bytes.
    Chunk(usize),
    /// The body is complete.
    Ended,
}

#[verifier::ext_equal]
pub enum RequestEventView {
    Cancelled,
    Failed(Seq<char>),
    Chunk(usize),
    Ended,
}

impl View for RequestEvent {
    type V = RequestEventView;

    open spec fn view(&self) -> RequestEventView {
        match self {
            RequestEvent::Cancelled => RequestEventView::Cancelled,
            RequestEvent::Failed(m) => RequestEventView::Failed(m@),
            RequestEvent::Chunk(bytes) => RequestEventView::Chunk(*bytes),
            RequestEvent::Ended => RequestEventView::Ended,
        }
    }
}

/// What happens to a body that is passed on.
#[derive(Debug)]
pub enum RelayStep {
    /// The piece is passed on, and the next one awaited.
    Pass,
    /// The body is complete.
    End,
    /// The body breaks off.
    Break(StreamFault),
}

#[verifier::ext_equal]
pub enum RelayStepView {
    Pass,
    End,
    Break(StreamFaultView),
}

impl View for RelayStep {
    type V = RelayStepView;

    open spec fn view(&self) -> RelayStepView {
        match self {
            RelayStep::Pass => RelayStepView::Pass,
            RelayStep::End => RelayStepView::End,
            RelayStep::Break(fault) => RelayStepView::Break(fault@),
        }
    }
}

impl RelayStep {
    /// Whether the body breaks off because it went over its limits.
    pub fn is_over_limit(&self) -> (r: bool)
        ensures
            r == (self@ matches RelayStepView::Break(StreamFaultView::InvalidData(_))),
    {
        match self {
            RelayStep::Break(StreamFault::InvalidData(_)) => true,
            _ => false,
        }
    }
}

/// Counts a body against the limits on its pieces and on the whole.
#[derive(Clone, Copy, Debug, PartialEq, Eq, Structural)]
pub struct BodyMeter {
    pub bytes: usize,
    pub max_chunk_bytes: usize,
    pub max_bytes: usize,
}

impl BodyMeter {
    pub fn new(max_chunk_bytes: usize, max_bytes: usize) -> (r: Self)
        ensures
            r == (BodyMeter { bytes: 0, max_chunk_bytes, max_bytes }),
    {
        BodyMeter { bytes: 0, max_chunk_bytes, max_bytes }
    }

    /// The meter behind another piece; the count stands still when it can grow no more.
    pub open spec fn with_chunk(self, chunk: usize) -> BodyMeter {
        BodyMeter { bytes: counted(self.bytes, chunk as nat), ..self }
    }

    /// Whether a piece is within both limits.
    pub open spec fn admits(self, chunk: usize) -> bool {
        chunk <= self.max_chunk_bytes && self.with_chunk(chunk).bytes <= self.max_bytes
    }

    fn count(&mut self, chunk: usize)
        ensures
            *final(self) == old(self).with_chunk(chunk),
    {
        let room: usize = usize::MAX - self.bytes;
        self.bytes = if chunk > room {
            usize::MAX
        } else {
            self.bytes + chunk
        };
    }

    /// A piece of a request is passed on while it is within the limits.
    pub open spec fn request_step_of(self, event: RequestEventView) -> (BodyMeter, RelayStepView) {
        match event {
            RequestEventView::Cancelled => (
                self,
                RelayStepView::Break(StreamFaultView::Interrupted("runtime session stopped"@)),
            ),
            RequestEventView::Failed(message) => (
                self,
                RelayStepView::Break(StreamFaultView::Broken(message)),
            ),
            RequestEventView::Ended => (self, RelayStepView::End),
            RequestEventView::Chunk(bytes) => (
                self.with_chunk(bytes),
                if self.admits(bytes) {
                    RelayStepView::Pass
                } else {
                    RelayStepView::Break(
                        StreamFaultView::InvalidData(
                            "runtime request exceeded configured limits"@,
                        ),
                    )
                },
            ),
        }
    }

    /// Decides on the next piece of a request.
    pub fn request_step(&mut self, event: RequestEvent) -> (r: RelayStep)
        ensures
            (*final(self), r@) == old(self).request_step_of(event@),
    {
        match event {
            RequestEvent::Cancelled => RelayStep::Break(
                StreamFault::Interrupted("runtime session stopped".to_owned()),
            ),
            RequestEvent::Failed(message) => RelayStep::Break(StreamFault::Broken(message)),
            RequestEvent::Ended => RelayStep::End,
            RequestEvent::Chunk(bytes) => {
                self.count(bytes);
                if bytes > self.max_chunk_bytes || self.bytes > self.max_bytes {
                    RelayStep::Break(
                        StreamFault::InvalidData(
                            "runtime request exceeded configured limits".to_owned(),
                        ),
                    )
                } else {
                    RelayStep::Pass
                }
            },
        }
    }

    pub open spec fn response_step_of(self, event: ReadEventView) -> (BodyMeter, RelayStepView) {
        match event {
            ReadEventView::Cancelled => (
                self,
                RelayStepView::Break(StreamFaultView::Interrupted("runtime session stopped"@)),
            ),
            ReadEventView::TimedOut => (
                self,
                RelayStepView::Break(StreamFaultView::TimedOut("runtime response timed out"@)),
            ),
            ReadEventView::Failed(message) => (
                self,
                RelayStepView::Break(StreamFaultView::Broken(message)),
            ),
            ReadEventView::Ended => (self, RelayStepView::End),
            ReadEventView::Chunk(bytes) => if bytes > self.max_chunk_bytes {
                (
                    self,
                    RelayStepView::Break(
                        StreamFaultView::InvalidData(
                            "runtime response chunk exceeded configured limit"@,
                        ),
                    ),
                )
            } else if !self.admits(bytes) {
                (
                    self.with_chunk(bytes),
                    RelayStepView::Break(
                        StreamFaultView::InvalidData(
                            "runtime response exceeded configured limit"@,
                        ),
                    ),
                )
            } else {
                (self.with_chunk(bytes), RelayStepView::Pass)
            },
        }
    }

    /// Decides on the next piece of an answer.
    pub fn response_step(&mut self, event: ReadEvent) -> (r: RelayStep)
        ensures
            (*final(self), r@) == old(self).response_step_of(event@),
    {
        match event {
            ReadEvent::Cancelled => RelayStep::Break(
                StreamFault::Interrupted("runtime session stopped".to_owned()),
            ),
            ReadEvent::TimedOut => RelayStep::Break(
                StreamFault::TimedOut("runtime response timed out".to_owned()),
            ),
            ReadEvent::Failed(message) => RelayStep::Break(StreamFault::Broken(message)),
            ReadEvent::Ended => RelayStep::End,
            ReadEvent::Chunk(bytes) => {
                if bytes > self.max_chunk_bytes {
                    return RelayStep::Break(
                        StreamFault::InvalidData(
                            "runtime response chunk exceeded configured limit".to_owned(),
                        ),
                    );
                }
                self.count(bytes);
                if self.bytes > self.max_bytes {
                    return RelayStep::Break(
                        StreamFault::InvalidData(
                            "runtime response exceeded configured limit".to_owned(),
                        ),
                    );
                }
                RelayStep::Pass
            },
        }
    }

    /// An answer that is not passed on is read to its end; `Ok` says whether the end was reached.
    pub open spec fn drain_step_of(self, event: ReadEventView) -> (
        BodyMeter,
        Result<bool, ProxyErrorView>,
    ) {
        match event {
            ReadEventView::Cancelled => (self, Err(ProxyErrorView::Cancelled)),
            ReadEventView::TimedOut => (self, Err(ProxyErrorView::TimedOut)),
            ReadEventView::Failed(message) => (self, Err(ProxyErrorView::Unavailable(message))),
            ReadEventView::Ended => (self, Ok(true)),
            ReadEventView::Chunk(bytes) => (
                self.with_chunk(bytes),
                if self.admits(bytes) {
                    Ok(false)
                } else {
                    Err(ProxyErrorView::ResponseLimit)
                },
            ),
        }
    }

    /// Decides on the next piece of an answer that is not passed on.
    pub fn drain_step(&mut self, event: ReadEvent) -> (r: Result<bool, ProxyError>)
        ensures
            *final(self) == old(self).drain_step_of(event@).0,
            agrees(r, old(self).drain_step_of(event@).1),
    {
        match event {
            ReadEvent::Cancelled => Err(ProxyError::Cancelled),
            ReadEvent::TimedOut => Err(ProxyError::TimedOut),
            ReadEvent::Failed(message) => Err(ProxyError::Unavailable(message)),
            ReadEvent::Ended => Ok(true),
            ReadEvent::Chunk(bytes) => {
                self.count(bytes);
                if bytes > self.max_chunk_bytes || self.bytes > self.max_bytes {
                    Err(ProxyError::ResponseLimit)
                } else {
                    Ok(false)
                }
            },
        }
    }
}

// What the container answered.

/// How sending a request to a container ended.
#[derive(Debug)]
pub enum SendEnd {
    /// The session was stopped first.
    Cancelled,
    /// The time of the request was over first.
    TimedOut,
    /// The container could not be asked.
    Failed(String),
    /// The container answered with this status.
    Answered(u16),
}

#[verifier::ext_equal]
pub enum SendEndView {
    Cancelled,
    TimedOut,
    Failed(Seq<char>),
    Answered(u16),
}

impl View for SendEnd {
    type V = SendEndView;

    open spec fn view(&self) -> SendEndView {
        match self {
            SendEnd::Cancelled => SendEndView::Cancelled,
            SendEnd::TimedOut => SendEndView::TimedOut,
            SendEnd::Failed(message) => SendEndView::Failed(message@),
            SendEnd::Answered(status) => SendEndView::Answered(*status),
        }
    }
}

/// What follows once a request was sent.
#[derive(Debug)]
pub enum ForwardStep {
    Fail(ProxyError),
    /// The container is given up before the error is reported.
    Invalidate(ProxyError),
    /// The answer is an error: its body is read to the end, and the error is reported.
    Drain(ProxyError),
    /// The answer is passed on.
    PassOn,
}

#[verifier::ext_equal]
pub enum ForwardStepView {
    Fail(ProxyErrorView),
    Invalidate(ProxyErrorView),
    Drain(ProxyErrorView),
    PassOn,
}

impl View for ForwardStep {
    type V = ForwardStepView;

    open spec fn view(&self) -> ForwardStepView {
        match self {
            ForwardStep::Fail(error) => ForwardStepView::Fail(error@),
            ForwardStep::Invalidate(error) => ForwardStepView::Invalidate(error@),
            ForwardStep::Drain(error) => ForwardStepView::Drain(error@),
            ForwardStep::PassOn => ForwardStepView::PassOn,
        }
    }
}

/// A request that went over its limits is the caller's fault, whatever came of sending it. Only a
/// container that could not be asked is given up.
pub open spec fn forward_step_of(end: SendEndView, over_limit: bool) -> ForwardStepView {
    match end {
        SendEndView::Cancelled => ForwardStepView::Fail(ProxyErrorView::Cancelled),
        SendEndView::TimedOut => ForwardStepView::Fail(ProxyErrorView::TimedOut),
        SendEndView::Failed(message) => if over_limit {
            ForwardStepView::Fail(ProxyErrorView::RequestLimit)
        } else {
            ForwardStepView::Invalidate(ProxyErrorView::Unavailable(message))
        },
        SendEndView::Answered(status) => if over_limit {
            ForwardStepView::Fail(ProxyErrorView::RequestLimit)
        } else if 200 <= status < 300 {
            ForwardStepView::PassOn
        } else {
            ForwardStepView::Drain(ProxyErrorView::RuntimeClient(status))
        },
    }
}

pub fn forward_step(end: SendEnd, over_limit: bool) -> (r: ForwardStep)
    ensures
        r@ == forward_step_of(end@, over_limit),
{
    match end {
        SendEnd::Cancelled => ForwardStep::Fail(ProxyError::Cancelled),
        SendEnd::TimedOut => ForwardStep::Fail(ProxyError::TimedOut),
        SendEnd::Failed(message) => {
            if over_limit {
                ForwardStep::Fail(ProxyError::RequestLimit)
            } else {
                ForwardStep::Invalidate(ProxyError::Unavailable(message))
            }
        },
        SendEnd::Answered(status) => {
            if over_limit {
                ForwardStep::Fail(ProxyError::RequestLimit)
            } else if 200 <= status && status < 300 {
                ForwardStep::PassOn
            } else {
                ForwardStep::Drain(ProxyError::RuntimeClient(status))
            }
        },
    }
}

/// The session of the other protocol that goes back: that of the answer, or else that of the
/// request.
pub open spec fn answered_mcp_session(
    request: Seq<HeaderView>,
    answer: Seq<HeaderView>,
    protocol: Protocol,
) -> Option<Seq<u8>> {
    match value_of(answer, MCP_SESSION_ID_HEADER@) {
        Some(value) => Some(value),
        None => mcp_session_of(request, protocol),
    }
}

/// The headers of an answer that is passed on.
pub open spec fn inbound_headers_of(
    request: Seq<HeaderView>,
    answer: Seq<HeaderView>,
    protocol: Protocol,
    allowed: Seq<Seq<char>>,
    session_id: Seq<char>,
) -> Seq<HeaderView> {
    let content_type = match value_of(answer, "content-type"@) {
        Some(value) => value,
        None => encode_utf8("application/octet-stream"@),
    };
    let start = seq![
        HeaderView { name: ascii_lower("content-type"@), value: content_type },
        HeaderView {
            name: ascii_lower(RUNTIME_SESSION_ID_HEADER@),
            value: encode_utf8(session_id),
        },
    ];
    let named = match answered_mcp_session(request, answer, protocol) {
        Some(value) => start.push(
            HeaderView { name: ascii_lower(MCP_SESSION_ID_HEADER@), value },
        ),
        None => start,
    };
    named + firsts_copied(answer, trace_headers()) + firsts_copied(answer, allowed)
}

pub fn inbound_headers(
    request: &Headers,
    answer: &Headers,
    protocol: Protocol,
    allowed: &Vec<String>,
    session_id: &str,
) -> (r: Headers)
    ensures
        r@ == inbound_headers_of(request@, answer@, protocol, texts(allowed@), session_id@),
{
    let mut out = Headers::new();
    let content_type = match answer.get("content-type") {
        Some(value) => value,
        None => bytes_of("application/octet-stream"),
    };
    out.append("content-type", content_type);
    out.append(RUNTIME_SESSION_ID_HEADER, bytes_of(session_id));
    let session = match answer.get(MCP_SESSION_ID_HEADER) {
        Some(value) => Some(value),
        None => mcp_session(request, protocol),
    };
    if let Some(value) = session {
        out.append(MCP_SESSION_ID_HEADER, value);
    }
    let traces = trace_header_names();
    out.copy_firsts(answer, &traces);
    out.copy_firsts(answer, allowed);
    proof {
        assert(out@ =~= inbound_headers_of(
            request@,
            answer@,
            protocol,
            texts(allowed@),
            session_id@,
        ));
    }
    out
}

// What holds of every request.

/// Whether a name is, without regard to ASCII case, one of a list.
pub open spec fn lists_name(names: Seq<Seq<char>>, name: Seq<char>) -> bool {
    exists|i: int| 0 <= i < names.len() && ascii_lower(#[trigger] names[i]) == name
}

proof fn lemma_copied_names(source: Seq<HeaderView>, names: Seq<Seq<char>>)
    ensures
        forall|i: int|
            0 <= i < all_copied(source, names).len() ==> lists_name(
                names,
                (#[trigger] all_copied(source, names)[i]).name,
            ),
    decreases names.len(),
{
    if names.len() > 0 {
        let rest = names.drop_last();
        lemma_copied_names(source, rest);
        assert forall|i: int| 0 <= i < all_copied(source, names).len() implies lists_name(
            names,
            (#[trigger] all_copied(source, names)[i]).name,
        ) by {
            let before = all_copied(source, rest);
            if i < before.len() {
                assert(all_copied(source, names)[i] == before[i]);
                let k = choose|k: int|
                    0 <= k < rest.len() && ascii_lower(#[trigger] rest[k]) == before[i].name;
                assert(names[k] == rest[k]);
            } else {
                assert(names[names.len() - 1] == names.last());
            }
        }
    }
}

/// A container sees no header of a request but those that every container gets, those that its
/// runtime allows, and the sessions.
pub proof fn law_only_listed_headers_are_forwarded(
    headers: Seq<HeaderView>,
    protocol: Protocol,
    allowed: Seq<Seq<char>>,
    session_id: Seq<char>,
    i: int,
)
    requires
        outbound_headers_of(headers, protocol, allowed, session_id) is Ok,
        0 <= i < outbound_headers_of(headers, protocol, allowed, session_id)->Ok_0.len(),
    ensures
        ({
            let name = outbound_headers_of(headers, protocol, allowed, session_id)->Ok_0[i].name;
            ||| lists_name(forwarded_headers(), name)
            ||| lists_name(allowed, name)
            ||| name == ascii_lower(RUNTIME_SESSION_ID_HEADER@)
            ||| name == ascii_lower(MCP_SESSION_ID_HEADER@) && protocol == Protocol::Mcp
        }),
{
    let fixed = all_copied(headers, forwarded_headers());
    let custom = all_copied(headers, allowed);
    lemma_copied_names(headers, forwarded_headers());
    lemma_copied_names(headers, allowed);
    let base = fixed + custom;
    let session = ascii_lower(RUNTIME_SESSION_ID_HEADER@);
    let named = with_only(base, RUNTIME_SESSION_ID_HEADER@, encode_utf8(session_id));
    lemma_without_name(base, session);
    assert forall|k: int| 0 <= k < named.len() implies {
        ||| lists_name(forwarded_headers(), (#[trigger] named[k]).name)
        ||| lists_name(allowed, named[k].name)
        ||| named[k].name == session
    } by {
        let kept = without_name(base, session);
        if k < kept.len() {
            assert(named[k] == kept[k]);
            let at = choose|at: int| 0 <= at < base.len() && base[at] == kept[k];
            if at < fixed.len() {
                assert(base[at] == fixed[at]);
            } else {
                assert(base[at] == custom[at - fixed.len()]);
            }
        }
    }
    match mcp_session_of(headers, protocol) {
        Some(value) => {
            let mcp = ascii_lower(MCP_SESSION_ID_HEADER@);
            lemma_without_name(named, mcp);
            let kept = without_name(named, mcp);
            let out = with_only(named, MCP_SESSION_ID_HEADER@, value);
            if i < kept.len() {
                assert(out[i] == kept[i]);
                let at = choose|at: int| 0 <= at < named.len() && named[at] == kept[i];
                assert(named[at] == kept[i]);
            }
        },
        None => {},
    }
}

/// The session that a container sees is the one that the gateway resolved, once, whatever the
/// request says.
pub proof fn law_the_gateway_names_the_session(
    headers: Seq<HeaderView>,
    protocol: Protocol,
    allowed: Seq<Seq<char>>,
    session_id: Seq<char>,
)
    requires
        outbound_headers_of(headers, protocol, allowed, session_id) is Ok,
    ensures
        values_of(
            outbound_headers_of(headers, protocol, allowed, session_id)->Ok_0,
            RUNTIME_SESSION_ID_HEADER@,
        ) == seq![encode_utf8(session_id)],
{
    reveal_strlit("x-amzn-bedrock-agentcore-runtime-session-id");
    reveal_strlit("mcp-session-id");
    assert(ascii_lower(RUNTIME_SESSION_ID_HEADER@).len() != ascii_lower(
        MCP_SESSION_ID_HEADER@,
    ).len());
    let base = all_copied(headers, forwarded_headers()) + all_copied(headers, allowed);
    let named = with_only(base, RUNTIME_SESSION_ID_HEADER@, encode_utf8(session_id));
    lemma_values_with_only(
        base,
        RUNTIME_SESSION_ID_HEADER@,
        encode_utf8(session_id),
        RUNTIME_SESSION_ID_HEADER@,
    );
    if let Some(value) = mcp_session_of(headers, protocol) {
        lemma_values_with_only(named, MCP_SESSION_ID_HEADER@, value, RUNTIME_SESSION_ID_HEADER@);
    }
}

/// How many bytes of a request are passed on, when these are the events.
pub open spec fn request_bytes(meter: BodyMeter, events: Seq<RequestEventView>) -> nat
    decreases events.len(),
{
    if events.len() == 0 {
        0
    } else {
        match (events[0], meter.request_step_of(events[0]).1) {
            (RequestEventView::Chunk(bytes), RelayStepView::Pass) => bytes as nat + request_bytes(
                meter.with_chunk(bytes),
                events.drop_first(),
            ),
            _ => 0,
        }
    }
}

/// How many bytes of an answer are passed on, when these are the events.
pub open spec fn response_bytes(meter: BodyMeter, events: Seq<ReadEventView>) -> nat
    decreases events.len(),
{
    if events.len() == 0 {
        0
    } else {
        match (events[0], meter.response_step_of(events[0]).1) {
            (ReadEventView::Chunk(bytes), RelayStepView::Pass) => bytes as nat + response_bytes(
                meter.with_chunk(bytes),
                events.drop_first(),
            ),
            _ => 0,
        }
    }
}

/// A container never gets more of a request than the limit, whatever arrives.
pub proof fn law_requests_are_bounded(meter: BodyMeter, events: Seq<RequestEventView>)
    requires
        meter.bytes <= meter.max_bytes < usize::MAX,
    ensures
        meter.bytes + request_bytes(meter, events) <= meter.max_bytes,
    decreases events.len(),
{
    if events.len() > 0 {
        if let RequestEventView::Chunk(bytes) = events[0] {
            if meter.admits(bytes) {
                law_requests_are_bounded(meter.with_chunk(bytes), events.drop_first());
            }
        }
    }
}

/// A caller never gets more of an answer than the limit, whatever the container sends.
pub proof fn law_responses_are_bounded(meter: BodyMeter, events: Seq<ReadEventView>)
    requires
        meter.bytes <= meter.max_bytes < usize::MAX,
    ensures
        meter.bytes + response_bytes(meter, events) <= meter.max_bytes,
    decreases events.len(),
{
    if events.len() > 0 {
        if let ReadEventView::Chunk(bytes) = events[0] {
            if meter.admits(bytes) {
                law_responses_are_bounded(meter.with_chunk(bytes), events.drop_first());
            }
        }
    }
}

/// A body within its limits is passed on whole.
pub proof fn law_small_answers_pass(meter: BodyMeter, chunks: Seq<usize>)
    requires
        meter.bytes + total(chunks) <= meter.max_bytes,
        forall|i: int| 0 <= i < chunks.len() ==> #[trigger] chunks[i] <= meter.max_chunk_bytes,
    ensures
        response_bytes(meter, chunks.map_values(|n: usize| ReadEventView::Chunk(n))) == total(
            chunks,
        ),
    decreases chunks.len(),
{
    let events = chunks.map_values(|n: usize| ReadEventView::Chunk(n));
    if chunks.len() > 0 {
        assert(events[0] == ReadEventView::Chunk(chunks[0]));
        assert(events.drop_first() =~= chunks.drop_first().map_values(
            |n: usize| ReadEventView::Chunk(n),
        ));
        assert forall|i: int| 0 <= i < chunks.drop_first().len() implies (
        #[trigger] chunks.drop_first()[i]) <= meter.max_chunk_bytes by {
            assert(chunks.drop_first()[i] == chunks[i + 1]);
        }
        law_small_answers_pass(meter.with_chunk(chunks[0]), chunks.drop_first());
    }
}

/// The size of a body that comes in these pieces.
pub open spec fn total(chunks: Seq<usize>) -> nat
    decreases chunks.len(),
{
    if chunks.len() == 0 {
        0
    } else {
        chunks[0] as nat + total(chunks.drop_first())
    }
}

/// Only a container that could not be asked is given up, and a request that went over its limits
/// is refused for that.
pub proof fn law_only_unreachable_containers_are_given_up(end: SendEndView, over_limit: bool)
    ensures
        forward_step_of(end, over_limit) is Invalidate <==> end is Failed && !over_limit,
        over_limit && (end is Failed || end is Answered) ==> forward_step_of(end, over_limit)
            == ForwardStepView::Fail(ProxyErrorView::RequestLimit),
        forward_step_of(end, over_limit) is PassOn <==> !over_limit && (end matches
            SendEndView::Answered(status) && 200 <= status < 300),
{
}

} // verus!
