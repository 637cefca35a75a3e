//! The firehose subscription: the length-framed envelope decoder (a typed
//! header followed by a DAG-CBOR body) and the session state machine that
//! owns one logical connection — resumable URL building, per-frame
//! processing, checkpointing, failure classification and shutdown.

use vstd::prelude::*;
use vstd::slice::{slice_subrange, slice_to_vec};

use crate::cbor::{Cbor, CborModel, dict_get, entries_get, spec_parse, spec_parse_all,
    parse_all, parse_item};
use crate::lexicon::subscribe_repos::{EventParseError, EventParseErrorModel, OutputSchema,
    RepoEventModel, event_of, opt_text, req_text};
use crate::strutil::str_eq;

verus! {

/// Events are checkpointed whenever a commit's sequence number is a
/// multiple of this interval.
pub const CHECKPOINT_INTERVAL: u64 = 20;

/// Seconds waited before reconnecting after a recoverable failure.
pub const RETRY_DELAY_SECS: u64 = 5;

/// A failure classified by whether the session can heal on its own.
#[derive(Debug, Clone, PartialEq)]
pub enum SubscriptionError {
    /// Needs operator intervention: the session stops and signals shutdown.
    Fatal(String),
    /// Transient: the session backs off and reconnects from the last
    /// checkpoint.
    Recoverable(String),
}

impl SubscriptionError {
    pub fn fatal(message: String) -> (r: Self)
        ensures
            r == SubscriptionError::Fatal(message),
    {
        SubscriptionError::Fatal(message)
    }

    pub fn recoverable(message: String) -> (r: Self)
        ensures
            r == SubscriptionError::Recoverable(message),
    {
        SubscriptionError::Recoverable(message)
    }
}

/// The consumer invoked once per decoded event, strictly in arrival order.
pub trait FirehoseSubscriptionHandler {
    fn handle_event(&mut self, event: OutputSchema) -> Result<(), String>;
}

/// A stream-level error body: `{error, message?}`.
#[derive(Debug, Clone, PartialEq)]
pub struct Error {
    pub error_type: String,
    pub message: Option<String>,
}

/// Model of an [`Error`].
pub struct ErrorModel {
    pub error_type: Seq<char>,
    pub message: Option<Seq<char>>,
}

impl View for Error {
    type V = ErrorModel;

    open spec fn view(&self) -> ErrorModel {
        ErrorModel {
            error_type: self.error_type@,
            message: match self.message {
                Some(m) => Some(m@),
                None => None,
            },
        }
    }
}

/// A frame as the stream hands it over: a decoded message or a
/// stream-level error.
pub enum SubscriptionMessage<T> {
    Message(T),
    Error(Error),
}

/// The envelope header's operation field.
#[derive(Debug, Clone, Copy, PartialEq, Eq, Structural)]
pub enum HeaderOperation {
    Success,
    Error,
}

/// The header read out of the envelope's first value: `op` must be the
/// integer 1 (ok) or -1 (error), and `t` names the body's kind.
pub open spec fn header_of(v: CborModel) -> Option<(HeaderOperation, Seq<char>)> {
    match v {
        CborModel::Dict(ems) => {
            let op = match dict_get(ems, "op"@) {
                Some(CborModel::UInt(1u64)) => Some(HeaderOperation::Success),
                Some(CborModel::NInt(0u64)) => Some(HeaderOperation::Error),
                _ => None,
            };
            match (op, req_text(ems, "t"@)) {
                (Some(o), Some(t)) => Some((o, t)),
                _ => None,
            }
        },
        _ => None,
    }
}

/// The error body read out of an `op = -1` envelope.
pub open spec fn error_body_of(body: Seq<u8>) -> Option<ErrorModel> {
    match spec_parse_all(body) {
        Some(CborModel::Dict(ems)) => {
            if req_text(ems, "error"@) is Some && opt_text(ems, "message"@) is Some {
                Some(
                    ErrorModel {
                        error_type: req_text(ems, "error"@)->Some_0,
                        message: opt_text(ems, "message"@)->Some_0,
                    },
                )
            } else {
                None
            }
        },
        _ => None,
    }
}

/// Why a frame failed to decode into an event.
#[derive(Debug)]
pub enum MessageError {
    /// The envelope does not start with a well-formed header.
    InvalidHeader,
    /// The header is valid but nothing follows it.
    EmptyBody,
    /// The typed body could not be decoded.
    InvalidEvent(EventParseError),
    /// An `op = -1` envelope whose error body could not be decoded.
    InvalidErrorBody,
    /// The service reported a stream-level error.
    StreamError(Error),
}

/// Model of a [`MessageError`].
pub enum MessageErrorModel {
    InvalidHeader,
    EmptyBody,
    InvalidEvent(EventParseErrorModel),
    InvalidErrorBody,
    StreamError(ErrorModel),
}

impl View for MessageError {
    type V = MessageErrorModel;

    open spec fn view(&self) -> MessageErrorModel {
        match self {
            MessageError::InvalidHeader => MessageErrorModel::InvalidHeader,
            MessageError::EmptyBody => MessageErrorModel::EmptyBody,
            MessageError::InvalidEvent(e) => MessageErrorModel::InvalidEvent(e@),
            MessageError::InvalidErrorBody => MessageErrorModel::InvalidErrorBody,
            MessageError::StreamError(e) => MessageErrorModel::StreamError(e@),
        }
    }
}

/// A one-line description of the failure; for a stream-level error it ends
/// in the reported error type.
pub open spec fn describe_of(me: MessageErrorModel) -> Seq<char> {
    match me {
        MessageErrorModel::InvalidHeader => "invalid envelope header"@,
        MessageErrorModel::EmptyBody => "message has no body"@,
        MessageErrorModel::InvalidEvent(EventParseErrorModel::UnknownTag(t)) => "unknown tag - "@
            + t,
        MessageErrorModel::InvalidEvent(EventParseErrorModel::InvalidBody) => {
            "invalid event body"@
        },
        MessageErrorModel::InvalidErrorBody => "invalid error body"@,
        MessageErrorModel::StreamError(e) => "error received from subscription - "@
            + e.error_type,
    }
}

impl MessageError {
    /// Render the failure for a log line.
    pub fn describe(&self) -> (r: String)
        ensures
            r@ == describe_of(self@),
    {
        match self {
            MessageError::InvalidHeader => String::from_str("invalid envelope header"),
            MessageError::EmptyBody => String::from_str("message has no body"),
            MessageError::InvalidEvent(EventParseError::UnknownTag(t)) => {
                let mut out = String::from_str("unknown tag - ");
                out.append(t.as_str());
                out
            },
            MessageError::InvalidEvent(EventParseError::InvalidBody) => {
                String::from_str("invalid event body")
            },
            MessageError::InvalidErrorBody => String::from_str("invalid error body"),
            MessageError::StreamError(e) => {
                let mut out = String::from_str("error received from subscription - ");
                out.append(e.error_type.as_str());
                out
            },
        }
    }
}

/// What one inbound binary frame means: the header is decoded first,
/// trailing bytes after it are the body; an empty body is rejected even
/// under a valid header; an `op = -1` body surfaces the service's error;
/// an `op = 1` body is dispatched on the header's type tag.
pub open spec fn message_of(data: Seq<u8>) -> Result<RepoEventModel, MessageErrorModel> {
    match spec_parse(data) {
        None => Err(MessageErrorModel::InvalidHeader),
        Some((hv, c)) => match header_of(hv) {
            None => Err(MessageErrorModel::InvalidHeader),
            Some((op, tag)) => {
                let body = data.skip(c);
                if body.len() == 0 {
                    Err(MessageErrorModel::EmptyBody)
                } else {
                    match op {
                        HeaderOperation::Success => match event_of(tag, body) {
                            Ok(e) => Ok(e),
                            Err(pe) => Err(MessageErrorModel::InvalidEvent(pe)),
                        },
                        HeaderOperation::Error => match error_body_of(body) {
                            Some(em) => Err(MessageErrorModel::StreamError(em)),
                            None => Err(MessageErrorModel::InvalidErrorBody),
                        },
                    }
                }
            },
        },
    }
}

/// An envelope reporting a stream-level error always surfaces as a
/// `StreamError` carrying exactly the decoded error type — and its
/// description ends in that error type — or, when the error body itself is
/// malformed, as `InvalidErrorBody`; never as an event.
pub proof fn lemma_error_envelope(data: Seq<u8>)
    requires
        spec_parse(data) is Some,
        header_of(spec_parse(data)->Some_0.0) matches Some((op, tag)) && op is Error,
        data.skip(spec_parse(data)->Some_0.1).len() > 0,
    ensures
        message_of(data) is Err,
        ({
            let body = data.skip(spec_parse(data)->Some_0.1);
            match error_body_of(body) {
                Some(em) => {
                    &&& message_of(data) == Err::<RepoEventModel, _>(
                        MessageErrorModel::StreamError(em),
                    )
                    &&& ({
                        let d = describe_of(MessageErrorModel::StreamError(em));
                        d.subrange(d.len() - em.error_type.len(), d.len() as int)
                            == em.error_type
                    })
                },
                None => message_of(data) == Err::<RepoEventModel, _>(
                    MessageErrorModel::InvalidErrorBody,
                ),
            }
        }),
{
    let body = data.skip(spec_parse(data)->Some_0.1);
    match error_body_of(body) {
        Some(em) => {
            let d = describe_of(MessageErrorModel::StreamError(em));
            assert(d.subrange(d.len() - em.error_type.len(), d.len() as int) =~= em.error_type);
        },
        None => {},
    }
}

/// An envelope acknowledged as ok whose tag is not a known kind is an
/// error naming that very tag.
pub proof fn lemma_unknown_tag(data: Seq<u8>)
    requires
        spec_parse(data) is Some,
        header_of(spec_parse(data)->Some_0.0) matches Some((op, tag)) && op is Success && !(tag
            == "#commit"@ || tag == "#identity"@ || tag == "#account"@ || tag == "#handle"@ || tag
            == "#migrate"@ || tag == "#tombstone"@ || tag == "#info"@),
        data.skip(spec_parse(data)->Some_0.1).len() > 0,
    ensures
        message_of(data) == Err::<RepoEventModel, _>(
            MessageErrorModel::InvalidEvent(
                EventParseErrorModel::UnknownTag(header_of(spec_parse(data)->Some_0.0)->Some_0.1),
            ),
        ),
{
}

/// An envelope whose body is empty after the header is rejected, however
/// valid the header is.
pub proof fn lemma_empty_body(data: Seq<u8>)
    requires
        spec_parse(data) is Some,
        header_of(spec_parse(data)->Some_0.0) is Some,
        data.skip(spec_parse(data)->Some_0.1).len() == 0,
    ensures
        message_of(data) == Err::<RepoEventModel, MessageErrorModel>(MessageErrorModel::EmptyBody),
{
}

/// Read the envelope header out of its decoded first value.
fn header_value(v: &Cbor) -> (r: Option<(HeaderOperation, String)>)
    ensures
        ({
            let sp = header_of(v@);
            match (r, sp) {
                (Some((op, t)), Some((sop, st))) => op == sop && t@ == st,
                (None, None) => true,
                _ => false,
            }
        }),
{
    match v {
        Cbor::Dict(entries) => {
            let op = match entries_get(entries, "op") {
                Some(Cbor::UInt(n)) => if *n == 1 {
                    Some(HeaderOperation::Success)
                } else {
                    None
                },
                Some(Cbor::NInt(n)) => if *n == 0 {
                    Some(HeaderOperation::Error)
                } else {
                    None
                },
                _ => None,
            };
            match (op, entries_get(entries, "t")) {
                (Some(op), Some(Cbor::Text(t))) => Some((op, String::from_str(t.as_str()))),
                _ => None,
            }
        },
        _ => None,
    }
}

/// Read a stream-level error body.
fn parse_error_body(body: &Vec<u8>) -> (r: Option<Error>)
    ensures
        ({
            let sp = error_body_of(body@);
            match (r, sp) {
                (Some(e), Some(se)) => e@ == se,
                (None, None) => true,
                _ => false,
            }
        }),
{
    match parse_all(body) {
        Some(Cbor::Dict(entries)) => {
            let error_type = match entries_get(&entries, "error") {
                Some(Cbor::Text(t)) => Some(String::from_str(t.as_str())),
                _ => None,
            };
            let message = match entries_get(&entries, "message") {
                None => Some(None),
                Some(Cbor::Null) => Some(None),
                Some(Cbor::Text(t)) => Some(Some(String::from_str(t.as_str()))),
                Some(_) => None,
            };
            match (error_type, message) {
                (Some(error_type), Some(message)) => Some(Error { error_type, message }),
                _ => None,
            }
        },
        _ => None,
    }
}

/// The connection phases of a session.
#[derive(Debug, Clone, Copy, PartialEq, Eq, Structural)]
pub enum SessionPhase {
    Disconnected,
    Connecting,
    Streaming,
    Stopped,
}

/// What the driving loop must do next.
#[derive(Debug, Clone, PartialEq)]
pub enum SessionDirective {
    /// Keep reading frames.
    Continue,
    /// Persist the cursor, then keep reading frames.
    Checkpoint(u64),
    /// Wait the given number of seconds, then reconnect.
    Backoff(u64),
    /// The session is over; shut the process down.
    Terminate,
    /// The session is over after an orderly stop request.
    Exit,
}

/// Name for what the endpoint-URL builder computes: `None` exactly when
/// the configured service is not a usable absolute URL, else the service
/// URL extended with the subscription path and, when present, the cursor
/// query parameter.
pub uninterp spec fn subscription_url_of(service: Seq<char>, cursor: Option<u64>) -> Option<
    Seq<char>,
>;

/// Relies on `url::Url::parse`, `path_segments_mut`, `query_pairs_mut` and
/// `Url::to_string`: builds the resumable endpoint URL, failing exactly on
/// an unusable base URL.
#[verifier::external_body]
fn build_subscription_url(service: &str, cursor: Option<u64>) -> (r: Option<String>)
    ensures
        (match r {
            Some(u) => Some(u@),
            None => None,
        }) == subscription_url_of(service@, cursor),
{
    let mut url = url::Url::parse(service).ok()?;
    url.path_segments_mut().ok()?.push("xrpc").push("com.atproto.sync.subscribeRepos");
    if let Some(c) = cursor {
        url.query_pairs_mut().append_pair("cursor", &c.to_string());
    }
    Some(url.to_string())
}

/// Which stage of the session a failure came from.
#[derive(Debug, Clone, Copy, PartialEq, Eq, Structural)]
pub enum FailureStage {
    /// Building the endpoint URL from the configured service.
    UrlConstruction,
    /// The initial cursor load at session start.
    CursorLoad,
    /// Opening the streaming connection.
    Connect,
    /// Receiving a frame from the open stream.
    Receive,
    /// Decoding a received frame.
    Decode,
    /// The event handler refusing an event.
    Handler,
    /// Persisting a checkpoint.
    CursorWrite,
}

/// The classification rule: failures before or at connect time cannot be
/// healed by retrying and are fatal; everything on an established stream
/// is recoverable.
pub open spec fn is_fatal_stage(stage: FailureStage) -> bool {
    match stage {
        FailureStage::UrlConstruction => true,
        FailureStage::CursorLoad => true,
        FailureStage::Connect => true,
        FailureStage::Receive => false,
        FailureStage::Decode => false,
        FailureStage::Handler => false,
        FailureStage::CursorWrite => false,
    }
}

/// Classify a failure by its stage.
pub fn classify(stage: FailureStage, message: String) -> (r: SubscriptionError)
    ensures
        is_fatal_stage(stage) ==> r == SubscriptionError::Fatal(message),
        !is_fatal_stage(stage) ==> r == SubscriptionError::Recoverable(message),
{
    let fatal = match stage {
        FailureStage::UrlConstruction => true,
        FailureStage::CursorLoad => true,
        FailureStage::Connect => true,
        FailureStage::Receive => false,
        FailureStage::Decode => false,
        FailureStage::Handler => false,
        FailureStage::CursorWrite => false,
    };
    if fatal {
        SubscriptionError::Fatal(message)
    } else {
        SubscriptionError::Recoverable(message)
    }
}

/// How a failure moves the session on: a fatal error stops it for good and
/// signals shutdown; a recoverable one returns it to `Disconnected` for a
/// delayed reconnect and leaves the shutdown signal alone.
pub open spec fn failure_step(signaled: bool, fatal: bool) -> (SessionPhase, bool, SessionDirective) {
    if fatal {
        (SessionPhase::Stopped, true, SessionDirective::Terminate)
    } else {
        (SessionPhase::Disconnected, signaled, SessionDirective::Backoff(RETRY_DELAY_SECS))
    }
}

/// The failure-handling law: a fatal classification stops the session —
/// `Stopped` is terminal, so it stops exactly once — and signals shutdown;
/// a recoverable classification asks for the fixed backoff and a
/// reconnect, and never signals shutdown.
pub proof fn lemma_failure_handling(signaled: bool)
    ensures
        failure_step(signaled, true) == (
            SessionPhase::Stopped,
            true,
            SessionDirective::Terminate,
        ),
        failure_step(signaled, false) == (
            SessionPhase::Disconnected,
            signaled,
            SessionDirective::Backoff(RETRY_DELAY_SECS),
        ),
{
}

/// The sequence number to checkpoint after an event, if any: only a commit
/// whose sequence number falls on the interval.
pub open spec fn checkpoint_of(ev: RepoEventModel) -> Option<u64> {
    match ev {
        RepoEventModel::Commit(c) => if c.common.seq % CHECKPOINT_INTERVAL == 0 {
            Some(c.common.seq)
        } else {
            None
        },
        _ => None,
    }
}

/// What processing one frame came to.
#[derive(Debug)]
pub enum FrameOutcome {
    /// The event was handled; keep reading.
    Handled,
    /// The event was handled and the cursor moved: persist it.
    HandledCheckpoint(u64),
    /// The frame or the handler failed.
    Failed(SubscriptionError),
}

/// One logical subscription session: the configured service, the resumable
/// cursor, the connection phase, the shutdown bookkeeping, and the handler
/// each decoded event is fed to.
pub struct FirehoseSubscription<H> {
    pub handler: H,
    pub service: String,
    pub cursor: Option<u64>,
    pub phase: SessionPhase,
    pub shutdown_signaled: bool,
}

impl<H: FirehoseSubscriptionHandler> FirehoseSubscription<H> {
    /// A fresh session for `service`, resuming from `cursor` when one was
    /// persisted.
    pub fn new(service: String, cursor: Option<u64>, handler: H) -> (r: Self)
        ensures
            r.service == service,
            r.cursor == cursor,
            r.phase is Disconnected,
            !r.shutdown_signaled,
    {
        FirehoseSubscription {
            handler,
            service,
            cursor,
            phase: SessionPhase::Disconnected,
            shutdown_signaled: false,
        }
    }

    /// Whether the driving loop should keep going.
    pub fn should_run(&self) -> (r: bool)
        ensures
            r == !(self.phase is Stopped),
    {
        match self.phase {
            SessionPhase::Stopped => false,
            _ => true,
        }
    }

    /// Build the resumable endpoint URL and move to `Connecting`; an
    /// unusable base URL is a fatal failure.
    pub fn begin_connect(&mut self) -> (r: Result<String, SubscriptionError>)
        requires
            !(old(self).phase is Stopped),
        ensures
            final(self).service == old(self).service,
            final(self).cursor == old(self).cursor,
            final(self).shutdown_signaled == old(self).shutdown_signaled,
            match subscription_url_of(old(self).service@, old(self).cursor) {
                Some(u) => r matches Ok(s) && s@ == u && final(self).phase is Connecting,
                None => r matches Err(e) && e is Fatal && final(self).phase == old(self).phase,
            },
    {
        match build_subscription_url(self.service.as_str(), self.cursor) {
            Some(u) => {
                self.phase = SessionPhase::Connecting;
                Ok(u)
            },
            None => Err(
                SubscriptionError::Fatal(String::from_str("failed to build subscription url")),
            ),
        }
    }

    /// The connection is open: start streaming.
    pub fn on_connected(&mut self)
        requires
            old(self).phase is Connecting,
        ensures
            final(self).phase is Streaming,
            final(self).service == old(self).service,
            final(self).cursor == old(self).cursor,
            final(self).shutdown_signaled == old(self).shutdown_signaled,
    {
        self.phase = SessionPhase::Streaming;
    }

    /// Process one inbound binary frame, in arrival order: decode it, hand
    /// the event to the handler, and move the cursor on a checkpoint
    /// boundary. Decode and handler failures are recoverable and leave the
    /// cursor alone.
    pub fn on_frame(&mut self, data: &Vec<u8>) -> (r: FrameOutcome)
        requires
            old(self).phase is Streaming,
        ensures
            final(self).service == old(self).service,
            final(self).phase == old(self).phase,
            final(self).shutdown_signaled == old(self).shutdown_signaled,
            match message_of(data@) {
                Err(me) => final(self).cursor == old(self).cursor && (match r {
                    FrameOutcome::Failed(e) => match e {
                        SubscriptionError::Recoverable(m) => m@ == describe_of(me),
                        _ => false,
                    },
                    _ => false,
                }),
                Ok(ev) => match r {
                    FrameOutcome::Failed(e) => e is Recoverable && final(self).cursor == old(
                        self,
                    ).cursor,
                    _ => match checkpoint_of(ev) {
                        Some(seq) => r matches FrameOutcome::HandledCheckpoint(s) && s == seq
                            && final(self).cursor == Some(seq),
                        None => r is Handled && final(self).cursor == old(self).cursor,
                    },
                },
            },
    {
        proof {
            assert(data@.skip(0) =~= data@);
        }
        let parsed = match parse_item(data, 0) {
            None => Err(MessageError::InvalidHeader),
            Some((hv, c)) => {
                match header_value(&hv) {
                    None => Err(MessageError::InvalidHeader),
                    Some((op, tag)) => {
                        if c == data.len() {
                            Err(MessageError::EmptyBody)
                        } else {
                            let body = slice_to_vec(
                                slice_subrange(data.as_slice(), c, data.len()),
                            );
                            proof {
                                assert(body@ =~= data@.skip(
                                    spec_parse(data@)->Some_0.1,
                                ));
                            }
                            match op {
                                HeaderOperation::Success => {
                                    match OutputSchema::from_cbor(tag.as_str(), &body) {
                                        Ok(e) => Ok(e),
                                        Err(pe) => Err(MessageError::InvalidEvent(pe)),
                                    }
                                },
                                HeaderOperation::Error => {
                                    match parse_error_body(&body) {
                                        Some(e) => Err(MessageError::StreamError(e)),
                                        None => Err(MessageError::InvalidErrorBody),
                                    }
                                },
                            }
                        }
                    },
                }
            },
        };
        match parsed {
            Err(me) => FrameOutcome::Failed(SubscriptionError::Recoverable(me.describe())),
            Ok(event) => {
                let checkpoint = match &event {
                    OutputSchema::Commit(commit) => {
                        let seq = commit._common.seq;
                        if seq % CHECKPOINT_INTERVAL == 0 {
                            Some(seq)
                        } else {
                            None
                        }
                    },
                    _ => None,
                };
                match self.handler.handle_event(event) {
                    Err(msg) => FrameOutcome::Failed(SubscriptionError::Recoverable(msg)),
                    Ok(()) => {
                        match checkpoint {
                            Some(seq) => {
                                self.cursor = Some(seq);
                                FrameOutcome::HandledCheckpoint(seq)
                            },
                            None => FrameOutcome::Handled,
                        }
                    },
                }
            },
        }
    }

    /// The stream ended without an error: reconnect immediately from the
    /// last checkpoint.
    pub fn on_stream_end(&mut self)
        requires
            old(self).phase is Streaming,
        ensures
            final(self).phase is Disconnected,
            final(self).service == old(self).service,
            final(self).cursor == old(self).cursor,
            final(self).shutdown_signaled == old(self).shutdown_signaled,
    {
        self.phase = SessionPhase::Disconnected;
    }

    /// A pending stop request was observed: finish cleanly. `Stopped` is
    /// terminal — no transition leads out of it.
    pub fn on_stop(&mut self) -> (r: SessionDirective)
        ensures
            final(self).phase is Stopped,
            final(self).service == old(self).service,
            final(self).cursor == old(self).cursor,
            final(self).shutdown_signaled == old(self).shutdown_signaled,
            r is Exit,
    {
        self.phase = SessionPhase::Stopped;
        SessionDirective::Exit
    }

    /// Apply the classification rule to a failure, as [`failure_step`]
    /// says: fatal stops the session for good and signals shutdown so
    /// co-running components stop together; recoverable asks for the fixed
    /// backoff before reconnecting and never signals shutdown.
    pub fn on_failure(&mut self, error: &SubscriptionError) -> (r: SessionDirective)
        requires
            !(old(self).phase is Stopped),
        ensures
            final(self).service == old(self).service,
            final(self).cursor == old(self).cursor,
            (final(self).phase, final(self).shutdown_signaled, r) == failure_step(
                old(self).shutdown_signaled,
                error is Fatal,
            ),
    {
        match error {
            SubscriptionError::Fatal(_) => {
                self.phase = SessionPhase::Stopped;
                self.shutdown_signaled = true;
                SessionDirective::Terminate
            },
            SubscriptionError::Recoverable(_) => {
                self.phase = SessionPhase::Disconnected;
                SessionDirective::Backoff(RETRY_DELAY_SECS)
            },
        }
    }

    /// Decode one binary frame into a typed event, exactly as
    /// [`message_of`] says.
    pub fn parse_message(data: &Vec<u8>) -> (r: Result<OutputSchema, MessageError>)
        ensures
            ({
                let sp = message_of(data@);
                match (r, sp) {
                    (Ok(e), Ok(se)) => e@ == se,
                    (Err(e), Err(se)) => e@ == se,
                    _ => false,
                }
            }),
    {
        proof {
            assert(data@.skip(0) =~= data@);
        }
        match parse_item(data, 0) {
            None => Err(MessageError::InvalidHeader),
            Some((hv, c)) => {
                match header_value(&hv) {
                    None => Err(MessageError::InvalidHeader),
                    Some((op, tag)) => {
                        if c == data.len() {
                            Err(MessageError::EmptyBody)
                        } else {
                            let body = slice_to_vec(
                                slice_subrange(data.as_slice(), c, data.len()),
                            );
                            proof {
                                assert(body@ =~= data@.skip(spec_parse(data@)->Some_0.1));
                            }
                            match op {
                                HeaderOperation::Success => {
                                    match OutputSchema::from_cbor(tag.as_str(), &body) {
                                        Ok(e) => Ok(e),
                                        Err(pe) => Err(MessageError::InvalidEvent(pe)),
                                    }
                                },
                                HeaderOperation::Error => {
                                    match parse_error_body(&body) {
                                        Some(e) => Err(MessageError::StreamError(e)),
                                        None => Err(MessageError::InvalidErrorBody),
                                    }
                                },
                            }
                        }
                    },
                }
            },
        }
    }
}

} // verus!
