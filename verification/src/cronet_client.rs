//! A client that goes through the Cronet network stack.
//!
//! A [`CronetRun`] takes a request through Cronet's engine, and a [`CallbackHandler`]
//! answers Cronet's callbacks while the request is under way. Both decide; the caller
//! performs what they ask for and reports what came of it.

use vstd::prelude::*;
use vstd::string::*;
use vstd::utf8::*;

use crate::chunk::{lossy, printable};
use crate::client::are_texts_of;
use crate::config::ProxyAddr;
use crate::text::append_text;

verus! {

/// The set-up of a client.
pub struct CronetClientConfig {
    /// The address of the proxy.
    pub proxy_addr: ProxyAddr,
    /// The URL of the target.
    pub target_url: String,
    /// The certificates that the client trusts, in DER form.
    pub root_certs: Vec<Vec<u8>>,
}

/// A client of the proxy that goes through Cronet.
pub struct CronetClient {
    config: CronetClientConfig,
}

/// The set-up of an engine.
pub struct EngineSetup {
    /// Whether QUIC is enabled.
    pub quic: bool,
    /// Whether HTTP/2 is enabled.
    pub http2: bool,
    /// The experimental options.
    pub options: String,
}

/// The contents of an [`EngineSetup`].
pub struct EngineView {
    pub quic: bool,
    pub http2: bool,
    pub options: Seq<char>,
}

impl View for EngineSetup {
    type V = EngineView;

    open spec fn view(&self) -> EngineView {
        EngineView { quic: self.quic, http2: self.http2, options: self.options@ }
    }
}

/// What a run through Cronet asks for.
pub enum CronetAction {
    /// Start an engine with this set-up.
    StartEngine(EngineSetup),
    /// Set up a request with this method and this URL.
    InitRequest(String, String),
    /// Start the request.
    StartRequest,
    /// Wait until the request is done.
    AwaitRequest,
    /// Wait until what was read has been printed.
    AwaitReader,
    /// The run is over.
    Close,
    /// Give up with this message.
    Bail(String),
    /// The event was not the answer to what had been asked; nothing changes.
    Ignore,
}

/// The contents of a [`CronetAction`].
pub enum CronetActionView {
    StartEngine(EngineView),
    InitRequest(Seq<char>, Seq<char>),
    StartRequest,
    AwaitRequest,
    AwaitReader,
    Close,
    Bail(Seq<char>),
    Ignore,
}

impl View for CronetAction {
    type V = CronetActionView;

    open spec fn view(&self) -> CronetActionView {
        match *self {
            CronetAction::StartEngine(setup) => CronetActionView::StartEngine(setup@),
            CronetAction::InitRequest(method, url) => CronetActionView::InitRequest(method@, url@),
            CronetAction::StartRequest => CronetActionView::StartRequest,
            CronetAction::AwaitRequest => CronetActionView::AwaitRequest,
            CronetAction::AwaitReader => CronetActionView::AwaitReader,
            CronetAction::Close => CronetActionView::Close,
            CronetAction::Bail(message) => CronetActionView::Bail(message@),
            CronetAction::Ignore => CronetActionView::Ignore,
        }
    }
}

/// What came of an action. A failure carries its code as a text.
pub enum CronetEvent {
    /// The engine was started.
    EngineStarted,
    /// The engine could not be started.
    EngineFailed(String),
    /// The request was set up.
    RequestReady,
    /// The request could not be set up.
    RequestRejected(String),
    /// The request was started.
    RequestStarted,
    /// The request could not be started.
    RequestStuck(String),
    /// The request is done, with this outcome.
    RequestDone(CronetOutcome),
    /// The handler of the callbacks is gone, and no outcome was reported.
    HandlerGone,
    /// What was read has been printed.
    ReaderDone,
    /// The printing broke off, for the reason in this message.
    ReaderFailed(String),
}

/// How a request ended.
pub enum CronetOutcome {
    /// It succeeded.
    Success,
    /// It did not, for the reason in this message.
    Failure(String),
}

/// The contents of a [`CronetOutcome`].
pub enum OutcomeView {
    Success,
    Failure(Seq<char>),
}

impl View for CronetOutcome {
    type V = OutcomeView;

    open spec fn view(&self) -> OutcomeView {
        match *self {
            CronetOutcome::Success => OutcomeView::Success,
            CronetOutcome::Failure(message) => OutcomeView::Failure(message@),
        }
    }
}

/// The contents of a [`CronetEvent`].
pub enum CronetEventView {
    EngineStarted,
    EngineFailed(Seq<char>),
    RequestReady,
    RequestRejected(Seq<char>),
    RequestStarted,
    RequestStuck(Seq<char>),
    RequestDone(OutcomeView),
    HandlerGone,
    ReaderDone,
    ReaderFailed(Seq<char>),
}

impl View for CronetEvent {
    type V = CronetEventView;

    open spec fn view(&self) -> CronetEventView {
        match *self {
            CronetEvent::EngineStarted => CronetEventView::EngineStarted,
            CronetEvent::EngineFailed(code) => CronetEventView::EngineFailed(code@),
            CronetEvent::RequestReady => CronetEventView::RequestReady,
            CronetEvent::RequestRejected(code) => CronetEventView::RequestRejected(code@),
            CronetEvent::RequestStarted => CronetEventView::RequestStarted,
            CronetEvent::RequestStuck(code) => CronetEventView::RequestStuck(code@),
            CronetEvent::RequestDone(outcome) => CronetEventView::RequestDone(outcome@),
            CronetEvent::HandlerGone => CronetEventView::HandlerGone,
            CronetEvent::ReaderDone => CronetEventView::ReaderDone,
            CronetEvent::ReaderFailed(message) => CronetEventView::ReaderFailed(message@),
        }
    }
}

/// What a run is waiting for.
#[derive(Clone, Copy, Debug, PartialEq, Eq, Structural)]
pub enum CronetState {
    StartingEngine,
    InitializingRequest,
    StartingRequest,
    AwaitingRequest,
    AwaitingReader,
    Closed,
}

/// The experimental options that lead an engine through the proxy.
pub open spec fn engine_options(proxy: Seq<char>) -> Seq<char> {
    "{\"env_options\": {\"proxy\": \"QUIC://"@ + proxy + "\"}}"@
}

/// What is said of a build that Cronet is not part of.
pub open spec fn not_enabled() -> Seq<char> {
    "cronet-rs backend was not enabled at compile time. Please compile with `--features cronet-backend`"@
}

/// How a run begins. `enabled` says whether Cronet is part of the build.
pub open spec fn cronet_begins(config: CronetClientConfig, enabled: bool) -> (
    CronetState,
    CronetActionView,
) {
    if enabled {
        (
            CronetState::StartingEngine,
            CronetActionView::StartEngine(
                EngineView {
                    quic: true,
                    http2: true,
                    options: engine_options(config.proxy_addr.text@),
                },
            ),
        )
    } else {
        (CronetState::Closed, CronetActionView::Bail(not_enabled()))
    }
}

/// How a run goes on.
pub open spec fn cronet_step(config: CronetClientConfig, s: CronetState, e: CronetEventView) -> (
    CronetState,
    CronetActionView,
) {
    match (s, e) {
        (CronetState::StartingEngine, CronetEventView::EngineStarted) => (
            CronetState::InitializingRequest,
            CronetActionView::InitRequest("CONNECT"@, config.target_url@),
        ),
        (CronetState::StartingEngine, CronetEventView::EngineFailed(code)) => (
            CronetState::Closed,
            CronetActionView::Bail("Failed to start cronet engine: "@ + code),
        ),
        (CronetState::InitializingRequest, CronetEventView::RequestReady) => (
            CronetState::StartingRequest,
            CronetActionView::StartRequest,
        ),
        (CronetState::InitializingRequest, CronetEventView::RequestRejected(code)) => (
            CronetState::Closed,
            CronetActionView::Bail("Failed to init cronet request: "@ + code),
        ),
        (CronetState::StartingRequest, CronetEventView::RequestStarted) => (
            CronetState::AwaitingRequest,
            CronetActionView::AwaitRequest,
        ),
        (CronetState::StartingRequest, CronetEventView::RequestStuck(code)) => (
            CronetState::Closed,
            CronetActionView::Bail("Failed to start cronet request: "@ + code),
        ),
        (CronetState::AwaitingRequest, CronetEventView::RequestDone(outcome)) => match outcome {
            OutcomeView::Success => (CronetState::AwaitingReader, CronetActionView::AwaitReader),
            OutcomeView::Failure(message) => (
                CronetState::Closed,
                CronetActionView::Bail(message),
            ),
        },
        (CronetState::AwaitingRequest, CronetEventView::HandlerGone) => (
            CronetState::Closed,
            CronetActionView::Bail("channel closed"@),
        ),
        (CronetState::AwaitingReader, CronetEventView::ReaderDone) => (
            CronetState::Closed,
            CronetActionView::Close,
        ),
        (CronetState::AwaitingReader, CronetEventView::ReaderFailed(message)) => (
            CronetState::Closed,
            CronetActionView::Bail(message),
        ),
        _ => (s, CronetActionView::Ignore),
    }
}

impl CronetClient {
    /// What the client is set up with.
    pub closed spec fn config(self) -> CronetClientConfig {
        self.config
    }

    /// A client with this set-up.
    pub fn new(config: CronetClientConfig) -> (r: CronetClient)
        ensures
            r.config() == config,
    {
        CronetClient { config }
    }

    /// Begins a run of the client. `enabled` says whether Cronet is part of the build.
    pub fn run(&self, enabled: bool) -> (r: (CronetRun<'_>, CronetAction))
        ensures
            r.0.config() == self.config(),
            (r.0.state(), r.1@) == cronet_begins(self.config(), enabled),
    {
        if !enabled {
            return (
                CronetRun { config: &self.config, state: CronetState::Closed },
                CronetAction::Bail(
                    "cronet-rs backend was not enabled at compile time. Please compile with `--features cronet-backend`".to_owned(),
                ),
            );
        }
        let start = append_text(
            "{\"env_options\": {\"proxy\": \"QUIC://",
            self.config.proxy_addr.text.as_str(),
        );
        let options = append_text(start.as_str(), "\"}}");
        (
            CronetRun { config: &self.config, state: CronetState::StartingEngine },
            CronetAction::StartEngine(EngineSetup { quic: true, http2: true, options }),
        )
    }
}

/// A run of a client through Cronet.
pub struct CronetRun<'a> {
    config: &'a CronetClientConfig,
    state: CronetState,
}

impl<'a> CronetRun<'a> {
    /// What the client is set up with.
    pub closed spec fn config(self) -> CronetClientConfig {
        *self.config
    }

    /// What the run is waiting for.
    pub closed spec fn state(self) -> CronetState {
        self.state
    }

    /// Takes in what came of the last action and says what to do next.
    pub fn step(&mut self, event: CronetEvent) -> (r: CronetAction)
        ensures
            final(self).config() == old(self).config(),
            (final(self).state(), r@) == cronet_step(
                old(self).config(),
                old(self).state(),
                event@,
            ),
    {
        match (self.state, event) {
            (CronetState::StartingEngine, CronetEvent::EngineStarted) => {
                self.state = CronetState::InitializingRequest;
                CronetAction::InitRequest("CONNECT".to_owned(), self.config.target_url.clone())
            },
            (CronetState::StartingEngine, CronetEvent::EngineFailed(code)) => {
                self.state = CronetState::Closed;
                CronetAction::Bail(append_text("Failed to start cronet engine: ", code.as_str()))
            },
            (CronetState::InitializingRequest, CronetEvent::RequestReady) => {
                self.state = CronetState::StartingRequest;
                CronetAction::StartRequest
            },
            (CronetState::InitializingRequest, CronetEvent::RequestRejected(code)) => {
                self.state = CronetState::Closed;
                CronetAction::Bail(append_text("Failed to init cronet request: ", code.as_str()))
            },
            (CronetState::StartingRequest, CronetEvent::RequestStarted) => {
                self.state = CronetState::AwaitingRequest;
                CronetAction::AwaitRequest
            },
            (CronetState::StartingRequest, CronetEvent::RequestStuck(code)) => {
                self.state = CronetState::Closed;
                CronetAction::Bail(append_text("Failed to start cronet request: ", code.as_str()))
            },
            (CronetState::AwaitingRequest, CronetEvent::RequestDone(outcome)) => match outcome {
                CronetOutcome::Success => {
                    self.state = CronetState::AwaitingReader;
                    CronetAction::AwaitReader
                },
                CronetOutcome::Failure(message) => {
                    self.state = CronetState::Closed;
                    CronetAction::Bail(message)
                },
            },
            (CronetState::AwaitingRequest, CronetEvent::HandlerGone) => {
                self.state = CronetState::Closed;
                CronetAction::Bail("channel closed".to_owned())
            },
            (CronetState::AwaitingReader, CronetEvent::ReaderDone) => {
                self.state = CronetState::Closed;
                CronetAction::Close
            },
            (CronetState::AwaitingReader, CronetEvent::ReaderFailed(message)) => {
                self.state = CronetState::Closed;
                CronetAction::Bail(message)
            },
            _ => CronetAction::Ignore,
        }
    }
}

/// What Cronet calls back with.
pub enum Callback {
    /// The server redirects the request.
    RedirectReceived,
    /// The response has begun.
    ResponseStarted,
    /// This part of the response was read.
    ReadCompleted(Vec<u8>),
    /// The part was handed to the reader, or the reader is gone.
    Delivered(bool),
    /// The request succeeded.
    Succeeded,
    /// The request failed with this error code.
    Failed(String),
    /// The request was canceled.
    Canceled,
}

/// The contents of a [`Callback`].
pub enum CallbackView {
    RedirectReceived,
    ResponseStarted,
    ReadCompleted(Seq<u8>),
    Delivered(bool),
    Succeeded,
    Failed(Seq<char>),
    Canceled,
}

impl View for Callback {
    type V = CallbackView;

    open spec fn view(&self) -> CallbackView {
        match *self {
            Callback::RedirectReceived => CallbackView::RedirectReceived,
            Callback::ResponseStarted => CallbackView::ResponseStarted,
            Callback::ReadCompleted(data) => CallbackView::ReadCompleted(data@),
            Callback::Delivered(ok) => CallbackView::Delivered(ok),
            Callback::Succeeded => CallbackView::Succeeded,
            Callback::Failed(code) => CallbackView::Failed(code@),
            Callback::Canceled => CallbackView::Canceled,
        }
    }
}

/// What a callback leads to.
pub enum Reply {
    /// Follow the redirect.
    FollowRedirect,
    /// Read the next part of the response into a buffer of this size.
    Read(u64),
    /// Hand this part to the reader.
    Deliver(Vec<u8>),
    /// Cancel the request.
    Cancel,
    /// Report that the request is done, with this outcome.
    Report(CronetOutcome),
    /// Do nothing.
    Nothing,
}

/// The contents of a [`Reply`].
pub enum ReplyView {
    FollowRedirect,
    Read(u64),
    Deliver(Seq<u8>),
    Cancel,
    Report(OutcomeView),
    Nothing,
}

impl View for Reply {
    type V = ReplyView;

    open spec fn view(&self) -> ReplyView {
        match *self {
            Reply::FollowRedirect => ReplyView::FollowRedirect,
            Reply::Read(size) => ReplyView::Read(size),
            Reply::Deliver(data) => ReplyView::Deliver(data@),
            Reply::Cancel => ReplyView::Cancel,
            Reply::Report(outcome) => ReplyView::Report(outcome@),
            Reply::Nothing => ReplyView::Nothing,
        }
    }
}

/// The outcome that a callback stands for, where it is the last one.
pub open spec fn outcome_of(c: CallbackView) -> Option<OutcomeView> {
    match c {
        CallbackView::Succeeded => Some(OutcomeView::Success),
        CallbackView::Failed(code) => Some(
            OutcomeView::Failure("cronet request failed with error code "@ + code),
        ),
        CallbackView::Canceled => Some(OutcomeView::Failure("cronet request canceled"@)),
        _ => None,
    }
}

/// What a callback leads to. `reported` says whether an outcome has been reported.
pub open spec fn reply_to(reported: bool, c: CallbackView) -> (bool, ReplyView) {
    match outcome_of(c) {
        Some(outcome) => if reported {
            (true, ReplyView::Nothing)
        } else {
            (true, ReplyView::Report(outcome))
        },
        None => (
            reported,
            match c {
                CallbackView::RedirectReceived => ReplyView::FollowRedirect,
                CallbackView::ResponseStarted => ReplyView::Read(8192),
                CallbackView::ReadCompleted(data) => ReplyView::Deliver(data),
                CallbackView::Delivered(ok) => if ok {
                    ReplyView::Read(8192)
                } else {
                    ReplyView::Cancel
                },
                _ => ReplyView::Nothing,
            },
        ),
    }
}

/// Answers Cronet's callbacks for one request.
pub struct CallbackHandler {
    reported: bool,
}

impl CallbackHandler {
    /// Whether an outcome has been reported.
    pub closed spec fn reported(self) -> bool {
        self.reported
    }

    /// A handler for a request that is not done.
    pub fn new() -> (r: CallbackHandler)
        ensures
            !r.reported(),
    {
        CallbackHandler { reported: false }
    }

    fn report(&mut self, outcome: CronetOutcome) -> (r: Reply)
        ensures
            final(self).reported(),
            r@ == (if old(self).reported() {
                ReplyView::Nothing
            } else {
                ReplyView::Report(outcome@)
            }),
    {
        if self.reported {
            Reply::Nothing
        } else {
            self.reported = true;
            Reply::Report(outcome)
        }
    }

    /// Says what a callback leads to.
    pub fn answer(&mut self, callback: Callback) -> (r: Reply)
        ensures
            (final(self).reported(), r@) == reply_to(old(self).reported(), callback@),
    {
        match callback {
            Callback::RedirectReceived => Reply::FollowRedirect,
            Callback::ResponseStarted => Reply::Read(8192),
            Callback::ReadCompleted(data) => Reply::Deliver(data),
            Callback::Delivered(ok) => {
                if ok {
                    Reply::Read(8192)
                } else {
                    Reply::Cancel
                }
            },
            Callback::Succeeded => self.report(CronetOutcome::Success),
            Callback::Failed(code) => {
                let message = append_text("cronet request failed with error code ", code.as_str());
                self.report(CronetOutcome::Failure(message))
            },
            Callback::Canceled => self.report(
                CronetOutcome::Failure("cronet request canceled".to_owned()),
            ),
        }
    }
}

/// What the reader asks for.
pub enum ReaderAction {
    /// Receive the next part of the response.
    Receive,
    /// Print this text.
    Print(String),
    /// The reader is done.
    Stop,
    /// The event was not the answer to what had been asked; nothing changes.
    Ignore,
}

/// The contents of a [`ReaderAction`].
pub enum ReaderActionView {
    Receive,
    Print(Seq<char>),
    Stop,
    Ignore,
}

impl View for ReaderAction {
    type V = ReaderActionView;

    open spec fn view(&self) -> ReaderActionView {
        match *self {
            ReaderAction::Receive => ReaderActionView::Receive,
            ReaderAction::Print(text) => ReaderActionView::Print(text@),
            ReaderAction::Stop => ReaderActionView::Stop,
            ReaderAction::Ignore => ReaderActionView::Ignore,
        }
    }
}

/// What came of the reader's action.
pub enum ReaderEvent {
    /// This part of the response was received.
    Part(Vec<u8>),
    /// The text was printed.
    Printed,
    /// There are no more parts.
    Ended,
}

/// The contents of a [`ReaderEvent`].
pub enum ReaderEventView {
    Part(Seq<u8>),
    Printed,
    Ended,
}

impl View for ReaderEvent {
    type V = ReaderEventView;

    open spec fn view(&self) -> ReaderEventView {
        match *self {
            ReaderEvent::Part(data) => ReaderEventView::Part(data@),
            ReaderEvent::Printed => ReaderEventView::Printed,
            ReaderEvent::Ended => ReaderEventView::Ended,
        }
    }
}

/// What the reader is waiting for.
#[derive(Clone, Copy, Debug, PartialEq, Eq, Structural)]
pub enum ReaderState {
    Receiving,
    Printing,
    Stopped,
}

/// What the reader does with the text of a part.
pub open spec fn reader_prints(s: ReaderState, text: Seq<char>) -> (ReaderState, ReaderActionView) {
    if s == ReaderState::Receiving {
        (ReaderState::Printing, ReaderActionView::Print(text))
    } else {
        (s, ReaderActionView::Ignore)
    }
}

/// How the reader goes on. Each part is read as a text by itself, and one that is UTF-8 is
/// read as it is.
pub open spec fn reader_goes_on(
    s: ReaderState,
    e: ReaderEventView,
    t: ReaderState,
    a: ReaderActionView,
) -> bool {
    match (s, e) {
        (ReaderState::Receiving, ReaderEventView::Part(data)) => {
            &&& (t, a) == reader_prints(s, lossy(data))
            &&& valid_utf8(data) ==> lossy(data) == decode_utf8(data)
        },
        (ReaderState::Receiving, ReaderEventView::Ended) => {
            t == ReaderState::Stopped && a is Stop
        },
        (ReaderState::Printing, ReaderEventView::Printed) => {
            t == ReaderState::Receiving && a is Receive
        },
        _ => t == s && a is Ignore,
    }
}

/// Prints the parts of a response as they are delivered.
pub struct Reader {
    state: ReaderState,
}

impl Reader {
    /// What the reader is waiting for.
    pub closed spec fn state(self) -> ReaderState {
        self.state
    }

    /// A reader that begins with receiving.
    pub fn start() -> (r: (Reader, ReaderAction))
        ensures
            r.0.state() == ReaderState::Receiving,
            r.1@ == ReaderActionView::Receive,
    {
        (Reader { state: ReaderState::Receiving }, ReaderAction::Receive)
    }

    /// Takes in the text of a part, and asks for it to be printed. Out of turn it changes
    /// nothing.
    pub fn print(&mut self, text: String) -> (r: ReaderAction)
        ensures
            (final(self).state(), r@) == reader_prints(old(self).state(), text@),
    {
        match self.state {
            ReaderState::Receiving => {
                self.state = ReaderState::Printing;
                ReaderAction::Print(text)
            },
            _ => ReaderAction::Ignore,
        }
    }

    /// Takes in what came of the last action and says what to do next.
    pub fn step(&mut self, event: ReaderEvent) -> (r: ReaderAction)
        ensures
            reader_goes_on(old(self).state(), event@, final(self).state(), r@),
    {
        match (self.state, event) {
            (ReaderState::Receiving, ReaderEvent::Part(data)) => self.print(
                printable(data.as_slice()),
            ),
            (ReaderState::Receiving, ReaderEvent::Ended) => {
                self.state = ReaderState::Stopped;
                ReaderAction::Stop
            },
            (ReaderState::Printing, ReaderEvent::Printed) => {
                self.state = ReaderState::Receiving;
                ReaderAction::Receive
            },
            _ => ReaderAction::Ignore,
        }
    }
}

/// The record of a reader: its states, what was reported in each of them, and what it
/// asked for. The first action comes with the first state.
pub struct ReaderRecord {
    pub states: Seq<ReaderState>,
    pub events: Seq<ReaderEventView>,
    pub actions: Seq<ReaderActionView>,
}

impl ReaderRecord {
    /// The record is one of a reader from its start.
    pub open spec fn is_whole(self) -> bool {
        &&& self.states.len() == self.events.len() + 1
        &&& self.actions.len() == self.events.len() + 1
        &&& self.states[0] == ReaderState::Receiving
        &&& self.actions[0] == ReaderActionView::Receive
        &&& forall|i: int| 0 <= i < self.events.len() ==> #[trigger] self.leads_on(i)
    }

    /// The event at `i` leads from the state at `i` to the next.
    pub open spec fn leads_on(self, i: int) -> bool {
        reader_goes_on(self.states[i], self.events[i], self.states[i + 1], self.actions[i + 1])
    }

    /// Each event was the answer to the action before it.
    pub open spec fn all_answered(self) -> bool {
        forall|i: int| 0 <= i < self.actions.len() ==> !((#[trigger] self.actions[i]) is Ignore)
    }
}

/// The parts that the reader received, one by one.
pub open spec fn received_parts(events: Seq<ReaderEventView>) -> Seq<Seq<u8>>
    decreases events.len(),
{
    if events.len() == 0 {
        Seq::empty()
    } else {
        match events.last() {
            ReaderEventView::Part(data) => received_parts(events.drop_last()).push(data),
            _ => received_parts(events.drop_last()),
        }
    }
}

/// The texts that the reader was to print, one by one.
pub open spec fn reader_texts(actions: Seq<ReaderActionView>) -> Seq<Seq<char>>
    decreases actions.len(),
{
    if actions.len() == 0 {
        Seq::empty()
    } else {
        match actions.last() {
            ReaderActionView::Print(text) => reader_texts(actions.drop_last()).push(text),
            _ => reader_texts(actions.drop_last()),
        }
    }
}

proof fn lemma_reader(rec: ReaderRecord, n: int)
    requires
        rec.is_whole(),
        rec.all_answered(),
        0 <= n <= rec.events.len(),
    ensures
        are_texts_of(reader_texts(rec.actions.take(n + 1)), received_parts(rec.events.take(n))),
    decreases n,
{
    let texts = reader_texts(rec.actions.take(n + 1));
    let parts = received_parts(rec.events.take(n));
    if n == 0 {
        assert(rec.events.take(0) =~= Seq::empty());
        assert(rec.actions.take(1).drop_last() =~= Seq::empty());
        assert(reader_texts(rec.actions.take(1).drop_last()) =~= Seq::empty());
        assert(rec.actions.take(1).last() == rec.actions[0]);
        assert(texts =~= parts.map_values(|part: Seq<u8>| lossy(part)));
    } else {
        lemma_reader(rec, n - 1);
        assert(rec.leads_on(n - 1));
        assert(rec.actions[n] !is Ignore);
        assert(rec.actions.take(n + 1).drop_last() =~= rec.actions.take(n));
        assert(rec.events.take(n).drop_last() =~= rec.events.take(n - 1));
        let before = received_parts(rec.events.take(n - 1));
        let shown = reader_texts(rec.actions.take(n));
        assert(texts =~= parts.map_values(|part: Seq<u8>| lossy(part)));
        assert forall|i: int|
            0 <= i < parts.len() && valid_utf8(#[trigger] parts[i]) implies encode_utf8(texts[i])
            == parts[i] by {
            if i < before.len() {
                assert(parts[i] == before[i]);
                assert(texts[i] == shown[i]);
            } else {
                decode_utf8_encode_utf8(parts[i]);
            }
        }
    }
}

/// The reader prints exactly what it receives: each part by itself, in order, as the text
/// that it is read as, and one that is UTF-8 byte for byte.
pub proof fn law_reader_prints_what_it_receives(rec: ReaderRecord)
    requires
        rec.is_whole(),
        rec.all_answered(),
    ensures
        are_texts_of(reader_texts(rec.actions), received_parts(rec.events)),
{
    let n = rec.events.len() as int;
    lemma_reader(rec, n);
    assert(rec.actions.take(n + 1) =~= rec.actions);
    assert(rec.events.take(n) =~= rec.events);
}

/// Whether an outcome has been reported after a sequence of callbacks.
pub open spec fn reported_after(callbacks: Seq<CallbackView>) -> bool
    decreases callbacks.len(),
{
    if callbacks.len() == 0 {
        false
    } else {
        reply_to(reported_after(callbacks.drop_last()), callbacks.last()).0
    }
}

/// What a sequence of callbacks leads to.
pub open spec fn replies(callbacks: Seq<CallbackView>) -> Seq<ReplyView>
    decreases callbacks.len(),
{
    if callbacks.len() == 0 {
        Seq::empty()
    } else {
        replies(callbacks.drop_last()).push(
            reply_to(reported_after(callbacks.drop_last()), callbacks.last()).1,
        )
    }
}

proof fn lemma_replies(callbacks: Seq<CallbackView>)
    ensures
        replies(callbacks).len() == callbacks.len(),
        !reported_after(callbacks) ==> forall|i: int|
            0 <= i < callbacks.len() ==> !((#[trigger] replies(callbacks)[i]) is Report),
    decreases callbacks.len(),
{
    if callbacks.len() > 0 {
        lemma_replies(callbacks.drop_last());
    }
}

/// The outcome of a request is reported at most once.
pub proof fn law_one_outcome(callbacks: Seq<CallbackView>, i: int, j: int)
    requires
        0 <= i < j < replies(callbacks).len(),
        replies(callbacks)[i] is Report,
    ensures
        !(replies(callbacks)[j] is Report),
    decreases callbacks.len(),
{
    let front = callbacks.drop_last();
    lemma_replies(callbacks);
    lemma_replies(front);
    if j < replies(callbacks).len() - 1 {
        assert(replies(callbacks)[i] == replies(front)[i]);
        assert(replies(callbacks)[j] == replies(front)[j]);
        law_one_outcome(front, i, j);
    } else {
        assert(replies(callbacks)[i] == replies(front)[i]);
        assert(reported_after(front));
    }
}

/// The first callback that stands for an outcome has it reported.
pub proof fn law_first_outcome_counts(callbacks: Seq<CallbackView>, i: int, outcome: OutcomeView)
    requires
        0 <= i < callbacks.len(),
        outcome_of(callbacks[i]) == Some(outcome),
        forall|k: int| 0 <= k < i ==> outcome_of(#[trigger] callbacks[k]) is None,
    ensures
        i < replies(callbacks).len(),
        replies(callbacks)[i] == ReplyView::Report(outcome),
    decreases callbacks.len(),
{
    let front = callbacks.drop_last();
    lemma_replies(callbacks);
    lemma_replies(front);
    if i < callbacks.len() - 1 {
        assert forall|k: int| 0 <= k < i implies outcome_of(#[trigger] front[k]) is None by {
            assert(front[k] == callbacks[k]);
        }
        law_first_outcome_counts(front, i, outcome);
        assert(replies(callbacks)[i] == replies(front)[i]);
    } else {
        lemma_unreported(front);
    }
}

/// Everything that is read is handed to the reader, in the order in which it was read,
/// and nothing else is.
pub proof fn law_everything_read_is_delivered(callbacks: Seq<CallbackView>, i: int, data: Seq<u8>)
    requires
        0 <= i < callbacks.len(),
    ensures
        i < replies(callbacks).len(),
        replies(callbacks)[i] == ReplyView::Deliver(data) <==> callbacks[i]
            == CallbackView::ReadCompleted(data),
    decreases callbacks.len(),
{
    let front = callbacks.drop_last();
    lemma_replies(callbacks);
    lemma_replies(front);
    if i < callbacks.len() - 1 {
        law_everything_read_is_delivered(front, i, data);
        assert(replies(callbacks)[i] == replies(front)[i]);
        assert(front[i] == callbacks[i]);
    }
}

/// The first outcome among a sequence of callbacks, where there is one.
pub open spec fn first_outcome(callbacks: Seq<CallbackView>) -> Option<OutcomeView>
    decreases callbacks.len(),
{
    if callbacks.len() == 0 {
        None
    } else {
        match first_outcome(callbacks.drop_last()) {
            Some(outcome) => Some(outcome),
            None => outcome_of(callbacks.last()),
        }
    }
}

/// What the run is told when the request has come to its end, or the handler of its
/// callbacks to the handler's.
pub open spec fn end_of_request(callbacks: Seq<CallbackView>) -> CronetEventView {
    match first_outcome(callbacks) {
        Some(outcome) => CronetEventView::RequestDone(outcome),
        None => CronetEventView::HandlerGone,
    }
}

/// What is reported is the first outcome: it is reported if there is one, and nothing else
/// ever is.
pub proof fn law_report_is_first_outcome(callbacks: Seq<CallbackView>, i: int, outcome: OutcomeView)
    requires
        0 <= i < replies(callbacks).len(),
        replies(callbacks)[i] == ReplyView::Report(outcome),
    ensures
        first_outcome(callbacks) == Some(outcome),
    decreases callbacks.len(),
{
    let front = callbacks.drop_last();
    lemma_replies(callbacks);
    lemma_replies(front);
    lemma_first_outcome(front);
    if i < callbacks.len() - 1 {
        assert(replies(callbacks)[i] == replies(front)[i]);
        law_report_is_first_outcome(front, i, outcome);
    }
}

proof fn lemma_first_outcome(callbacks: Seq<CallbackView>)
    ensures
        reported_after(callbacks) == first_outcome(callbacks) is Some,
    decreases callbacks.len(),
{
    if callbacks.len() > 0 {
        lemma_first_outcome(callbacks.drop_last());
    }
}

/// The first outcome decides how a run ends once its request is under way: with a success
/// the run waits for the reader and ends well, with a failure it ends with the message of
/// that failure, and where the callbacks end without an outcome it ends with an error too.
pub proof fn law_first_outcome_ends_the_run(
    config: CronetClientConfig,
    callbacks: Seq<CallbackView>,
)
    ensures
        cronet_step(config, CronetState::AwaitingRequest, end_of_request(callbacks)) == (
        match first_outcome(callbacks) {
            Some(OutcomeView::Success) => (
                CronetState::AwaitingReader,
                CronetActionView::AwaitReader,
            ),
            Some(OutcomeView::Failure(message)) => (
                CronetState::Closed,
                CronetActionView::Bail(message),
            ),
            None => (CronetState::Closed, CronetActionView::Bail("channel closed"@)),
        }),
        cronet_step(config, CronetState::AwaitingReader, CronetEventView::ReaderDone) == (
            CronetState::Closed,
            CronetActionView::Close,
        ),
{
}

/// A run that is over stays over: whatever is reported, nothing more is asked for.
pub proof fn law_cronet_end_is_final(config: CronetClientConfig, event: CronetEventView)
    ensures
        cronet_step(config, CronetState::Closed, event) == (
            CronetState::Closed,
            CronetActionView::Ignore,
        ),
{
}

proof fn lemma_unreported(callbacks: Seq<CallbackView>)
    requires
        forall|k: int| 0 <= k < callbacks.len() ==> outcome_of(#[trigger] callbacks[k]) is None,
    ensures
        !reported_after(callbacks),
    decreases callbacks.len(),
{
    if callbacks.len() > 0 {
        let front = callbacks.drop_last();
        assert forall|k: int| 0 <= k < front.len() implies outcome_of(#[trigger] front[k]) is None by {
            assert(front[k] == callbacks[k]);
        }
        lemma_unreported(front);
        assert(callbacks[callbacks.len() - 1] == callbacks.last());
    }
}

/// The state of a run through Cronet after a sequence of events.
pub open spec fn cronet_state(
    config: CronetClientConfig,
    enabled: bool,
    events: Seq<CronetEventView>,
) -> CronetState
    decreases events.len(),
{
    if events.len() == 0 {
        cronet_begins(config, enabled).0
    } else {
        cronet_step(config, cronet_state(config, enabled, events.drop_last()), events.last()).0
    }
}

/// What a run through Cronet asks for: first of all, and then when the last of a sequence of
/// events is reported to it.
pub open spec fn cronet_answer(
    config: CronetClientConfig,
    enabled: bool,
    events: Seq<CronetEventView>,
) -> CronetActionView {
    if events.len() == 0 {
        cronet_begins(config, enabled).1
    } else {
        cronet_step(config, cronet_state(config, enabled, events.drop_last()), events.last()).1
    }
}

/// How far a run has come.
spec fn rank(s: CronetState) -> int {
    match s {
        CronetState::StartingEngine => 0,
        CronetState::InitializingRequest => 1,
        CronetState::StartingRequest => 2,
        CronetState::AwaitingRequest => 3,
        CronetState::AwaitingReader => 4,
        CronetState::Closed => 5,
    }
}

proof fn lemma_rank(
    config: CronetClientConfig,
    enabled: bool,
    events: Seq<CronetEventView>,
    n: int,
)
    requires
        0 <= n <= events.len(),
    ensures
        rank(cronet_state(config, enabled, events.take(n))) <= rank(
            cronet_state(config, enabled, events),
        ),
    decreases events.len() - n,
{
    if n < events.len() {
        lemma_rank(config, enabled, events, n + 1);
        assert(events.take(n + 1).drop_last() =~= events.take(n));
    } else {
        assert(events.take(n) =~= events);
    }
}

/// A run through Cronet is for its own set-up, whatever is reported to it: the engine that it
/// starts has QUIC and HTTP/2 enabled and options that name the proxy's address, and the
/// request that it sets up is a CONNECT request for the URL of its target. It starts an
/// engine first and never again, and sets up a request at most once.
pub proof fn law_cronet_run_is_for_its_set_up(
    config: CronetClientConfig,
    enabled: bool,
    events: Seq<CronetEventView>,
    n: int,
)
    requires
        0 <= n < events.len(),
    ensures
        enabled ==> cronet_answer(config, enabled, Seq::empty()) == CronetActionView::StartEngine(
            EngineView {
                quic: true,
                http2: true,
                options: "{\"env_options\": {\"proxy\": \"QUIC://"@ + config.proxy_addr.text@
                    + "\"}}"@,
            },
        ),
        cronet_answer(config, enabled, events) !is StartEngine,
        cronet_answer(config, enabled, events) matches CronetActionView::InitRequest(method, url)
            ==> method == "CONNECT"@ && url == config.target_url@,
        cronet_answer(config, enabled, events) is InitRequest ==> cronet_answer(
            config,
            enabled,
            events.take(n),
        ) !is InitRequest,
        enabled && events == seq![CronetEventView::EngineStarted] ==> cronet_answer(
            config,
            enabled,
            events,
        ) == CronetActionView::InitRequest("CONNECT"@, config.target_url@),
{
    assert(events.drop_last().take(0) =~= Seq::empty());
    if events == seq![CronetEventView::EngineStarted] {
        assert(events.drop_last() =~= Seq::empty());
    }
    if n > 0 && cronet_answer(config, enabled, events.take(n)) is InitRequest {
        let front = events.drop_last();
        lemma_rank(config, enabled, front, n);
        assert(front.take(n) =~= events.take(n));
    }
}

/// A run through Cronet whose steps go well goes from the engine to the request, starts it,
/// waits for it and then for the reader, and closes when the reader is done. Each step that
/// fails ends the run, with a message that says which it was and ends in the code that was
/// reported. A build without Cronet gives up at once, and asks for it to be built in.
pub proof fn law_course_of_cronet_run(config: CronetClientConfig, code: Seq<char>)
    ensures
        ({
            let started = seq![CronetEventView::EngineStarted];
            let ready = started.push(CronetEventView::RequestReady);
            let under_way = ready.push(CronetEventView::RequestStarted);
            let done = under_way.push(CronetEventView::RequestDone(OutcomeView::Success));
            let none = Seq::<CronetEventView>::empty();
            &&& cronet_answer(config, true, ready) is StartRequest
            &&& cronet_answer(config, true, under_way) is AwaitRequest
            &&& cronet_answer(config, true, done) is AwaitReader
            &&& cronet_answer(config, true, done.push(CronetEventView::ReaderDone)) is Close
            &&& cronet_answer(config, true, none.push(CronetEventView::EngineFailed(code)))
                == CronetActionView::Bail("Failed to start cronet engine: "@ + code)
            &&& cronet_answer(config, true, started.push(CronetEventView::RequestRejected(code)))
                == CronetActionView::Bail("Failed to init cronet request: "@ + code)
            &&& cronet_answer(config, true, ready.push(CronetEventView::RequestStuck(code)))
                == CronetActionView::Bail("Failed to start cronet request: "@ + code)
            &&& cronet_answer(
                config,
                true,
                under_way.push(CronetEventView::RequestDone(OutcomeView::Failure(code))),
            ) == CronetActionView::Bail(code)
            &&& cronet_answer(config, true, under_way.push(CronetEventView::HandlerGone))
                == CronetActionView::Bail("channel closed"@)
            &&& cronet_answer(config, true, done.push(CronetEventView::ReaderFailed(code)))
                == CronetActionView::Bail(code)
            &&& cronet_answer(config, false, none) == CronetActionView::Bail(
                "cronet-rs backend was not enabled at compile time. Please compile with `--features cronet-backend`"@,
            )
        }),
{
    let none = Seq::<CronetEventView>::empty();
    let started = seq![CronetEventView::EngineStarted];
    let ready = started.push(CronetEventView::RequestReady);
    let under_way = ready.push(CronetEventView::RequestStarted);
    let done = under_way.push(CronetEventView::RequestDone(OutcomeView::Success));
    assert(started.drop_last() =~= none);
    assert(ready.drop_last() =~= started);
    assert(under_way.drop_last() =~= ready);
    assert(done.drop_last() =~= under_way);
    assert(cronet_state(config, true, none) == CronetState::StartingEngine);
    assert(cronet_state(config, true, started) == CronetState::InitializingRequest);
    assert(cronet_state(config, true, ready) == CronetState::StartingRequest);
    assert(cronet_state(config, true, under_way) == CronetState::AwaitingRequest);
    assert(cronet_state(config, true, done) == CronetState::AwaitingReader);
    assert(done.push(CronetEventView::ReaderDone).drop_last() =~= done);
    assert(done.push(CronetEventView::ReaderFailed(code)).drop_last() =~= done);
    assert(none.push(CronetEventView::EngineFailed(code)).drop_last() =~= none);
    assert(started.push(CronetEventView::RequestRejected(code)).drop_last() =~= started);
    assert(ready.push(CronetEventView::RequestStuck(code)).drop_last() =~= ready);
    assert(under_way.push(CronetEventView::HandlerGone).drop_last() =~= under_way);
    let failed = CronetEventView::RequestDone(OutcomeView::Failure(code));
    assert(under_way.push(failed).drop_last() =~= under_way);
}

/// What a callback leads to, at whatever place of whatever callbacks it comes: a redirect is
/// followed, the response is read when it has begun and again after each part that the reader
/// took, 8192 bytes at a time, a part that was read is handed to the reader as it is, and a
/// reader that is gone cancels the request.
pub proof fn law_callbacks(callbacks: Seq<CallbackView>, i: int)
    requires
        0 <= i < callbacks.len(),
    ensures
        i < replies(callbacks).len(),
        callbacks[i] is RedirectReceived ==> replies(callbacks)[i] is FollowRedirect,
        callbacks[i] is ResponseStarted ==> replies(callbacks)[i] == ReplyView::Read(8192),
        callbacks[i] == CallbackView::Delivered(true) ==> replies(callbacks)[i] == ReplyView::Read(
            8192,
        ),
        callbacks[i] == CallbackView::Delivered(false) ==> replies(callbacks)[i] is Cancel,
        callbacks[i] matches CallbackView::ReadCompleted(data) ==> replies(callbacks)[i]
            == ReplyView::Deliver(data),
    decreases callbacks.len(),
{
    let front = callbacks.drop_last();
    lemma_replies(callbacks);
    lemma_replies(front);
    if i < callbacks.len() - 1 {
        law_callbacks(front, i);
        assert(replies(callbacks)[i] == replies(front)[i]);
        assert(front[i] == callbacks[i]);
    }
}

/// The first of the callbacks that end a request decides what is reported: success, the
/// failure with its code, or that it was canceled.
pub proof fn law_reports(callbacks: Seq<CallbackView>, i: int, code: Seq<char>)
    requires
        0 <= i < callbacks.len(),
        forall|k: int|
            0 <= k < i ==> !((#[trigger] callbacks[k]) is Succeeded || callbacks[k] is Failed
                || callbacks[k] is Canceled),
    ensures
        i < replies(callbacks).len(),
        callbacks[i] is Succeeded ==> replies(callbacks)[i] == ReplyView::Report(
            OutcomeView::Success,
        ),
        callbacks[i] == CallbackView::Failed(code) ==> replies(callbacks)[i] == ReplyView::Report(
            OutcomeView::Failure("cronet request failed with error code "@ + code),
        ),
        callbacks[i] is Canceled ==> replies(callbacks)[i] == ReplyView::Report(
            OutcomeView::Failure("cronet request canceled"@),
        ),
{
    lemma_replies(callbacks);
    assert forall|k: int| 0 <= k < i implies outcome_of(#[trigger] callbacks[k]) is None by {}
    if outcome_of(callbacks[i]) is Some {
        law_first_outcome_counts(callbacks, i, outcome_of(callbacks[i])->0);
    }
}

/// A reader goes on for as long as there are parts, however many there are: each is printed,
/// and after each the next one is received. It stops when there are no more and not before.
pub proof fn law_reader_goes_on_to_the_end(rec: ReaderRecord, k: int)
    requires
        rec.is_whole(),
        0 <= k < rec.events.len(),
    ensures
        rec.actions[k] is Receive ==> match rec.events[k] {
            ReaderEventView::Part(data) => rec.actions[k + 1] == ReaderActionView::Print(
                lossy(data),
            ),
            ReaderEventView::Ended => rec.actions[k + 1] is Stop,
            _ => rec.actions[k + 1] is Ignore,
        },
        rec.actions[k] is Print && rec.events[k] is Printed ==> rec.actions[k + 1] is Receive,
        rec.actions[k + 1] is Stop ==> rec.events[k] is Ended,
{
    if k > 0 {
        assert(rec.leads_on(k - 1));
    }
    assert(rec.leads_on(k));
}

/// An event that is no answer to what a run waits for changes nothing, and one that is an
/// answer is taken up. The same holds of the reader.
pub proof fn law_cronet_heeds_answers_only(
    config: CronetClientConfig,
    s: CronetState,
    e: CronetEventView,
    rec: ReaderRecord,
    k: int,
)
    requires
        rec.is_whole(),
        0 <= k < rec.events.len(),
    ensures
        cronet_step(config, s, e).1 is Ignore ==> cronet_step(config, s, e).0 == s,
        cronet_step(config, s, e).1 is Ignore <==> match s {
            CronetState::StartingEngine => !(e is EngineStarted || e is EngineFailed),
            CronetState::InitializingRequest => !(e is RequestReady || e is RequestRejected),
            CronetState::StartingRequest => !(e is RequestStarted || e is RequestStuck),
            CronetState::AwaitingRequest => !(e is RequestDone || e is HandlerGone),
            CronetState::AwaitingReader => !(e is ReaderDone || e is ReaderFailed),
            CronetState::Closed => true,
        },
        rec.actions[k + 1] is Ignore ==> rec.states[k + 1] == rec.states[k],
        rec.actions[k] is Receive ==> (rec.actions[k + 1] is Ignore <==> rec.events[k] is Printed),
        rec.actions[k] is Print ==> (rec.actions[k + 1] is Ignore <==> !(rec.events[k] is Printed)),
        rec.actions[k] is Stop ==> rec.actions[k + 1] is Ignore,
{
    if k > 0 {
        assert(rec.leads_on(k - 1));
    }
    assert(rec.leads_on(k));
}

} // verus!
