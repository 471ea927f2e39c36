//! The course of one GET exchange, as a state machine.
//!
//! Fetching a response takes four steps that reach outside the program: the
//! host is resolved to addresses, a connection is opened to the first of them,
//! the request is sent, and the response is received chunk by chunk until the
//! peer closes the connection. This module performs none of them. It decides
//! what is to be done next: a caller carries out each `Command`, reports what
//! came of it as an `Event`, and is told the next command or the final
//! result.
//!
//! Each stage awaits one kind of event. Any other event counts as the failure
//! of the step that the stage awaits. A lookup that fails is reported as a
//! lookup that finds nothing: either way there is no address to connect to.

use vstd::prelude::*;
use vstd::string::*;
use crate::error::Refusal;
use crate::error::ValidationError;
use crate::http::response_of_bytes;
use crate::http::HttpResponse;
use crate::http::ResponseParts;

verus! {

/// Why an exchange broke off before a response was received.
#[derive(Debug, Clone, Copy, PartialEq, Eq)]
pub enum TransportError {
    /// There is no network to use. No step of an exchange reports this: it
    /// is for a caller that finds so before it opens one.
    NetworkUnavailable,
    /// The lookup of the host failed, or found no address.
    NoAddressFound,
    /// No connection could be opened.
    ConnectFailed,
    /// The request could not be sent.
    SendFailed,
    /// The response could not be received.
    ReceiveFailed,
}

/// Why a GET gave no response.
#[derive(Debug, PartialEq, Eq)]
pub enum ClientError {
    /// The exchange broke off.
    Transport(TransportError),
    /// What was received is no response.
    Validation(ValidationError),
}

/// A `ClientError` with its `ValidationError` seen as its view.
pub enum Failure {
    Transport(TransportError),
    Validation(Refusal),
}

impl View for ClientError {
    type V = Failure;

    open spec fn view(&self) -> Failure {
        match self {
            ClientError::Transport(fault) => Failure::Transport(*fault),
            ClientError::Validation(fault) => Failure::Validation(fault@),
        }
    }
}

/// What the caller is to do next.
#[derive(Debug, PartialEq, Eq)]
pub enum Command {
    /// Resolve `host` to its addresses.
    Resolve { host: String },
    /// Open a connection to the address with index `address` among those
    /// found, at `port`.
    Connect { address: usize, port: u16 },
    /// Send `request` over the connection.
    Send { request: String },
    /// Read the next chunk from the connection.
    Receive,
}

/// A `Command` with each string seen as its characters.
pub enum CommandView {
    Resolve { host: Seq<char> },
    Connect { address: usize, port: u16 },
    Send { request: Seq<char> },
    Receive,
}

impl View for Command {
    type V = CommandView;

    open spec fn view(&self) -> CommandView {
        match self {
            Command::Resolve { host } => CommandView::Resolve { host: host@ },
            Command::Connect { address, port } => CommandView::Connect {
                address: *address,
                port: *port,
            },
            Command::Send { request } => CommandView::Send { request: request@ },
            Command::Receive => CommandView::Receive,
        }
    }
}

/// What came of the command given last.
#[derive(Debug, PartialEq, Eq)]
pub enum Event {
    /// The host resolved to `addresses` addresses.
    Resolved { addresses: usize },
    /// The connection is open.
    Connected,
    /// The request was sent.
    Sent,
    /// `chunk` was read; an empty chunk says that the peer closed the
    /// connection.
    Received { chunk: Vec<u8> },
    /// The command failed.
    Failed,
}

/// An `Event` with its chunk seen as a sequence of bytes.
pub enum EventView {
    Resolved { addresses: usize },
    Connected,
    Sent,
    Received { chunk: Seq<u8> },
    Failed,
}

impl View for Event {
    type V = EventView;

    open spec fn view(&self) -> EventView {
        match self {
            Event::Resolved { addresses } => EventView::Resolved { addresses: *addresses },
            Event::Connected => EventView::Connected,
            Event::Sent => EventView::Sent,
            Event::Received { chunk } => EventView::Received { chunk: chunk@ },
            Event::Failed => EventView::Failed,
        }
    }
}

/// The step that an exchange awaits the outcome of.
#[derive(Debug, Clone, Copy, PartialEq, Eq)]
pub enum Stage {
    Resolving,
    Connecting,
    Sending,
    Receiving,
}

/// An exchange as the contracts see it.
pub struct ExchangeState {
    pub stage: Stage,
    pub host: Seq<char>,
    pub port: u16,
    pub path: Seq<char>,
    pub received: Seq<u8>,
}

/// An exchange under way: what is asked for, how far it has come, and the
/// bytes received so far.
#[derive(Debug, PartialEq, Eq)]
pub struct Exchange {
    stage: Stage,
    host: String,
    port: u16,
    path: String,
    received: Vec<u8>,
}

impl View for Exchange {
    type V = ExchangeState;

    closed spec fn view(&self) -> ExchangeState {
        ExchangeState {
            stage: self.stage,
            host: self.host@,
            port: self.port,
            path: self.path@,
            received: self.received@,
        }
    }
}

/// How an exchange goes on after an event.
#[derive(Debug, PartialEq, Eq)]
pub enum Step {
    /// The exchange goes on: the caller carries out the command.
    Next(Exchange, Command),
    /// The exchange is over, with a response or without.
    Done(Result<HttpResponse, ClientError>),
}

/// A `Step` with its parts seen as their views.
pub enum StepView {
    Next(ExchangeState, CommandView),
    Done(Result<ResponseParts, Failure>),
}

impl View for Step {
    type V = StepView;

    open spec fn view(&self) -> StepView {
        match self {
            Step::Next(exchange, command) => StepView::Next(exchange@, command@),
            Step::Done(Ok(response)) => StepView::Done(Ok(response@)),
            Step::Done(Err(fault)) => StepView::Done(Err(fault@)),
        }
    }
}

/// The request for `path` on `host`: a GET request line, and the headers
/// `Host`, `Accept` and `Connection`, closed by a blank line.
pub open spec fn request_of(host: Seq<char>, path: Seq<char>) -> Seq<char> {
    "GET /"@ + path + " HTTP/1.1\nHost: "@ + host
        + "\nAccept: text/html\nConnection: close\n\n"@
}

/// The exchange that asks for `path` on `host` at `port`, before its first
/// step.
pub open spec fn opening(host: Seq<char>, port: u16, path: Seq<char>) -> ExchangeState {
    ExchangeState { stage: Stage::Resolving, host, port, path, received: Seq::empty() }
}

/// The exchange broken off with `fault`.
pub open spec fn broken(fault: TransportError) -> StepView {
    StepView::Done(Err(Failure::Transport(fault)))
}

/// How the exchange `state` goes on after `event`.
///
/// A host that resolved is connected to at its first address. One that
/// resolved to nothing is given up, and so is one whose lookup failed, as
/// having no address. Once connected, the request is sent; once
/// it is sent, chunks are received and gathered until an empty one comes, and
/// the bytes gathered are then read as a response.
pub open spec fn step_of(state: ExchangeState, event: EventView) -> StepView {
    match state.stage {
        Stage::Resolving => match event {
            EventView::Resolved { addresses } => if addresses == 0 {
                broken(TransportError::NoAddressFound)
            } else {
                StepView::Next(
                    ExchangeState { stage: Stage::Connecting, ..state },
                    CommandView::Connect { address: 0, port: state.port },
                )
            },
            _ => broken(TransportError::NoAddressFound),
        },
        Stage::Connecting => match event {
            EventView::Connected => StepView::Next(
                ExchangeState { stage: Stage::Sending, ..state },
                CommandView::Send { request: request_of(state.host, state.path) },
            ),
            _ => broken(TransportError::ConnectFailed),
        },
        Stage::Sending => match event {
            EventView::Sent => StepView::Next(
                ExchangeState { stage: Stage::Receiving, ..state },
                CommandView::Receive,
            ),
            _ => broken(TransportError::SendFailed),
        },
        Stage::Receiving => match event {
            EventView::Received { chunk } => if chunk.len() == 0 {
                StepView::Done(
                    match response_of_bytes(state.received) {
                        Ok(parts) => Ok(parts),
                        Err(fault) => Err(Failure::Validation(fault)),
                    },
                )
            } else {
                StepView::Next(
                    ExchangeState { received: state.received + chunk, ..state },
                    CommandView::Receive,
                )
            },
            _ => broken(TransportError::ReceiveFailed),
        },
    }
}

/// While the host is being resolved, a lookup that failed and a lookup that
/// found no address end the exchange alike, with `NoAddressFound`, and no
/// further command is given.
pub proof fn lemma_lookup_without_address(state: ExchangeState, event: EventView)
    requires
        state.stage == Stage::Resolving,
        event == EventView::Failed || event == (EventView::Resolved { addresses: 0 }),
    ensures
        step_of(state, event) == broken(TransportError::NoAddressFound),
{
}

/// A client that fetches responses with GET.
pub struct HttpClient {}

impl HttpClient {
    pub fn new() -> (client: HttpClient) {
        HttpClient {  }
    }

    /// Opens the exchange that asks for `path` on `host` at `port`. Its first
    /// command is to resolve the host.
    pub fn begin(&self, host: String, port: u16, path: String) -> (step: Step)
        ensures
            step@ == StepView::Next(opening(host@, port, path@), CommandView::Resolve { host: host@ }),
    {
        let command = Command::Resolve { host: host.clone() };
        Step::Next(
            Exchange { stage: Stage::Resolving, host, port, path, received: Vec::new() },
            command,
        )
    }
}

impl Exchange {
    /// Goes on with the exchange after `event`.
    pub fn advance(self, event: Event) -> (step: Step)
        ensures
            step@ == step_of(self@, event@),
    {
        match self.stage {
            Stage::Resolving => match event {
                Event::Resolved { addresses } => {
                    if addresses == 0 {
                        give_up(TransportError::NoAddressFound)
                    } else {
                        let command = Command::Connect { address: 0, port: self.port };
                        Step::Next(
                            Exchange {
                                stage: Stage::Connecting,
                                host: self.host,
                                port: self.port,
                                path: self.path,
                                received: self.received,
                            },
                            command,
                        )
                    }
                },
                _ => give_up(TransportError::NoAddressFound),
            },
            Stage::Connecting => match event {
                Event::Connected => {
                    let command = Command::Send {
                        request: build_request(self.host.as_str(), self.path.as_str()),
                    };
                    Step::Next(
                        Exchange {
                            stage: Stage::Sending,
                            host: self.host,
                            port: self.port,
                            path: self.path,
                            received: self.received,
                        },
                        command,
                    )
                },
                _ => give_up(TransportError::ConnectFailed),
            },
            Stage::Sending => match event {
                Event::Sent => Step::Next(
                    Exchange {
                        stage: Stage::Receiving,
                        host: self.host,
                        port: self.port,
                        path: self.path,
                        received: self.received,
                    },
                    Command::Receive,
                ),
                _ => give_up(TransportError::SendFailed),
            },
            Stage::Receiving => match event {
                Event::Received { chunk } => {
                    if chunk.len() == 0 {
                        match HttpResponse::from_bytes(self.received.as_slice()) {
                            Ok(response) => Step::Done(Ok(response)),
                            Err(fault) => Step::Done(Err(ClientError::Validation(fault))),
                        }
                    } else {
                        let mut received: Vec<u8> = self.received;
                        let mut chunk: Vec<u8> = chunk;
                        received.append(&mut chunk);
                        Step::Next(
                            Exchange {
                                stage: Stage::Receiving,
                                host: self.host,
                                port: self.port,
                                path: self.path,
                                received,
                            },
                            Command::Receive,
                        )
                    }
                },
                _ => give_up(TransportError::ReceiveFailed),
            },
        }
    }
}

/// The end of an exchange that broke off with `fault`.
fn give_up(fault: TransportError) -> (step: Step)
    ensures
        step@ == broken(fault),
{
    Step::Done(Err(ClientError::Transport(fault)))
}

/// Writes the request for `path` on `host`.
pub fn build_request(host: &str, path: &str) -> (request: String)
    ensures
        request@ == request_of(host@, path@),
{
    let mut request: String = "GET /".to_owned();
    request.append(path);
    request.append(" HTTP/1.1\nHost: ");
    request.append(host);
    request.append("\nAccept: text/html\nConnection: close\n\n");
    request
}

} // verus!
