//! One connection, from its first line to the reply.
//!
//! The library reads no stream and opens no file. It decides: `step` takes the
//! state of a connection and what has just happened, and gives the next state
//! and what is to be done next. Whoever drives it reads the lines, asks the
//! file system, writes the reply, and reports each outcome as an `Event`.

use crate::http::{message_of, parse_request, HttpRequest, ParseHttpRequestError};
use crate::path::{is_within, joined, ResolvedPath, RoutingError, ServingRoot};
use crate::response::{serialized, Response, Status};
use crate::text::{chars_of, slice_of};
use vstd::prelude::*;

verus! {

/// Why a connection was given up.
#[derive(Debug, Clone, Copy, PartialEq, Eq, Structural)]
pub enum ConnectionError {
    /// The stream could not be read or written, or the document that says
    /// that nothing was found could not be read.
    IoFailure,
    /// The lines were no request; the client was told so.
    Rejected(ParseHttpRequestError),
    /// An event came that the state of the connection does not wait for.
    UnexpectedEvent,
}

/// Where a connection stands.
#[derive(Debug, PartialEq, Eq)]
pub enum State {
    /// Lines are being read; these were read so far.
    ReadingRequest(Vec<String>),
    /// The file system is being asked where the requested path leads.
    Routing,
    /// The requested document is being read.
    ReadingFile,
    /// The document that says that nothing was found is being read, for this
    /// reason.
    ReadingNotFound(RoutingError),
    /// The reply is being written.
    WritingResponse,
    /// The reply that turns the request down is being written.
    Rejecting(ParseHttpRequestError),
    /// The reply was written.
    Done,
    /// The connection was given up.
    Failed(ConnectionError),
}

/// What has just happened on a connection.
#[derive(Debug, PartialEq, Eq)]
pub enum Event {
    /// A line was read: here it is, without its end.
    Line(String),
    /// The stream ended.
    EndOfStream,
    /// The path that was asked about leads to this canonical path.
    Canonical(String),
    /// The file was read: these are its contents.
    Contents(String),
    /// The reply was written.
    Written,
    /// What was to be done could not be done.
    Failure,
}

/// What is to be done next on a connection.
#[derive(Debug, PartialEq, Eq)]
pub enum Action {
    /// Read one more line from the stream.
    ReadLine,
    /// Ask the file system for the canonical form of this path.
    Canonicalize(String),
    /// Read this file as text.
    ReadFile(ResolvedPath),
    /// Write this reply to the stream.
    Write(String),
    /// Close the connection: the request was served.
    Close,
    /// Give the connection up.
    Abort(ConnectionError),
}

/// What a `State` holds.
pub enum StateView {
    ReadingRequest(Seq<Seq<char>>),
    Routing,
    ReadingFile,
    ReadingNotFound(RoutingError),
    WritingResponse,
    Rejecting(ParseHttpRequestError),
    Done,
    Failed(ConnectionError),
}

/// What an `Event` holds.
pub enum EventView {
    Line(Seq<char>),
    EndOfStream,
    Canonical(Seq<char>),
    Contents(Seq<char>),
    Written,
    Failure,
}

/// What an `Action` holds.
pub enum ActionView {
    ReadLine,
    Canonicalize(Seq<char>),
    ReadFile(Seq<char>),
    Write(Seq<char>),
    Close,
    Abort(ConnectionError),
}

impl View for State {
    type V = StateView;

    open spec fn view(&self) -> StateView {
        match self {
            State::ReadingRequest(lines) => StateView::ReadingRequest(lines.deep_view()),
            State::Routing => StateView::Routing,
            State::ReadingFile => StateView::ReadingFile,
            State::ReadingNotFound(why) => StateView::ReadingNotFound(*why),
            State::WritingResponse => StateView::WritingResponse,
            State::Rejecting(error) => StateView::Rejecting(*error),
            State::Done => StateView::Done,
            State::Failed(error) => StateView::Failed(*error),
        }
    }
}

impl View for Event {
    type V = EventView;

    open spec fn view(&self) -> EventView {
        match self {
            Event::Line(line) => EventView::Line(line@),
            Event::EndOfStream => EventView::EndOfStream,
            Event::Canonical(path) => EventView::Canonical(path@),
            Event::Contents(text) => EventView::Contents(text@),
            Event::Written => EventView::Written,
            Event::Failure => EventView::Failure,
        }
    }
}

impl View for Action {
    type V = ActionView;

    open spec fn view(&self) -> ActionView {
        match self {
            Action::ReadLine => ActionView::ReadLine,
            Action::Canonicalize(path) => ActionView::Canonicalize(path@),
            Action::ReadFile(path) => ActionView::ReadFile(path@),
            Action::Write(text) => ActionView::Write(text@),
            Action::Close => ActionView::Close,
            Action::Abort(error) => ActionView::Abort(*error),
        }
    }
}

/// The path that a target names below the root: the target without its first
/// character, which for a target like `/a/b.txt` is its leading `/`.
pub open spec fn relative_path(target: Seq<char>) -> Seq<char> {
    if target.len() > 0 {
        target.skip(1)
    } else {
        target
    }
}

/// The connection is given up.
pub open spec fn abort(error: ConnectionError) -> (StateView, ActionView) {
    (StateView::Failed(error), ActionView::Abort(error))
}

/// The request is turned down: the client is told why, in a reply with the
/// status 400 whose body is the message of the error.
pub open spec fn reject(error: ParseHttpRequestError) -> (StateView, ActionView) {
    (
        StateView::Rejecting(error),
        ActionView::Write(serialized(Status::BadRequest, message_of(error))),
    )
}

/// Nothing is served, for the reason `why`: the document that says that
/// nothing was found is read.
pub open spec fn not_found(root: Seq<char>, why: RoutingError) -> (StateView, ActionView) {
    (StateView::ReadingNotFound(why), ActionView::ReadFile(joined(root, "404.html"@)))
}

/// Where a request for `target` leads. `/` asks for `index.html` in the root;
/// any other target names a path below the root, which the file system is
/// asked to resolve.
pub open spec fn route(root: Seq<char>, target: Seq<char>) -> (StateView, ActionView) {
    if target == seq!['/'] {
        (StateView::ReadingFile, ActionView::ReadFile(joined(root, "index.html"@)))
    } else {
        (StateView::Routing, ActionView::Canonicalize(joined(root, relative_path(target))))
    }
}

/// What follows when the lines of a request are in. Without a line there is
/// no status line, and the request is turned down as one with a bad status line.
pub open spec fn dispatch(root: Seq<char>, lines: Seq<Seq<char>>) -> (StateView, ActionView) {
    if lines.len() == 0 {
        reject(ParseHttpRequestError::InvalidStatusLine)
    } else {
        match parse_request(lines) {
            Ok(request) => route(root, request.target),
            Err(error) => reject(error),
        }
    }
}

/// The next state of a connection, and what is to be done next.
///
/// A state that has ended, `Done` or `Failed`, stays as it is. In any other
/// state an event that the state does not wait for gives the connection up.
pub open spec fn next(root: Seq<char>, state: StateView, event: EventView) -> (
    StateView,
    ActionView,
) {
    match state {
        StateView::ReadingRequest(lines) => match event {
            EventView::Line(line) => if line.len() == 0 {
                dispatch(root, lines)
            } else {
                (StateView::ReadingRequest(lines.push(line)), ActionView::ReadLine)
            },
            EventView::EndOfStream => if lines.len() == 0 {
                abort(ConnectionError::IoFailure)
            } else {
                dispatch(root, lines)
            },
            EventView::Failure => abort(ConnectionError::IoFailure),
            _ => abort(ConnectionError::UnexpectedEvent),
        },
        StateView::Routing => match event {
            EventView::Canonical(path) => if is_within(path, root) {
                (StateView::ReadingFile, ActionView::ReadFile(path))
            } else {
                not_found(root, RoutingError::TraversalRejected)
            },
            EventView::Failure => not_found(root, RoutingError::NotFound),
            _ => abort(ConnectionError::UnexpectedEvent),
        },
        StateView::ReadingFile => match event {
            EventView::Contents(body) => (
                StateView::WritingResponse,
                ActionView::Write(serialized(Status::Success, body)),
            ),
            EventView::Failure => not_found(root, RoutingError::NotFound),
            _ => abort(ConnectionError::UnexpectedEvent),
        },
        StateView::ReadingNotFound(_) => match event {
            EventView::Contents(body) => (
                StateView::WritingResponse,
                ActionView::Write(serialized(Status::NotFound, body)),
            ),
            EventView::Failure => abort(ConnectionError::IoFailure),
            _ => abort(ConnectionError::UnexpectedEvent),
        },
        StateView::WritingResponse => match event {
            EventView::Written => (StateView::Done, ActionView::Close),
            EventView::Failure => abort(ConnectionError::IoFailure),
            _ => abort(ConnectionError::UnexpectedEvent),
        },
        StateView::Rejecting(error) => match event {
            EventView::Written => abort(ConnectionError::Rejected(error)),
            EventView::Failure => abort(ConnectionError::IoFailure),
            _ => abort(ConnectionError::UnexpectedEvent),
        },
        StateView::Done => (StateView::Done, ActionView::Close),
        StateView::Failed(error) => abort(error),
    }
}

/// Gives a connection up.
fn give_up(error: ConnectionError) -> (out: (State, Action))
    ensures
        (out.0@, out.1@) == abort(error),
{
    (State::Failed(error), Action::Abort(error))
}

/// Turns a request down.
fn turn_down(error: ParseHttpRequestError) -> (out: (State, Action))
    ensures
        (out.0@, out.1@) == reject(error),
{
    let reply = Response { status: Status::BadRequest, body: error.message() };
    (State::Rejecting(error), Action::Write(reply.serialize()))
}

/// Asks for the document that says that nothing was found.
fn fall_back(root: &ServingRoot, why: RoutingError) -> (out: (State, Action))
    ensures
        (out.0@, out.1@) == not_found(root@, why),
        out.1 matches Action::ReadFile(path) ==> is_within(path@, root@),
{
    (State::ReadingNotFound(why), Action::ReadFile(root.not_found_document()))
}

/// Writes the reply that carries `body`.
fn reply_with(status: Status, body: String) -> (out: (State, Action))
    ensures
        out.0@ == StateView::WritingResponse,
        out.1@ == ActionView::Write(serialized(status, body@)),
{
    let reply = Response { status, body };
    (State::WritingResponse, Action::Write(reply.serialize()))
}

/// Decides where `request` leads: to `index.html` for the target `/`, else
/// to the path that the target names below the root.
pub fn route_request(root: &ServingRoot, request: &HttpRequest) -> (out: (State, Action))
    ensures
        (out.0@, out.1@) == route(root@, request@.target),
        out.1 matches Action::ReadFile(path) ==> is_within(path@, root@),
{
    let target = request.target();
    let chars = chars_of(target);
    let n: usize = chars.len();
    if n == 1 && chars[0] == '/' {
        proof {
            assert(chars@ =~= seq!['/']);
        }
        (State::ReadingFile, Action::ReadFile(root.index_document()))
    } else {
        let relative = if n > 0 {
            slice_of(target, 1, n)
        } else {
            slice_of(target, 0, 0)
        };
        proof {
            assert(relative@ =~= relative_path(target@));
        }
        (State::Routing, Action::Canonicalize(root.join(relative.as_str())))
    }
}

/// Reads the request from its lines and decides where it leads.
pub fn dispatch_request(root: &ServingRoot, lines: Vec<String>) -> (out: (State, Action))
    ensures
        (out.0@, out.1@) == dispatch(root@, lines.deep_view()),
        out.1 matches Action::ReadFile(path) ==> is_within(path@, root@),
{
    if lines.len() == 0 {
        return turn_down(ParseHttpRequestError::InvalidStatusLine);
    }
    match HttpRequest::new(lines) {
        Ok(request) => route_request(root, &request),
        Err(error) => turn_down(error),
    }
}

/// A connection that has just been accepted: nothing was read yet, and the
/// first line is to be read.
pub fn start() -> (out: (State, Action))
    ensures
        out.0@ == StateView::ReadingRequest(Seq::empty()),
        out.1@ == ActionView::ReadLine,
{
    let lines: Vec<String> = Vec::new();
    let state = State::ReadingRequest(lines);
    proof {
        assert(lines.deep_view() =~= Seq::<Seq<char>>::empty());
    }
    (state, Action::ReadLine)
}

/// Takes a connection one step on: from its state and what has just happened
/// to its next state and what is to be done next.
///
/// No file is ever asked for that does not lie in the root or below it.
pub fn step(root: &ServingRoot, state: State, event: Event) -> (out: (State, Action))
    ensures
        (out.0@, out.1@) == next(root@, state@, event@),
        out.1 matches Action::ReadFile(path) ==> is_within(path@, root@),
{
    match state {
        State::ReadingRequest(mut lines) => match event {
            Event::Line(line) => {
                if line.as_str().is_empty() {
                    dispatch_request(root, lines)
                } else {
                    let ghost before = lines.deep_view();
                    lines.push(line);
                    proof {
                        assert(lines.deep_view() =~= before.push(line@));
                    }
                    (State::ReadingRequest(lines), Action::ReadLine)
                }
            },
            Event::EndOfStream => {
                if lines.len() == 0 {
                    give_up(ConnectionError::IoFailure)
                } else {
                    dispatch_request(root, lines)
                }
            },
            Event::Failure => give_up(ConnectionError::IoFailure),
            _ => give_up(ConnectionError::UnexpectedEvent),
        },
        State::Routing => match event {
            Event::Canonical(path) => match root.resolve(path) {
                Ok(resolved) => (State::ReadingFile, Action::ReadFile(resolved)),
                Err(why) => fall_back(root, why),
            },
            Event::Failure => fall_back(root, RoutingError::NotFound),
            _ => give_up(ConnectionError::UnexpectedEvent),
        },
        State::ReadingFile => match event {
            Event::Contents(body) => reply_with(Status::Success, body),
            Event::Failure => fall_back(root, RoutingError::NotFound),
            _ => give_up(ConnectionError::UnexpectedEvent),
        },
        State::ReadingNotFound(_) => match event {
            Event::Contents(body) => reply_with(Status::NotFound, body),
            Event::Failure => give_up(ConnectionError::IoFailure),
            _ => give_up(ConnectionError::UnexpectedEvent),
        },
        State::WritingResponse => match event {
            Event::Written => (State::Done, Action::Close),
            Event::Failure => give_up(ConnectionError::IoFailure),
            _ => give_up(ConnectionError::UnexpectedEvent),
        },
        State::Rejecting(error) => match event {
            Event::Written => give_up(ConnectionError::Rejected(error)),
            Event::Failure => give_up(ConnectionError::IoFailure),
            _ => give_up(ConnectionError::UnexpectedEvent),
        },
        State::Done => (State::Done, Action::Close),
        State::Failed(error) => give_up(error),
    }
}

} // verus!
