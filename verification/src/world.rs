//! What a client gets, told over a model of the file system.
//!
//! The model holds what the file system would say if it were asked: where a
//! path leads, and what a file holds. A connection is run against it in
//! thought, step by step, and the laws below say which reply is written.

use crate::http::{message_of, parse_request};
use crate::path::{
    is_normal, is_within, joined, lemma_document_names, lemma_joined_file_name, RoutingError,
};
use crate::response::{
    byte_len, content_length, decimal, decimal_value, head, lemma_serialized_is_injective,
    lemma_serialized_round_trip, serialized, split_once, status_line, Status,
};
use crate::server::{
    dispatch, next, not_found, relative_path, ActionView, EventView, StateView,
};
use vstd::prelude::*;

verus! {

/// The file system, as far as a connection can ask about it.
pub struct World {
    /// For each path that can be resolved, the canonical path that it leads to.
    pub canonical: Map<Seq<char>, Seq<char>>,
    /// For each file that can be read as text, its contents.
    pub files: Map<Seq<char>, Seq<char>>,
}

impl World {
    /// What comes back when the canonical form of `path` is asked for.
    pub open spec fn resolve(self, path: Seq<char>) -> EventView {
        if self.canonical.contains_key(path) {
            EventView::Canonical(self.canonical[path])
        } else {
            EventView::Failure
        }
    }

    /// What comes back when the file at `path` is read.
    pub open spec fn read(self, path: Seq<char>) -> EventView {
        if self.files.contains_key(path) {
            EventView::Contents(self.files[path])
        } else {
            EventView::Failure
        }
    }
}

/// The reply that is written when a connection that stands at `at` is driven
/// on for at most `steps` questions to the file system; `None` where it ends,
/// or runs out of steps, without a reply.
pub open spec fn reply_after(
    root: Seq<char>,
    world: World,
    at: (StateView, ActionView),
    steps: nat,
) -> Option<Seq<char>>
    decreases steps,
{
    match at.1 {
        ActionView::Write(text) => Some(text),
        ActionView::Canonicalize(path) => if steps == 0 {
            None
        } else {
            reply_after(root, world, next(root, at.0, world.resolve(path)), (steps - 1) as nat)
        },
        ActionView::ReadFile(path) => if steps == 0 {
            None
        } else {
            reply_after(root, world, next(root, at.0, world.read(path)), (steps - 1) as nat)
        },
        _ => None,
    }
}

/// The reply to the request that `lines` spell. Three questions are the most
/// that a request takes: where its path leads, what the file holds, and what
/// the document holds that says that nothing was found.
pub open spec fn reply_to(root: Seq<char>, world: World, lines: Seq<Seq<char>>) -> Option<
    Seq<char>,
> {
    reply_after(root, world, dispatch(root, lines), 3)
}

/// The reply where nothing was found: the status 404 with what `404.html` in
/// the root holds, and no reply at all where that document cannot be read.
pub open spec fn not_found_reply(root: Seq<char>, world: World) -> Option<Seq<char>> {
    let missing = joined(root, "404.html"@);
    if world.files.contains_key(missing) {
        Some(serialized(Status::NotFound, world.files[missing]))
    } else {
        None
    }
}

/// A request for `/` is answered with the status 200 and a body if and only if
/// `index.html` in the root can be read and holds that body. Where it cannot
/// be read, the reply is the one for what was not found.
pub proof fn lemma_request_for_root(
    root: Seq<char>,
    world: World,
    lines: Seq<Seq<char>>,
    body: Seq<char>,
)
    requires
        lines.len() > 0,
        parse_request(lines) is Ok,
        parse_request(lines)->Ok_0.target == seq!['/'],
    ensures
        ({
            let index = joined(root, "index.html"@);
            let reply = reply_to(root, world, lines);
            &&& reply == Some(serialized(Status::Success, body)) <==> world.files.contains_key(
                index,
            ) && world.files[index] == body
            &&& !world.files.contains_key(index) ==> reply == not_found_reply(root, world)
        }),
{
    let index = joined(root, "index.html"@);
    let missing = joined(root, "404.html"@);
    let first = dispatch(root, lines);
    assert(first == (StateView::ReadingFile, ActionView::ReadFile(index)));
    let second = next(root, first.0, world.read(index));
    assert(reply_to(root, world, lines) == reply_after(root, world, second, 2));
    if world.files.contains_key(index) {
        assert(reply_to(root, world, lines) == Some(
            serialized(Status::Success, world.files[index]),
        ));
        if reply_to(root, world, lines) == Some(serialized(Status::Success, body)) {
            lemma_serialized_is_injective(Status::Success, world.files[index], Status::Success, body);
        }
    } else {
        assert(second == (
            StateView::ReadingNotFound(RoutingError::NotFound),
            ActionView::ReadFile(missing),
        ));
        let third = next(root, second.0, world.read(missing));
        assert(reply_after(root, world, second, 2) == reply_after(root, world, third, 1));
        if world.files.contains_key(missing) {
            assert(reply_to(root, world, lines) == Some(
                serialized(Status::NotFound, world.files[missing]),
            ));
            if reply_to(root, world, lines) == Some(serialized(Status::Success, body)) {
                lemma_serialized_is_injective(
                    Status::NotFound,
                    world.files[missing],
                    Status::Success,
                    body,
                );
            }
        }
    }
}

/// Whether the request for `target` finds a document: its path leads to a
/// file in the root or below it, and that file can be read.
pub open spec fn finds_document(root: Seq<char>, world: World, target: Seq<char>) -> bool {
    let asked = joined(root, relative_path(target));
    &&& world.canonical.contains_key(asked)
    &&& is_within(world.canonical[asked], root)
    &&& world.files.contains_key(world.canonical[asked])
}

/// A request that finds no document is answered as one for what was not
/// found, and never with the status 200.
pub proof fn lemma_request_not_served(
    root: Seq<char>,
    world: World,
    lines: Seq<Seq<char>>,
    body: Seq<char>,
)
    requires
        lines.len() > 0,
        parse_request(lines) is Ok,
        parse_request(lines)->Ok_0.target != seq!['/'],
        !finds_document(root, world, parse_request(lines)->Ok_0.target),
    ensures
        reply_to(root, world, lines) == not_found_reply(root, world),
        reply_to(root, world, lines) != Some(serialized(Status::Success, body)),
{
    let asked = joined(root, relative_path(parse_request(lines)->Ok_0.target));
    let missing = joined(root, "404.html"@);
    let first = dispatch(root, lines);
    assert(first == (StateView::Routing, ActionView::Canonicalize(asked)));
    let second = next(root, first.0, world.resolve(asked));
    assert(reply_to(root, world, lines) == reply_after(root, world, second, 2));
    if world.canonical.contains_key(asked) && is_within(world.canonical[asked], root) {
        let found = world.canonical[asked];
        assert(second == (StateView::ReadingFile, ActionView::ReadFile(found)));
        let third = next(root, second.0, world.read(found));
        assert(third == not_found(root, RoutingError::NotFound));
        assert(reply_after(root, world, second, 2) == reply_after(root, world, third, 1));
        let fourth = next(root, third.0, world.read(missing));
        assert(reply_after(root, world, third, 1) == reply_after(root, world, fourth, 0));
    } else {
        assert(second.1 == ActionView::ReadFile(missing));
        assert(second.0 is ReadingNotFound);
        let third = next(root, second.0, world.read(missing));
        assert(reply_after(root, world, second, 2) == reply_after(root, world, third, 1));
    }
    if world.files.contains_key(missing) {
        if reply_to(root, world, lines) == Some(serialized(Status::Success, body)) {
            lemma_serialized_is_injective(
                Status::NotFound,
                world.files[missing],
                Status::Success,
                body,
            );
        }
    }
}

/// A request whose path leads out of the root is turned away for that reason
/// and answered as one for what was not found: with the status 404 and what
/// `404.html` holds, never with the status 200, whatever the file that the
/// path leads to holds.
pub proof fn lemma_request_outside_root(
    root: Seq<char>,
    world: World,
    lines: Seq<Seq<char>>,
    body: Seq<char>,
)
    requires
        lines.len() > 0,
        parse_request(lines) is Ok,
        parse_request(lines)->Ok_0.target != seq!['/'],
        ({
            let asked = joined(root, relative_path(parse_request(lines)->Ok_0.target));
            world.canonical.contains_key(asked) && !is_within(world.canonical[asked], root)
        }),
    ensures
        ({
            let asked = joined(root, relative_path(parse_request(lines)->Ok_0.target));
            next(root, StateView::Routing, world.resolve(asked)) == not_found(
                root,
                RoutingError::TraversalRejected,
            )
        }),
        reply_to(root, world, lines) == not_found_reply(root, world),
        reply_to(root, world, lines) != Some(serialized(Status::Success, body)),
{
    lemma_request_not_served(root, world, lines, body);
}

/// A request whose path leads to a file in the root or below it that can be
/// read is answered with the status 200 and what the file holds; and the
/// header of the reply declares the number of bytes of that body.
pub proof fn lemma_request_for_file(root: Seq<char>, world: World, lines: Seq<Seq<char>>)
    requires
        lines.len() > 0,
        parse_request(lines) is Ok,
        parse_request(lines)->Ok_0.target != seq!['/'],
        finds_document(root, world, parse_request(lines)->Ok_0.target),
    ensures
        ({
            let asked = joined(root, relative_path(parse_request(lines)->Ok_0.target));
            let body = world.files[world.canonical[asked]];
            &&& reply_to(root, world, lines) == Some(serialized(Status::Success, body))
            &&& split_once(serialized(Status::Success, body), "\r\n\r\n"@) == Some(
                (head(Status::Success, body), body),
            )
            &&& split_once(head(Status::Success, body), "\r\n"@) == Some(
                (status_line(Status::Success), content_length(body)),
            )
            &&& content_length(body) == "Content-Length: "@ + decimal(byte_len(body))
            &&& decimal_value(decimal(byte_len(body))) == byte_len(body)
        }),
{
    let asked = joined(root, relative_path(parse_request(lines)->Ok_0.target));
    let found = world.canonical[asked];
    let body = world.files[found];
    let first = dispatch(root, lines);
    assert(first == (StateView::Routing, ActionView::Canonicalize(asked)));
    let second = next(root, first.0, world.resolve(asked));
    assert(second == (StateView::ReadingFile, ActionView::ReadFile(found)));
    assert(reply_to(root, world, lines) == reply_after(root, world, second, 2));
    let third = next(root, second.0, world.read(found));
    assert(reply_after(root, world, second, 2) == reply_after(root, world, third, 1));
    lemma_serialized_round_trip(Status::Success, body);
}

/// Lines that are no request are answered with the status 400 and the message
/// of the error.
pub proof fn lemma_request_rejected(root: Seq<char>, world: World, lines: Seq<Seq<char>>)
    requires
        lines.len() > 0,
        parse_request(lines) is Err,
    ensures
        reply_to(root, world, lines) == Some(
            serialized(Status::BadRequest, message_of(parse_request(lines)->Err_0)),
        ),
{
}

/// Whatever happens, no file is asked for that does not lie in the root or
/// below it.
pub proof fn lemma_reads_stay_within(root: Seq<char>, state: StateView, event: EventView)
    requires
        is_normal(root),
    ensures
        next(root, state, event).1 matches ActionView::ReadFile(path) ==> is_within(path, root),
{
    lemma_document_names();
    lemma_joined_file_name(root, "index.html"@);
    lemma_joined_file_name(root, "404.html"@);
}

} // verus!
