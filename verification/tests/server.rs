use http_server::http::ParseHttpRequestError;
use http_server::path::{RoutingError, ServingRoot};
use http_server::server::{
    dispatch_request, start, step, Action, ConnectionError, Event, State,
};
use std::collections::HashMap;

/// A file system in memory: where paths lead, and what files hold.
struct Disk {
    canonical: HashMap<String, String>,
    files: HashMap<String, String>,
}

fn disk(canonical: &[(&str, &str)], files: &[(&str, &str)]) -> Disk {
    Disk {
        canonical: canonical.iter().map(|(k, v)| ((*k).to_owned(), (*v).to_owned())).collect(),
        files: files.iter().map(|(k, v)| ((*k).to_owned(), (*v).to_owned())).collect(),
    }
}

fn root() -> ServingRoot {
    ServingRoot::new("/srv/www".to_owned()).expect("a root")
}

/// What a connection did: the paths it asked about, the files it read, the
/// reply it wrote, and how it ended.
struct Run {
    asked: Vec<String>,
    read: Vec<String>,
    written: Option<String>,
    end: State,
}

/// Drives one connection over `lines`, which the stream gives one by one before
/// it ends.
fn run(disk: &Disk, lines: &[&str]) -> Run {
    let root = root();
    let mut stream = lines.iter();
    let mut out = Run { asked: Vec::new(), read: Vec::new(), written: None, end: State::Done };
    let (mut state, mut action) = start();
    for _ in 0..1000 {
        let event = match &action {
            Action::ReadLine => match stream.next() {
                Some(line) => Event::Line((*line).to_owned()),
                None => Event::EndOfStream,
            },
            Action::Canonicalize(path) => {
                out.asked.push(path.clone());
                match disk.canonical.get(path) {
                    Some(found) => Event::Canonical(found.clone()),
                    None => Event::Failure,
                }
            }
            Action::ReadFile(path) => {
                out.read.push(path.as_str().to_owned());
                match disk.files.get(path.as_str()) {
                    Some(text) => Event::Contents(text.clone()),
                    None => Event::Failure,
                }
            }
            Action::Write(text) => {
                assert!(out.written.is_none());
                out.written = Some(text.clone());
                Event::Written
            }
            Action::Close => {
                assert_eq!(state, State::Done);
                out.end = state;
                return out;
            }
            Action::Abort(error) => {
                assert_eq!(state, State::Failed(*error));
                out.end = state;
                return out;
            }
        };
        let (next_state, next_action) = step(&root, state, event);
        state = next_state;
        action = next_action;
    }
    panic!("the connection did not end");
}

fn site() -> Disk {
    disk(
        &[
            ("/srv/www/foo.txt", "/srv/www/foo.txt"),
            ("/srv/www/a/../foo.txt", "/srv/www/foo.txt"),
            ("/srv/www/link", "/srv/www/foo.txt"),
            ("/srv/www/../../etc/passwd", "/etc/passwd"),
            ("/srv/www/escape", "/etc/passwd"),
            ("/etc/passwd", "/etc/passwd"),
            ("/srv/www/sibling", "/srv/www-old/secret.txt"),
            ("/srv/www/dir", "/srv/www/dir"),
            ("/srv/www/", "/srv/www"),
        ],
        &[
            ("/srv/www/index.html", "<h1>home</h1>"),
            ("/srv/www/404.html", "<h1>not found</h1>"),
            ("/srv/www/foo.txt", "foo \u{e9}\n"),
            ("/etc/passwd", "root:x:0:0"),
            ("/srv/www-old/secret.txt", "secret"),
        ],
    )
}

const NOT_FOUND: &str = "HTTP/1.1 404 NOT FOUND\r\nContent-Length: 18\r\n\r\n<h1>not found</h1>";

#[test]
fn a_connection_starts_by_reading_a_line() {
    let (state, action) = start();
    assert_eq!(state, State::ReadingRequest(Vec::new()));
    assert_eq!(action, Action::ReadLine);
}

#[test]
fn lines_are_gathered_up_to_the_empty_line() {
    let root = root();
    let (state, _) = start();
    let (state, action) = step(&root, state, Event::Line("GET /foo.txt HTTP/1.1".to_owned()));
    assert_eq!(action, Action::ReadLine);
    let (state, action) = step(&root, state, Event::Line("Host: localhost".to_owned()));
    assert_eq!(action, Action::ReadLine);
    assert_eq!(
        state,
        State::ReadingRequest(vec!["GET /foo.txt HTTP/1.1".to_owned(), "Host: localhost".to_owned()])
    );
    let (state, action) = step(&root, state, Event::Line(String::new()));
    assert_eq!(state, State::Routing);
    assert_eq!(action, Action::Canonicalize("/srv/www/foo.txt".to_owned()));
}

#[test]
fn what_follows_the_empty_line_is_not_read() {
    let done = run(&site(), &["GET / HTTP/1.1", "", "GET /foo.txt HTTP/1.1", ""]);
    assert_eq!(done.read, vec!["/srv/www/index.html".to_owned()]);
    assert_eq!(done.end, State::Done);
}

#[test]
fn the_root_target_is_answered_with_the_index() {
    let done = run(&site(), &["GET / HTTP/1.1", ""]);
    assert_eq!(done.asked, Vec::<String>::new());
    assert_eq!(done.read, vec!["/srv/www/index.html".to_owned()]);
    assert_eq!(
        done.written.as_deref(),
        Some("HTTP/1.1 200 OK\r\nContent-Length: 13\r\n\r\n<h1>home</h1>")
    );
    assert_eq!(done.end, State::Done);
}

#[test]
fn the_root_target_without_an_index_is_not_found() {
    let mut bare = site();
    bare.files.remove("/srv/www/index.html");
    let done = run(&bare, &["GET / HTTP/1.1", ""]);
    assert_eq!(done.read, vec!["/srv/www/index.html".to_owned(), "/srv/www/404.html".to_owned()]);
    assert_eq!(done.written.as_deref(), Some(NOT_FOUND));
    assert_eq!(done.end, State::Done);
}

#[test]
fn a_file_below_the_root_is_served() {
    let done = run(&site(), &["GET /foo.txt HTTP/1.1", "Host: localhost", ""]);
    assert_eq!(done.asked, vec!["/srv/www/foo.txt".to_owned()]);
    assert_eq!(done.read, vec!["/srv/www/foo.txt".to_owned()]);
    assert_eq!(
        done.written.as_deref(),
        Some("HTTP/1.1 200 OK\r\nContent-Length: 7\r\n\r\nfoo \u{e9}\n")
    );
    assert_eq!(done.end, State::Done);
}

#[test]
fn dots_and_links_that_stay_below_the_root_are_served() {
    for target in ["/a/../foo.txt", "/link"] {
        let line = format!("GET {} HTTP/1.1", target);
        let done = run(&site(), &[line.as_str(), ""]);
        assert_eq!(done.read, vec!["/srv/www/foo.txt".to_owned()]);
        assert_eq!(
            done.written.as_deref(),
            Some("HTTP/1.1 200 OK\r\nContent-Length: 7\r\n\r\nfoo \u{e9}\n")
        );
    }
}

#[test]
fn a_path_that_leaves_the_root_is_not_found() {
    for target in ["/../../etc/passwd", "/escape", "//etc/passwd", "/sibling"] {
        let line = format!("GET {} HTTP/1.1", target);
        let done = run(&site(), &[line.as_str(), ""]);
        assert_eq!(done.read, vec!["/srv/www/404.html".to_owned()], "{}", target);
        assert_eq!(done.written.as_deref(), Some(NOT_FOUND), "{}", target);
        assert_eq!(done.end, State::Done);
    }
}

#[test]
fn an_absolute_path_in_the_target_stands_for_itself() {
    let done = run(&site(), &["GET //etc/passwd HTTP/1.1", ""]);
    assert_eq!(done.asked, vec!["/etc/passwd".to_owned()]);
    assert_eq!(done.written.as_deref(), Some(NOT_FOUND));
}

#[test]
fn a_path_that_does_not_resolve_is_not_found() {
    let done = run(&site(), &["GET /nothing.txt HTTP/1.1", ""]);
    assert_eq!(done.asked, vec!["/srv/www/nothing.txt".to_owned()]);
    assert_eq!(done.read, vec!["/srv/www/404.html".to_owned()]);
    assert_eq!(done.written.as_deref(), Some(NOT_FOUND));
    assert_eq!(done.end, State::Done);
}

#[test]
fn a_path_that_cannot_be_read_is_not_found() {
    let done = run(&site(), &["GET /dir HTTP/1.1", ""]);
    assert_eq!(done.read, vec!["/srv/www/dir".to_owned(), "/srv/www/404.html".to_owned()]);
    assert_eq!(done.written.as_deref(), Some(NOT_FOUND));
}

#[test]
fn without_the_document_for_what_is_not_found_the_connection_fails() {
    let mut bare = site();
    bare.files.remove("/srv/www/404.html");
    let done = run(&bare, &["GET /nothing.txt HTTP/1.1", ""]);
    assert_eq!(done.written, None);
    assert_eq!(done.end, State::Failed(ConnectionError::IoFailure));
}

#[test]
fn the_first_character_of_the_target_is_left_out() {
    let root = root();
    let (_, action) =
        dispatch_request(&root, vec!["GET /a/b.txt HTTP/1.1".to_owned()]);
    assert_eq!(action, Action::Canonicalize("/srv/www/a/b.txt".to_owned()));
    let (_, action) = dispatch_request(&root, vec!["GET foo HTTP/1.1".to_owned()]);
    assert_eq!(action, Action::Canonicalize("/srv/www/oo".to_owned()));
    let (_, action) = dispatch_request(&root, vec!["GET \u{e9}t\u{e9} HTTP/1.1".to_owned()]);
    assert_eq!(action, Action::Canonicalize("/srv/www/t\u{e9}".to_owned()));
    let (_, action) = dispatch_request(&root, vec!["GET x HTTP/1.1".to_owned()]);
    assert_eq!(action, Action::Canonicalize("/srv/www/".to_owned()));
}

#[test]
fn lines_that_are_no_request_are_turned_down() {
    let cases = [
        ("GET /", ParseHttpRequestError::InvalidStatusLine, "Invalid status line"),
        ("DROP / HTTP/1.1", ParseHttpRequestError::InvalidMethod, "Invalid method"),
    ];
    for (line, error, message) in cases {
        let done = run(&site(), &[line, ""]);
        let expected =
            format!("HTTP/1.1 400 BAD REQUEST\r\nContent-Length: {}\r\n\r\n{}", message.len(), message);
        assert_eq!(done.written, Some(expected));
        assert_eq!(done.read, Vec::<String>::new());
        assert_eq!(done.end, State::Failed(ConnectionError::Rejected(error)));
    }
    let done = run(&site(), &["GET / HTTP/1.1", "no colon here", ""]);
    assert_eq!(
        done.written.as_deref(),
        Some("HTTP/1.1 400 BAD REQUEST\r\nContent-Length: 19\r\n\r\nInvalid header line")
    );
    assert_eq!(
        done.end,
        State::Failed(ConnectionError::Rejected(ParseHttpRequestError::InvalidHeaderLine))
    );
}

#[test]
fn an_empty_first_line_is_a_bad_status_line() {
    let done = run(&site(), &["", "GET / HTTP/1.1", ""]);
    assert_eq!(
        done.written.as_deref(),
        Some("HTTP/1.1 400 BAD REQUEST\r\nContent-Length: 19\r\n\r\nInvalid status line")
    );
    assert_eq!(
        done.end,
        State::Failed(ConnectionError::Rejected(ParseHttpRequestError::InvalidStatusLine))
    );
}

#[test]
fn a_stream_that_ends_before_a_line_fails() {
    let done = run(&site(), &[]);
    assert_eq!(done.written, None);
    assert_eq!(done.end, State::Failed(ConnectionError::IoFailure));
}

#[test]
fn a_stream_that_ends_after_the_lines_is_a_request() {
    let done = run(&site(), &["GET / HTTP/1.1", "Host: localhost"]);
    assert_eq!(
        done.written.as_deref(),
        Some("HTTP/1.1 200 OK\r\nContent-Length: 13\r\n\r\n<h1>home</h1>")
    );
    assert_eq!(done.end, State::Done);
}

#[test]
fn the_reason_for_what_is_not_found_is_kept() {
    let root = root();
    let (state, action) = step(&root, State::Routing, Event::Canonical("/etc/passwd".to_owned()));
    assert_eq!(state, State::ReadingNotFound(RoutingError::TraversalRejected));
    assert!(matches!(&action, Action::ReadFile(path) if path.as_str() == "/srv/www/404.html"));
    let (state, action) = step(&root, State::Routing, Event::Failure);
    assert_eq!(state, State::ReadingNotFound(RoutingError::NotFound));
    assert!(matches!(&action, Action::ReadFile(path) if path.as_str() == "/srv/www/404.html"));
    let (state, action) = step(&root, State::ReadingFile, Event::Failure);
    assert_eq!(state, State::ReadingNotFound(RoutingError::NotFound));
    assert!(matches!(&action, Action::ReadFile(path) if path.as_str() == "/srv/www/404.html"));
    let (state, action) = step(&root, State::Routing, Event::Canonical("/srv/www/a".to_owned()));
    assert_eq!(state, State::ReadingFile);
    assert!(matches!(&action, Action::ReadFile(path) if path.as_str() == "/srv/www/a"));
}

#[test]
fn a_line_that_cannot_be_read_fails() {
    let root = root();
    let (state, _) = start();
    let (state, _) = step(&root, state, Event::Line("GET / HTTP/1.1".to_owned()));
    let (state, action) = step(&root, state, Event::Failure);
    assert_eq!(state, State::Failed(ConnectionError::IoFailure));
    assert_eq!(action, Action::Abort(ConnectionError::IoFailure));
}

#[test]
fn a_reply_that_cannot_be_written_fails() {
    let root = root();
    let (state, action) = step(&root, State::WritingResponse, Event::Failure);
    assert_eq!(state, State::Failed(ConnectionError::IoFailure));
    assert_eq!(action, Action::Abort(ConnectionError::IoFailure));
    let rejecting = State::Rejecting(ParseHttpRequestError::InvalidMethod);
    let (state, action) = step(&root, rejecting, Event::Failure);
    assert_eq!(state, State::Failed(ConnectionError::IoFailure));
    assert_eq!(action, Action::Abort(ConnectionError::IoFailure));
}

#[test]
fn an_event_out_of_turn_gives_the_connection_up() {
    let root = root();
    let cases = [
        (State::ReadingRequest(Vec::new()), Event::Written),
        (State::ReadingRequest(Vec::new()), Event::Contents("x".to_owned())),
        (State::Routing, Event::Line("GET / HTTP/1.1".to_owned())),
        (State::Routing, Event::Contents("x".to_owned())),
        (State::ReadingFile, Event::Canonical("/srv/www/x".to_owned())),
        (State::ReadingNotFound(RoutingError::NotFound), Event::Written),
        (State::WritingResponse, Event::EndOfStream),
        (State::Rejecting(ParseHttpRequestError::InvalidMethod), Event::Contents("x".to_owned())),
    ];
    for (state, event) in cases {
        let (state, action) = step(&root, state, event);
        assert_eq!(state, State::Failed(ConnectionError::UnexpectedEvent));
        assert_eq!(action, Action::Abort(ConnectionError::UnexpectedEvent));
    }
}

#[test]
fn a_connection_that_has_ended_stays_as_it_is() {
    let root = root();
    let (state, action) = step(&root, State::Done, Event::Line("GET / HTTP/1.1".to_owned()));
    assert_eq!(state, State::Done);
    assert_eq!(action, Action::Close);
    let failed = State::Failed(ConnectionError::Rejected(ParseHttpRequestError::InvalidMethod));
    let (state, action) = step(&root, failed, Event::Written);
    assert_eq!(
        state,
        State::Failed(ConnectionError::Rejected(ParseHttpRequestError::InvalidMethod))
    );
    assert_eq!(
        action,
        Action::Abort(ConnectionError::Rejected(ParseHttpRequestError::InvalidMethod))
    );
}

#[test]
fn no_file_outside_the_root_is_ever_read() {
    let targets = [
        "/", "/foo.txt", "/../../etc/passwd", "/escape", "//etc/passwd", "/sibling", "/dir",
        "/nothing", "/link", "x", "/a/../foo.txt",
    ];
    for target in targets {
        let line = format!("GET {} HTTP/1.1", target);
        let done = run(&site(), &[line.as_str(), ""]);
        for path in done.read {
            assert!(path == "/srv/www" || path.starts_with("/srv/www/"), "{} read {}", target, path);
        }
        let reply = done.written.expect("a reply");
        assert!(!reply.contains("root:x:0:0"));
        assert!(!reply.contains("secret"));
    }
}
