use http_server::response::{decimal_string, Response, Status};

#[test]
fn status_lines_are_fixed() {
    assert_eq!(Status::Success.line(), "HTTP/1.1 200 OK");
    assert_eq!(Status::BadRequest.line(), "HTTP/1.1 400 BAD REQUEST");
    assert_eq!(Status::NotFound.line(), "HTTP/1.1 404 NOT FOUND");
}

#[test]
fn decimal_string_writes_as_std_does() {
    let mut samples: Vec<usize> = (0..1200).collect();
    samples.extend([9_999, 10_000, 65_535, 1_000_000, 4_294_967_295, usize::MAX - 1, usize::MAX]);
    for n in samples {
        assert_eq!(decimal_string(n), n.to_string());
    }
    assert_eq!(decimal_string(0), "0");
    assert_eq!(decimal_string(7), "7");
    assert_eq!(decimal_string(10), "10");
    assert_eq!(decimal_string(1234567890), "1234567890");
}

#[test]
fn a_reply_is_written_letter_for_letter() {
    let reply = Response { status: Status::Success, body: "hello".to_owned() };
    assert_eq!(reply.serialize(), "HTTP/1.1 200 OK\r\nContent-Length: 5\r\n\r\nhello");
    let reply = Response { status: Status::NotFound, body: "<h1>gone</h1>\n".to_owned() };
    assert_eq!(
        reply.serialize(),
        "HTTP/1.1 404 NOT FOUND\r\nContent-Length: 14\r\n\r\n<h1>gone</h1>\n"
    );
    let reply = Response { status: Status::BadRequest, body: "Invalid method".to_owned() };
    assert_eq!(
        reply.serialize(),
        "HTTP/1.1 400 BAD REQUEST\r\nContent-Length: 14\r\n\r\nInvalid method"
    );
}

#[test]
fn an_empty_body_has_the_length_zero() {
    let reply = Response { status: Status::Success, body: String::new() };
    assert_eq!(reply.serialize(), "HTTP/1.1 200 OK\r\nContent-Length: 0\r\n\r\n");
}

#[test]
fn the_length_counts_bytes() {
    let reply = Response { status: Status::Success, body: "h\u{e9}llo \u{1f600}".to_owned() };
    assert_eq!(
        reply.serialize(),
        "HTTP/1.1 200 OK\r\nContent-Length: 11\r\n\r\nh\u{e9}llo \u{1f600}"
    );
}

#[test]
fn a_reply_can_be_taken_apart_again() {
    let bodies = [
        "",
        "hello",
        " leading space",
        "two\r\n\r\nparts",
        "\r\n\r\n",
        "Content-Length: 99\r\n\r\nfake",
        "h\u{e9}llo",
    ];
    for status in [Status::Success, Status::BadRequest, Status::NotFound] {
        for body in bodies {
            let reply = Response { status, body: body.to_owned() };
            let text = reply.serialize();
            let (head, rest) = text.split_once("\r\n\r\n").expect("an empty line");
            assert_eq!(rest, body);
            let (first, header) = head.split_once("\r\n").expect("two lines");
            assert_eq!(first, status.line());
            let digits = header.strip_prefix("Content-Length: ").expect("the header");
            assert_eq!(digits.parse::<usize>(), Ok(body.len()));
            assert_eq!(rest.len(), body.len());
        }
    }
}
