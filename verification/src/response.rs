//! The reply: a status line, the length of the body, an empty line, the body.

use vstd::prelude::*;
use vstd::string::*;
use vstd::utf8::encode_utf8;

verus! {

/// How a request ended.
#[derive(Debug, Clone, Copy, PartialEq, Eq, Structural)]
pub enum Status {
    /// The document was found and read.
    Success,
    /// The lines were no request.
    BadRequest,
    /// There is no such document below the serving root.
    NotFound,
}

/// The status line of a reply.
pub open spec fn status_line(status: Status) -> Seq<char> {
    match status {
        Status::Success => "HTTP/1.1 200 OK"@,
        Status::BadRequest => "HTTP/1.1 400 BAD REQUEST"@,
        Status::NotFound => "HTTP/1.1 404 NOT FOUND"@,
    }
}

/// The character of the decimal digit `d`.
pub open spec fn digit(d: nat) -> char
    recommends
        d < 10,
{
    (0x30 + d) as u8 as char
}

/// `n` in decimal digits, without leading zeros.
pub open spec fn decimal(n: nat) -> Seq<char>
    decreases n,
{
    if n < 10 {
        seq![digit(n)]
    } else {
        decimal(n / 10).push(digit(n % 10))
    }
}

/// The number that decimal digits spell.
pub open spec fn decimal_value(digits: Seq<char>) -> nat
    decreases digits.len(),
{
    if digits.len() == 0 {
        0
    } else {
        (decimal_value(digits.drop_last()) * 10 + (digits.last() as u32 - 0x30)) as nat
    }
}

/// The number of bytes that `body` takes on the wire.
pub open spec fn byte_len(body: Seq<char>) -> nat {
    encode_utf8(body).len()
}

/// The header that declares the length of `body`.
pub open spec fn content_length(body: Seq<char>) -> Seq<char> {
    "Content-Length: "@ + decimal(byte_len(body))
}

/// What stands before the empty line of a reply: the status line and the one
/// header, each on a line of its own.
pub open spec fn head(status: Status, body: Seq<char>) -> Seq<char> {
    status_line(status) + "\r\n"@ + content_length(body)
}

/// A reply as it is written to the connection.
pub open spec fn serialized(status: Status, body: Seq<char>) -> Seq<char> {
    head(status, body) + "\r\n\r\n"@ + body
}

/// Whether `pattern` stands in `text` at `i`.
pub open spec fn occurs_at(text: Seq<char>, pattern: Seq<char>, i: int) -> bool {
    0 <= i && i + pattern.len() <= text.len() && text.subrange(i, i + pattern.len()) == pattern
}

/// Whether `i` is the first place in `text` at which `pattern` stands.
pub open spec fn first_at(text: Seq<char>, pattern: Seq<char>, i: int) -> bool {
    occurs_at(text, pattern, i) && forall|j: int| 0 <= j < i ==> !occurs_at(text, pattern, j)
}

/// `text` split at the first `pattern` in it: what stands before and what
/// stands after.
pub open spec fn split_once(text: Seq<char>, pattern: Seq<char>) -> Option<
    (Seq<char>, Seq<char>),
> {
    if exists|i: int| first_at(text, pattern, i) {
        let i = choose|i: int| first_at(text, pattern, i);
        Some((text.take(i), text.skip(i + pattern.len())))
    } else {
        None
    }
}

/// Whether `c` is one of the ten decimal digits.
pub open spec fn is_digit(c: char) -> bool {
    0x30 <= c as u32 <= 0x39
}

/// `decimal` gives at least one character, and digits only.
pub proof fn lemma_decimal_is_digits(n: nat)
    ensures
        decimal(n).len() >= 1,
        forall|k: int| 0 <= k < decimal(n).len() ==> is_digit(#[trigger] decimal(n)[k]),
    decreases n,
{
    if n >= 10 {
        lemma_decimal_is_digits(n / 10);
    }
}

/// The digits that `decimal` gives spell the number that they were made from.
pub proof fn lemma_decimal_value(n: nat)
    ensures
        decimal_value(decimal(n)) == n,
    decreases n,
{
    if n < 10 {
        assert(decimal(n).drop_last() =~= Seq::<char>::empty());
        assert(decimal_value(decimal(n).drop_last()) == 0);
    } else {
        lemma_decimal_value(n / 10);
        assert(decimal(n).drop_last() =~= decimal(n / 10));
    }
}

/// A text splits at the first place at which the pattern stands in it.
pub proof fn lemma_split_once_at(text: Seq<char>, pattern: Seq<char>, i: int)
    requires
        first_at(text, pattern, i),
    ensures
        split_once(text, pattern) == Some((text.take(i), text.skip(i + pattern.len()))),
{
    let j = choose|j: int| first_at(text, pattern, j);
    assert(first_at(text, pattern, j));
    if j < i {
        assert(!occurs_at(text, pattern, j));
    } else if i < j {
        assert(!occurs_at(text, pattern, i));
    }
}

/// No status line holds the end of a line.
proof fn lemma_status_line_is_one_line(status: Status)
    ensures
        forall|k: int|
            0 <= k < status_line(status).len() ==> (#[trigger] status_line(status)[k]) != '\r',
{
    reveal_strlit("HTTP/1.1 200 OK");
    reveal_strlit("HTTP/1.1 400 BAD REQUEST");
    reveal_strlit("HTTP/1.1 404 NOT FOUND");
}

/// The head of a reply holds one end of a line, which follows the status line.
proof fn lemma_head_line_ends(status: Status, body: Seq<char>)
    ensures
        head(status, body).len() == status_line(status).len() + 18 + decimal(byte_len(body)).len(),
        forall|k: int|
            0 <= k < head(status, body).len() && k != status_line(status).len() ==> (
            #[trigger] head(status, body)[k]) != '\r',
        head(status, body)[status_line(status).len() as int] == '\r',
        head(status, body)[status_line(status).len() as int + 1] == '\n',
        head(status, body)[status_line(status).len() as int + 2] == 'C',
{
    let first = status_line(status);
    let digits = decimal(byte_len(body));
    let text = head(status, body);
    reveal_strlit("\r\n");
    reveal_strlit("Content-Length: ");
    lemma_status_line_is_one_line(status);
    lemma_decimal_is_digits(byte_len(body));
    assert forall|k: int| 0 <= k < text.len() && k != first.len() implies (#[trigger] text[k])
        != '\r' by {
        if k < first.len() {
            assert(text[k] == first[k]);
        } else if k < first.len() + 18 {
            assert(text[k] == ("\r\n"@ + "Content-Length: "@)[k - first.len()]);
        } else {
            assert(text[k] == digits[k - first.len() - 18]);
            assert(is_digit(digits[k - first.len() - 18]));
        }
    }
}

/// A reply can be taken apart again. Split at the first empty line, it gives
/// its head and its body as they were; the head, split at the first end of a
/// line, gives the status line and the header; and the digits of the header
/// spell the number of bytes of the body.
pub proof fn lemma_serialized_round_trip(status: Status, body: Seq<char>)
    ensures
        split_once(serialized(status, body), "\r\n\r\n"@) == Some((head(status, body), body)),
        split_once(head(status, body), "\r\n"@) == Some(
            (status_line(status), content_length(body)),
        ),
        content_length(body) == "Content-Length: "@ + decimal(byte_len(body)),
        decimal_value(decimal(byte_len(body))) == byte_len(body),
{
    let first = status_line(status);
    let top = head(status, body);
    let text = serialized(status, body);
    let blank = "\r\n\r\n"@;
    let end = "\r\n"@;
    reveal_strlit("\r\n\r\n");
    reveal_strlit("\r\n");
    lemma_head_line_ends(status, body);
    lemma_decimal_value(byte_len(body));

    assert(text.subrange(top.len() as int, top.len() as int + 4) =~= blank);
    assert forall|j: int| 0 <= j < top.len() implies !occurs_at(text, blank, j) by {
        if occurs_at(text, blank, j) {
            let found = text.subrange(j, j + 4);
            assert(found[0] == text[j] && found[2] == text[j + 2]);
            assert(text[j] == top[j]);
            assert(j == first.len());
            assert(text[j + 2] == top[j + 2]);
        }
    }
    assert(first_at(text, blank, top.len() as int));
    lemma_split_once_at(text, blank, top.len() as int);
    assert(text.take(top.len() as int) =~= top);
    assert(text.skip(top.len() as int + 4) =~= body);

    assert(top.subrange(first.len() as int, first.len() as int + 2) =~= end);
    assert forall|j: int| 0 <= j < first.len() implies !occurs_at(top, end, j) by {
        if occurs_at(top, end, j) {
            let found = top.subrange(j, j + 2);
            assert(found[0] == top[j]);
        }
    }
    assert(first_at(top, end, first.len() as int));
    lemma_split_once_at(top, end, first.len() as int);
    assert(top.take(first.len() as int) =~= first);
    assert(top.skip(first.len() as int + 2) =~= content_length(body));
}

/// Two replies that read the same have the same status and the same body.
pub proof fn lemma_serialized_is_injective(
    status: Status,
    body: Seq<char>,
    other_status: Status,
    other_body: Seq<char>,
)
    requires
        serialized(status, body) == serialized(other_status, other_body),
    ensures
        status == other_status,
        body == other_body,
{
    lemma_serialized_round_trip(status, body);
    lemma_serialized_round_trip(other_status, other_body);
    reveal_strlit("HTTP/1.1 200 OK");
    reveal_strlit("HTTP/1.1 400 BAD REQUEST");
    reveal_strlit("HTTP/1.1 404 NOT FOUND");
}

impl Status {
    /// The status line, without the line's end.
    pub fn line(&self) -> (out: &'static str)
        ensures
            out@ == status_line(*self),
    {
        match self {
            Status::Success => "HTTP/1.1 200 OK",
            Status::BadRequest => "HTTP/1.1 400 BAD REQUEST",
            Status::NotFound => "HTTP/1.1 404 NOT FOUND",
        }
    }
}

/// The digit `d` as a text of one character.
fn digit_text(d: usize) -> (out: &'static str)
    requires
        d < 10,
    ensures
        out@ == seq![digit(d as nat)],
{
    proof {
        reveal_strlit("0");
        reveal_strlit("1");
        reveal_strlit("2");
        reveal_strlit("3");
        reveal_strlit("4");
        reveal_strlit("5");
        reveal_strlit("6");
        reveal_strlit("7");
        reveal_strlit("8");
        reveal_strlit("9");
    }
    let out = if d == 0 {
        "0"
    } else if d == 1 {
        "1"
    } else if d == 2 {
        "2"
    } else if d == 3 {
        "3"
    } else if d == 4 {
        "4"
    } else if d == 5 {
        "5"
    } else if d == 6 {
        "6"
    } else if d == 7 {
        "7"
    } else if d == 8 {
        "8"
    } else {
        "9"
    };
    proof {
        assert(out@ =~= seq![digit(d as nat)]);
    }
    out
}

/// Writes `n` in decimal digits.
pub fn decimal_string(n: usize) -> (out: String)
    ensures
        out@ == decimal(n as nat),
    decreases n,
{
    if n < 10 {
        digit_text(n).to_owned()
    } else {
        let mut out = decimal_string(n / 10);
        out.append(digit_text(n % 10));
        proof {
            let upper = decimal((n / 10) as nat);
            assert(upper + seq![digit((n % 10) as nat)] =~= upper.push(digit((n % 10) as nat)));
        }
        out
    }
}

/// A reply: how the request ended, and the body that goes with it.
#[derive(Debug, PartialEq, Eq)]
pub struct Response {
    pub status: Status,
    pub body: String,
}

impl Response {
    /// The reply as it is written to the connection: the status line, the
    /// length of the body in bytes, an empty line, and the body as it is.
    pub fn serialize(&self) -> (out: String)
        ensures
            out@ == serialized(self.status, self.body@),
    {
        let length: usize = self.body.as_str().as_bytes().len();
        let mut out = self.status.line().to_owned();
        out.append("\r\nContent-Length: ");
        out.append(decimal_string(length).as_str());
        out.append("\r\n\r\n");
        out.append(self.body.as_str());
        proof {
            reveal_strlit("\r\nContent-Length: ");
            reveal_strlit("\r\n");
            reveal_strlit("Content-Length: ");
            assert("\r\nContent-Length: "@ =~= "\r\n"@ + "Content-Length: "@);
            assert(out@ =~= serialized(self.status, self.body@));
        }
        out
    }
}

} // verus!
