//! The request: its method, its target, its version and its headers, and how
//! they are read from the lines that a client sent.

use crate::text::{
    chars_of, cut, field_bounds, fields, find_first, is_run, is_trimmed, lemma_fields_are_runs,
    lemma_trim_is_trimmed, same_part, slice_of, trim, trim_bounds, Separator,
};
use vstd::prelude::*;

verus! {

/// The methods that a request may name.
#[derive(Debug, Clone, Copy, PartialEq, Eq, Structural)]
pub enum HttpRequestMethod {
    Get,
    Post,
    Put,
    Update,
    Delete,
}

/// Why lines are no request.
#[derive(Debug, Clone, Copy, PartialEq, Eq, Structural)]
pub enum ParseHttpRequestError {
    /// The status line does not hold exactly three tokens.
    InvalidStatusLine,
    /// The first token of the status line names no known method.
    InvalidMethod,
    /// A header line holds no `:`.
    InvalidHeaderLine,
}

/// The tokens of a status line: what stands between its whitespace.
pub open spec fn tokens(line: Seq<char>) -> Seq<Seq<char>> {
    fields(line, Separator::Whitespace)
}

/// The method that `token` names, letter for letter and in upper case.
pub open spec fn method_of(token: Seq<char>) -> Option<HttpRequestMethod> {
    if token == "GET"@ {
        Some(HttpRequestMethod::Get)
    } else if token == "POST"@ {
        Some(HttpRequestMethod::Post)
    } else if token == "DELETE"@ {
        Some(HttpRequestMethod::Delete)
    } else if token == "UPDATE"@ {
        Some(HttpRequestMethod::Update)
    } else if token == "PUT"@ {
        Some(HttpRequestMethod::Put)
    } else {
        None
    }
}

/// The name and the value of a header line: what stands before its first `:`
/// and what stands after it, both trimmed. A line without `:` is no header.
pub open spec fn header_of(line: Seq<char>) -> Option<(Seq<char>, Seq<char>)> {
    match line.index_of_first(':') {
        Some(i) => Some((trim(line.take(i)), trim(line.skip(i + 1)))),
        None => None,
    }
}

/// The headers of `lines`, one for each line and in their order, if every line
/// holds a `:`.
pub open spec fn headers_of(lines: Seq<Seq<char>>) -> Option<Seq<(Seq<char>, Seq<char>)>> {
    if forall|i: int| 0 <= i < lines.len() ==> (#[trigger] lines[i]).contains(':') {
        Some(Seq::new(lines.len(), |i: int| header_of(lines[i])->0))
    } else {
        None
    }
}

/// What a request holds.
pub struct RequestView {
    pub method: HttpRequestMethod,
    pub target: Seq<char>,
    pub version: Seq<char>,
    pub headers: Seq<(Seq<char>, Seq<char>)>,
}

impl RequestView {
    /// Whether the request is as lines can spell it: its target and its
    /// version are tokens, not empty and without whitespace, and the names and
    /// values of its headers neither begin nor end with whitespace.
    pub open spec fn is_well_formed(self) -> bool {
        &&& is_run(self.target, Separator::Whitespace)
        &&& is_run(self.version, Separator::Whitespace)
        &&& forall|i: int|
            0 <= i < self.headers.len() ==> is_trimmed((#[trigger] self.headers[i]).0)
                && is_trimmed(self.headers[i].1)
    }
}

/// The request that `lines` spell: the first is the status line, the others are
/// header lines. The status line is judged first, by the number of its tokens
/// and then by its method; the header lines after it.
pub open spec fn parse_request(lines: Seq<Seq<char>>) -> Result<
    RequestView,
    ParseHttpRequestError,
>
    recommends
        lines.len() > 0,
{
    let status = tokens(lines[0]);
    if status.len() != 3 {
        Err(ParseHttpRequestError::InvalidStatusLine)
    } else {
        match method_of(status[0]) {
            None => Err(ParseHttpRequestError::InvalidMethod),
            Some(method) => match headers_of(lines.skip(1)) {
                None => Err(ParseHttpRequestError::InvalidHeaderLine),
                Some(headers) => Ok(
                    RequestView { method, target: status[1], version: status[2], headers },
                ),
            },
        }
    }
}

/// Every request that lines spell is well formed.
pub proof fn lemma_parsed_is_well_formed(lines: Seq<Seq<char>>)
    requires
        lines.len() > 0,
        parse_request(lines) is Ok,
    ensures
        parse_request(lines)->Ok_0.is_well_formed(),
{
    let request = parse_request(lines)->Ok_0;
    let rest = lines.skip(1);
    lemma_fields_are_runs(lines[0], Separator::Whitespace);
    assert forall|i: int| 0 <= i < request.headers.len() implies is_trimmed(
        (#[trigger] request.headers[i]).0,
    ) && is_trimmed(request.headers[i].1) by {
        let line = rest[i];
        assert(line.contains(':'));
        line.index_of_first_ensures(':');
        let colon = line.index_of_first(':')->0;
        lemma_trim_is_trimmed(line.take(colon));
        lemma_trim_is_trimmed(line.skip(colon + 1));
    }
}

/// What the message of `error` says.
pub open spec fn message_of(error: ParseHttpRequestError) -> Seq<char> {
    match error {
        ParseHttpRequestError::InvalidStatusLine => "Invalid status line"@,
        ParseHttpRequestError::InvalidMethod => "Invalid method"@,
        ParseHttpRequestError::InvalidHeaderLine => "Invalid header line"@,
    }
}

impl ParseHttpRequestError {
    /// The error in words.
    pub fn message(&self) -> (out: String)
        ensures
            out@ == message_of(*self),
    {
        match self {
            ParseHttpRequestError::InvalidStatusLine => "Invalid status line".to_owned(),
            ParseHttpRequestError::InvalidMethod => "Invalid method".to_owned(),
            ParseHttpRequestError::InvalidHeaderLine => "Invalid header line".to_owned(),
        }
    }
}

/// Whether `chars` spell `word`.
fn spells(chars: &Vec<char>, word: &str) -> (r: bool)
    ensures
        r == (chars@ == word@),
{
    let letters = chars_of(word);
    proof {
        assert(chars@.subrange(0, chars@.len() as int) =~= chars@);
        assert(letters@.subrange(0, letters@.len() as int) =~= letters@);
    }
    same_part(chars, 0, chars.len(), &letters, 0, letters.len())
}

impl HttpRequestMethod {
    /// The method that `s` names; `InvalidMethod` where it names none.
    pub fn from_str(s: &str) -> (r: Result<HttpRequestMethod, ParseHttpRequestError>)
        ensures
            match method_of(s@) {
                Some(method) => r is Ok && r->Ok_0 == method,
                None => r is Err && r->Err_0 == ParseHttpRequestError::InvalidMethod,
            },
    {
        let chars = chars_of(s);
        if spells(&chars, "GET") {
            Ok(HttpRequestMethod::Get)
        } else if spells(&chars, "POST") {
            Ok(HttpRequestMethod::Post)
        } else if spells(&chars, "DELETE") {
            Ok(HttpRequestMethod::Delete)
        } else if spells(&chars, "UPDATE") {
            Ok(HttpRequestMethod::Update)
        } else if spells(&chars, "PUT") {
            Ok(HttpRequestMethod::Put)
        } else {
            Err(ParseHttpRequestError::InvalidMethod)
        }
    }
}

impl std::str::FromStr for HttpRequestMethod {
    type Err = ParseHttpRequestError;

    /// As the method of the same name on the type itself.
    fn from_str(s: &str) -> (r: Result<HttpRequestMethod, ParseHttpRequestError>)
        ensures
            match method_of(s@) {
                Some(method) => r is Ok && r->Ok_0 == method,
                None => r is Err && r->Err_0 == ParseHttpRequestError::InvalidMethod,
            },
    {
        HttpRequestMethod::from_str(s)
    }
}

/// Reads one header line.
pub fn parse_header(line: &str) -> (out: Option<(String, String)>)
    ensures
        out.deep_view() == header_of(line@),
{
    let chars = chars_of(line);
    let n: usize = chars.len();
    match find_first(&chars, ':') {
        None => None,
        Some(colon) => {
            let (a, b) = trim_bounds(&chars, 0, colon);
            let (c, d) = trim_bounds(&chars, colon + 1, n);
            proof {
                assert(chars@.subrange(0, colon as int) =~= line@.take(colon as int));
                assert(chars@.subrange(colon + 1, chars@.len() as int) =~= line@.skip(colon + 1));
            }
            Some((slice_of(line, a, b), slice_of(line, c, d)))
        },
    }
}

/// A request, as it is read once from the lines of one connection.
#[derive(Debug, PartialEq, Eq)]
pub struct HttpRequest {
    method: HttpRequestMethod,
    target: String,
    version: String,
    headers: Vec<(String, String)>,
}

impl View for HttpRequest {
    type V = RequestView;

    closed spec fn view(&self) -> RequestView {
        RequestView {
            method: self.method,
            target: self.target@,
            version: self.version@,
            headers: self.headers.deep_view(),
        }
    }
}

impl HttpRequest {
    #[verifier::type_invariant]
    spec fn well_formed(self) -> bool {
        self@.is_well_formed()
    }

    /// Reads a request from its lines: the status line, then the header lines,
    /// without the empty line that ends them.
    ///
    /// A status line that does not hold three tokens is an `InvalidStatusLine`,
    /// whatever its tokens are; one of three tokens whose first names no method
    /// is an `InvalidMethod`; and where the status line is in order and every
    /// other line holds a `:`, there is a request, with one header for each of
    /// these lines, in their order.
    pub fn new(lines: Vec<String>) -> (r: Result<HttpRequest, ParseHttpRequestError>)
        requires
            lines@.len() > 0,
        ensures
            match parse_request(lines.deep_view()) {
                Ok(request) => r is Ok && r->Ok_0@ == request,
                Err(error) => r is Err && r->Err_0 == error,
            },
            r is Ok ==> r->Ok_0@.is_well_formed(),
            tokens(lines@[0]@).len() != 3 ==> r is Err && r->Err_0
                == ParseHttpRequestError::InvalidStatusLine,
            tokens(lines@[0]@).len() == 3 && method_of(tokens(lines@[0]@)[0]) is None ==> r is Err
                && r->Err_0 == ParseHttpRequestError::InvalidMethod,
            tokens(lines@[0]@).len() == 3 && method_of(tokens(lines@[0]@)[0]) is Some && (forall|
                i: int,
            |
                1 <= i < lines@.len() ==> (#[trigger] lines@[i])@.contains(':')) ==> {
                &&& r is Ok
                &&& r->Ok_0@.headers.len() == lines@.len() - 1
                &&& forall|i: int|
                    1 <= i < lines@.len() ==> Some(#[trigger] r->Ok_0@.headers[i - 1]) == header_of(
                        lines@[i]@,
                    )
            },
    {
        let ghost all = lines.deep_view();
        let line = lines[0].as_str();
        let chars = chars_of(line);
        let bounds = field_bounds(&chars, Separator::Whitespace);
        proof {
            assert(all[0] == line@);
        }
        if bounds.len() != 3 {
            return Err(ParseHttpRequestError::InvalidStatusLine);
        }
        proof {
            assert(tokens(line@)[0] == line@.subrange(bounds@[0].0 as int, bounds@[0].1 as int));
            assert(tokens(line@)[1] == line@.subrange(bounds@[1].0 as int, bounds@[1].1 as int));
            assert(tokens(line@)[2] == line@.subrange(bounds@[2].0 as int, bounds@[2].1 as int));
        }
        let name = slice_of(line, bounds[0].0, bounds[0].1);
        let method = match HttpRequestMethod::from_str(name.as_str()) {
            Ok(method) => method,
            Err(error) => {
                return Err(error);
            },
        };
        let target = slice_of(line, bounds[1].0, bounds[1].1);
        let version = slice_of(line, bounds[2].0, bounds[2].1);
        let ghost status = tokens(all[0]);
        let ghost rest = all.skip(1);
        let mut headers: Vec<(String, String)> = Vec::new();
        let mut i: usize = 1;
        while i < lines.len()
            invariant
                1 <= i <= lines@.len(),
                all == lines.deep_view(),
                all[0] == lines@[0]@,
                status == tokens(all[0]),
                status.len() == 3,
                method_of(status[0]) == Some(method),
                rest == all.skip(1),
                headers@.len() == i - 1,
                forall|k: int| 0 <= k < i - 1 ==> (#[trigger] rest[k]).contains(':'),
                forall|k: int|
                    0 <= k < i - 1 ==> Some((#[trigger] headers@[k]).deep_view()) == header_of(
                        rest[k],
                    ),
            decreases lines@.len() - i,
        {
            let ghost line = lines@[i as int]@;
            proof {
                assert(rest[i - 1] == line);
                line.index_of_first_ensures(':');
            }
            match parse_header(lines[i].as_str()) {
                None => {
                    return Err(ParseHttpRequestError::InvalidHeaderLine);
                },
                Some(header) => {
                    headers.push(header);
                },
            }
            i = i + 1;
        }
        proof {
            assert(headers_of(rest) is Some);
            assert(headers.deep_view() =~= headers_of(rest)->0);
            lemma_parsed_is_well_formed(all);
        }
        let request = HttpRequest { method, target, version, headers };
        proof {
            assert forall|k: int| 1 <= k < lines@.len() implies Some(
                #[trigger] request@.headers[k - 1],
            ) == header_of(lines@[k]@) by {
                assert(rest[k - 1] == lines@[k]@);
                assert(request@.headers[k - 1] == headers@[k - 1].deep_view());
            }
        }
        Ok(request)
    }

    /// The method of the request.
    pub fn method(&self) -> (out: HttpRequestMethod)
        ensures
            out == self@.method,
            self@.is_well_formed(),
    {
        proof {
            use_type_invariant(self);
        }
        self.method
    }

    /// The target of the request, as it was sent.
    pub fn target(&self) -> (out: &str)
        ensures
            out@ == self@.target,
            self@.is_well_formed(),
    {
        proof {
            use_type_invariant(self);
        }
        self.target.as_str()
    }

    /// The version of the protocol that the request names.
    pub fn version(&self) -> (out: &str)
        ensures
            out@ == self@.version,
            self@.is_well_formed(),
    {
        proof {
            use_type_invariant(self);
        }
        self.version.as_str()
    }

    /// The headers of the request, in the order of their lines.
    pub fn headers(&self) -> (out: &Vec<(String, String)>)
        ensures
            out.deep_view() == self@.headers,
            self@.is_well_formed(),
    {
        proof {
            use_type_invariant(self);
        }
        &self.headers
    }
}

} // verus!
