//! Paths, and the one rule that keeps a request below the serving root.
//!
//! A path is a text whose segments are parted by `/`. Whether a path lies
//! below the root is decided segment by segment, never letter by letter:
//! `/srv/www-old` does not lie below `/srv/www`.

use crate::text::{
    are_bounds, chars_of, cut, field_bounds, fields, lemma_fields_concat, lemma_fields_of_run,
    lemma_fields_push_separator, same_part, Separator,
};
use vstd::prelude::*;
use vstd::string::*;

verus! {

/// The segments of `path`: what stands between its `/`, empty segments left out.
pub open spec fn segments(path: Seq<char>) -> Seq<Seq<char>> {
    fields(path, Separator::Char('/'))
}

/// Whether `path` begins at the root of the file system.
pub open spec fn is_absolute(path: Seq<char>) -> bool {
    path.len() > 0 && path[0] == '/'
}

/// Whether `segment` is `.` or `..`, which name no entry of their own.
pub open spec fn is_dot_segment(segment: Seq<char>) -> bool {
    segment == seq!['.'] || segment == seq!['.', '.']
}

/// Whether `path` is absolute and free of `.` and `..`: the form that a
/// canonical path has.
pub open spec fn is_normal(path: Seq<char>) -> bool {
    is_absolute(path) && forall|i: int|
        0 <= i < segments(path).len() ==> !is_dot_segment(#[trigger] segments(path)[i])
}

/// Whether `path` is in normal form and lies in `root` or below it: the
/// segments of `root` are the first segments of `path`.
pub open spec fn is_within(path: Seq<char>, root: Seq<char>) -> bool {
    is_normal(path) && segments(root).is_prefix_of(segments(path))
}

/// Whether `name` can name a document in a directory: one segment, not `.` or `..`.
pub open spec fn is_file_name(name: Seq<char>) -> bool {
    name.len() > 0 && !is_dot_segment(name) && forall|k: int|
        0 <= k < name.len() ==> #[trigger] name[k] != '/'
}

/// `relative` seen from `root`. An absolute `relative` stands for itself;
/// any other follows `root`, behind a `/` where `root` does not end with one.
pub open spec fn joined(root: Seq<char>, relative: Seq<char>) -> Seq<char> {
    if is_absolute(relative) {
        relative
    } else if root.len() == 0 || root.last() == '/' {
        root + relative
    } else {
        root + seq!['/'] + relative
    }
}

/// A document named in a directory lies in that directory.
pub proof fn lemma_joined_file_name(root: Seq<char>, name: Seq<char>)
    requires
        is_normal(root),
        is_file_name(name),
    ensures
        segments(joined(root, name)) == segments(root).push(name),
        is_within(joined(root, name), root),
{
    let sep = Separator::Char('/');
    let path = joined(root, name);
    assert(name[0] != '/');
    lemma_fields_of_run(name, sep);
    if root.last() == '/' {
        lemma_fields_concat(root, name, sep);
    } else {
        lemma_fields_push_separator(root, sep, '/');
        assert(root.push('/') =~= root + seq!['/']);
        lemma_fields_concat(root.push('/'), name, sep);
    }
    assert(segments(root) + seq![name] =~= segments(root).push(name));
    assert(path[0] == root[0]);
    assert(segments(path).subrange(0, segments(root).len() as int) =~= segments(root));
}

/// The two documents that the root holds for every request are named as
/// documents are.
pub proof fn lemma_document_names()
    ensures
        is_file_name("index.html"@),
        is_file_name("404.html"@),
{
    reveal_strlit("index.html");
    reveal_strlit("404.html");
    assert("index.html"@.len() == 10);
    assert("404.html"@.len() == 8);
    assert(seq!['.'].len() == 1 && seq!['.', '.'].len() == 2);
}

/// Why a requested path names no document that is served.
#[derive(Debug, Clone, Copy, PartialEq, Eq, Structural)]
pub enum RoutingError {
    /// The path leads nowhere, or to what cannot be read.
    NotFound,
    /// The path leads out of the serving root.
    TraversalRejected,
}

/// The directory below which every document that is served lies.
#[derive(Debug, PartialEq, Eq)]
pub struct ServingRoot {
    path: String,
}

/// A path that was found to lie in the serving root or below it.
#[derive(Debug, PartialEq, Eq)]
pub struct ResolvedPath {
    path: String,
}

impl View for ServingRoot {
    type V = Seq<char>;

    closed spec fn view(&self) -> Seq<char> {
        self.path@
    }
}

impl View for ResolvedPath {
    type V = Seq<char>;

    closed spec fn view(&self) -> Seq<char> {
        self.path@
    }
}

/// A path with its segments marked: its characters, and where each of its
/// segments begins and ends.
struct Marked {
    chars: Vec<char>,
    bounds: Vec<(usize, usize)>,
}

impl Marked {
    /// Whether the marks are those of the segments.
    spec fn is_marked(self) -> bool {
        &&& are_bounds(self.chars@, self.bounds@)
        &&& cut(self.chars@, self.bounds@) == segments(self.chars@)
    }

    /// Marks the segments of `path`.
    fn new(path: &str) -> (out: Marked)
        ensures
            out.chars@ == path@,
            out.is_marked(),
    {
        let chars = chars_of(path);
        let bounds = field_bounds(&chars, Separator::Char('/'));
        Marked { chars, bounds }
    }

    /// Whether the segment at `i` is `.` or `..`.
    fn is_dot(&self, i: usize) -> (r: bool)
        requires
            self.is_marked(),
            i < self.bounds@.len(),
        ensures
            r == is_dot_segment(segments(self.chars@)[i as int]),
    {
        let (from, to) = self.bounds[i];
        let ghost segment = self.chars@.subrange(from as int, to as int);
        proof {
            assert(segments(self.chars@)[i as int] == segment);
        }
        let r = (to - from == 1 && self.chars[from] == '.') || (to - from == 2
            && self.chars[from] == '.' && self.chars[from + 1] == '.');
        proof {
            if r {
                assert(segment =~= seq!['.'] || segment =~= seq!['.', '.']);
            } else if segment.len() == 1 {
                assert(segment[0] != seq!['.'][0]);
            } else if segment.len() == 2 {
                assert(segment[0] != seq!['.', '.'][0] || segment[1] != seq!['.', '.'][1]);
            }
        }
        r
    }

    /// Whether the path is in normal form.
    fn is_normal(&self) -> (r: bool)
        requires
            self.is_marked(),
        ensures
            r == is_normal(self.chars@),
    {
        if self.chars.len() == 0 || self.chars[0] != '/' {
            return false;
        }
        let mut i: usize = 0;
        while i < self.bounds.len()
            invariant
                self.is_marked(),
                i <= self.bounds@.len(),
                forall|k: int| 0 <= k < i ==> !is_dot_segment(#[trigger] segments(self.chars@)[k]),
            decreases self.bounds@.len() - i,
        {
            if self.is_dot(i) {
                return false;
            }
            i = i + 1;
        }
        true
    }

    /// Whether the segments of `root` are the first segments of the path.
    fn begins_with(&self, root: &Marked) -> (r: bool)
        requires
            self.is_marked(),
            root.is_marked(),
        ensures
            r == segments(root.chars@).is_prefix_of(segments(self.chars@)),
    {
        let ghost mine = segments(self.chars@);
        let ghost theirs = segments(root.chars@);
        if root.bounds.len() > self.bounds.len() {
            return false;
        }
        let mut i: usize = 0;
        while i < root.bounds.len()
            invariant
                self.is_marked(),
                root.is_marked(),
                mine == segments(self.chars@),
                theirs == segments(root.chars@),
                i <= root.bounds@.len() <= self.bounds@.len(),
                forall|k: int| 0 <= k < i ==> theirs[k] == mine[k],
            decreases root.bounds@.len() - i,
        {
            let (from, to) = root.bounds[i];
            let (start, end) = self.bounds[i];
            proof {
                assert(theirs[i as int] == root.chars@.subrange(from as int, to as int));
                assert(mine[i as int] == self.chars@.subrange(start as int, end as int));
            }
            if !same_part(&root.chars, from, to, &self.chars, start, end) {
                proof {
                    assert(mine.subrange(0, theirs.len() as int)[i as int] == mine[i as int]);
                }
                return false;
            }
            i = i + 1;
        }
        proof {
            assert(theirs =~= mine.subrange(0, theirs.len() as int));
        }
        true
    }
}

impl ServingRoot {
    #[verifier::type_invariant]
    spec fn normal(self) -> bool {
        is_normal(self.path@)
    }

    /// Takes `path` as the serving root, if it is in normal form.
    pub fn new(path: String) -> (out: Option<ServingRoot>)
        ensures
            out is Some <==> is_normal(path@),
            out is Some ==> out->0@ == path@,
    {
        if Marked::new(path.as_str()).is_normal() {
            Some(ServingRoot { path })
        } else {
            None
        }
    }

    /// The root as text: a path in normal form.
    pub fn as_str(&self) -> (out: &str)
        ensures
            out@ == self@,
            is_normal(self@),
    {
        proof {
            use_type_invariant(self);
        }
        self.path.as_str()
    }

    /// The path that `relative` names, seen from the root. It is not resolved:
    /// it may hold `..`, and what it names may be a link.
    pub fn join(&self, relative: &str) -> (out: String)
        ensures
            out@ == joined(self@, relative@),
    {
        proof {
            use_type_invariant(self);
        }
        let tail = chars_of(relative);
        if tail.len() > 0 && tail[0] == '/' {
            return relative.to_owned();
        }
        let head = chars_of(self.path.as_str());
        let mut out = self.path.clone();
        if head[head.len() - 1] != '/' {
            out.append("/");
            proof {
                reveal_strlit("/");
                assert("/"@ =~= seq!['/']);
            }
        }
        out.append(relative);
        out
    }

    /// The document called `name` in the root itself.
    fn document(&self, name: &str) -> (out: ResolvedPath)
        requires
            is_file_name(name@),
        ensures
            out@ == joined(self@, name@),
            is_within(out@, self@),
    {
        proof {
            use_type_invariant(self);
            lemma_joined_file_name(self@, name@);
        }
        ResolvedPath { path: self.join(name) }
    }

    /// The document that answers a request for `/`: `index.html` in the root.
    pub fn index_document(&self) -> (out: ResolvedPath)
        ensures
            out@ == joined(self@, "index.html"@),
            is_within(out@, self@),
    {
        proof {
            lemma_document_names();
        }
        self.document("index.html")
    }

    /// The document that answers where nothing was found: `404.html` in the root.
    pub fn not_found_document(&self) -> (out: ResolvedPath)
        ensures
            out@ == joined(self@, "404.html"@),
            is_within(out@, self@),
    {
        proof {
            lemma_document_names();
        }
        self.document("404.html")
    }

    /// Accepts `canonical` as the path of a document, if it is in normal form
    /// and lies in the root or below it.
    ///
    /// `canonical` is what the file system gave for a requested path: absolute,
    /// with every link followed and every `.` and `..` worked out. Only then
    /// does a path that is accepted here name a file below the root.
    pub fn resolve(&self, canonical: String) -> (out: Result<ResolvedPath, RoutingError>)
        ensures
            out is Ok <==> is_within(canonical@, self@),
            out is Ok ==> out->Ok_0@ == canonical@,
            out is Err ==> out->Err_0 == RoutingError::TraversalRejected,
    {
        proof {
            use_type_invariant(self);
        }
        let found = Marked::new(canonical.as_str());
        if found.is_normal() && found.begins_with(&Marked::new(self.path.as_str())) {
            Ok(ResolvedPath { path: canonical })
        } else {
            Err(RoutingError::TraversalRejected)
        }
    }
}

impl ResolvedPath {
    #[verifier::type_invariant]
    spec fn normal(self) -> bool {
        is_normal(self.path@)
    }

    /// The path as text: a path in normal form.
    pub fn as_str(&self) -> (out: &str)
        ensures
            out@ == self@,
            is_normal(self@),
    {
        proof {
            use_type_invariant(self);
        }
        self.path.as_str()
    }
}

} // verus!
