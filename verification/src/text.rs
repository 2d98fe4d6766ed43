//! Text as sequences of characters: separators, fields and trimming.
//!
//! Everything here is stated over `Seq<char>`, the view of `str` and `String`.

use vstd::prelude::*;
use vstd::string::*;

verus! {

/// Whether `c` has the Unicode property `White_Space`.
pub open spec fn is_whitespace(c: char) -> bool {
    let n = c as u32;
    ||| 0x09 <= n <= 0x0d
    ||| n == 0x20
    ||| n == 0x85
    ||| n == 0xa0
    ||| n == 0x1680
    ||| 0x2000 <= n <= 0x200a
    ||| n == 0x2028
    ||| n == 0x2029
    ||| n == 0x202f
    ||| n == 0x205f
    ||| n == 0x3000
}

/// What parts a text into fields: any whitespace, or one given character.
#[derive(Clone, Copy, Debug, PartialEq, Eq)]
pub enum Separator {
    Whitespace,
    Char(char),
}

impl Separator {
    /// Whether `c` is a separator of this kind.
    pub open spec fn matches(self, c: char) -> bool {
        match self {
            Separator::Whitespace => is_whitespace(c),
            Separator::Char(d) => c == d,
        }
    }

    /// Tests whether `c` is a separator of this kind.
    pub fn separates(&self, c: char) -> (r: bool)
        ensures
            r == self.matches(c),
    {
        match self {
            Separator::Whitespace => {
                let n: u32 = c as u32;
                (0x09 <= n && n <= 0x0d) || n == 0x20 || n == 0x85 || n == 0xa0 || n == 0x1680
                    || (0x2000 <= n && n <= 0x200a) || n == 0x2028 || n == 0x2029 || n == 0x202f
                    || n == 0x205f || n == 0x3000
            },
            Separator::Char(d) => c == *d,
        }
    }
}

/// The length of the longest prefix of `s` that holds no separator.
pub open spec fn run_len(s: Seq<char>, sep: Separator) -> nat
    decreases s.len(),
{
    if s.len() == 0 || sep.matches(s[0]) {
        0
    } else {
        1 + run_len(s.drop_first(), sep)
    }
}

/// The fields of `s`: its maximal runs of characters that are no separators,
/// from left to right. No field is empty.
pub open spec fn fields(s: Seq<char>, sep: Separator) -> Seq<Seq<char>>
    decreases s.len(),
    via fields_decreases
{
    if s.len() == 0 {
        Seq::empty()
    } else if sep.matches(s[0]) {
        fields(s.drop_first(), sep)
    } else {
        let n = run_len(s, sep) as int;
        seq![s.take(n)] + fields(s.skip(n), sep)
    }
}

#[via_fn]
proof fn fields_decreases(s: Seq<char>, sep: Separator) {
    if s.len() > 0 && !sep.matches(s[0]) {
        lemma_run_len_bounds(s, sep);
    }
}

/// `run_len` stays within `s`, covers no separator, and stops at one or at the end.
pub proof fn lemma_run_len_bounds(s: Seq<char>, sep: Separator)
    ensures
        run_len(s, sep) <= s.len(),
        s.len() > 0 && !sep.matches(s[0]) ==> run_len(s, sep) >= 1,
        forall|k: int| 0 <= k < run_len(s, sep) ==> !sep.matches(#[trigger] s[k]),
        run_len(s, sep) < s.len() ==> sep.matches(s[run_len(s, sep) as int]),
    decreases s.len(),
{
    if s.len() > 0 && !sep.matches(s[0]) {
        let rest = s.drop_first();
        lemma_run_len_bounds(rest, sep);
        assert forall|k: int| 0 <= k < run_len(s, sep) implies !sep.matches(#[trigger] s[k]) by {
            if k > 0 {
                assert(s[k] == rest[k - 1]);
            }
        }
        if run_len(s, sep) < s.len() {
            assert(s[run_len(s, sep) as int] == rest[run_len(rest, sep) as int]);
        }
    }
}

/// A prefix without separators that ends at a separator, or at the end of `s`,
/// is the longest one.
pub proof fn lemma_run_len_is(s: Seq<char>, sep: Separator, n: int)
    requires
        0 <= n <= s.len(),
        forall|k: int| 0 <= k < n ==> !sep.matches(#[trigger] s[k]),
        n < s.len() ==> sep.matches(s[n]),
    ensures
        run_len(s, sep) == n,
    decreases n,
{
    if n > 0 {
        let rest = s.drop_first();
        assert(!sep.matches(s[0]));
        assert forall|k: int| 0 <= k < n - 1 implies !sep.matches(#[trigger] rest[k]) by {
            assert(rest[k] == s[k + 1]);
        }
        lemma_run_len_is(rest, sep, n - 1);
    }
}

/// A separator at the head of `s` belongs to no field.
pub proof fn lemma_fields_skip_separator(s: Seq<char>, sep: Separator, i: int)
    requires
        0 <= i < s.len(),
        sep.matches(s[i]),
    ensures
        fields(s.skip(i), sep) == fields(s.skip(i + 1), sep),
{
    assert(s.skip(i).drop_first() =~= s.skip(i + 1));
}

/// A run from `i` up to `j`, closed by a separator or by the end of `s`, is the
/// first field of what follows `i`.
pub proof fn lemma_fields_take_run(s: Seq<char>, sep: Separator, i: int, j: int)
    requires
        0 <= i < j <= s.len(),
        forall|k: int| i <= k < j ==> !sep.matches(#[trigger] s[k]),
        j < s.len() ==> sep.matches(s[j]),
    ensures
        fields(s.skip(i), sep) == seq![s.subrange(i, j)] + fields(s.skip(j), sep),
{
    let tail = s.skip(i);
    assert forall|k: int| 0 <= k < j - i implies !sep.matches(#[trigger] tail[k]) by {
        assert(tail[k] == s[i + k]);
    }
    lemma_run_len_is(tail, sep, j - i);
    assert(tail.take(j - i) =~= s.subrange(i, j));
    assert(tail.skip(j - i) =~= s.skip(j));
}

/// Whether `s` is not empty and holds no separator.
pub open spec fn is_run(s: Seq<char>, sep: Separator) -> bool {
    s.len() > 0 && forall|k: int| 0 <= k < s.len() ==> !sep.matches(#[trigger] s[k])
}

/// No field is empty, and no field holds a separator.
pub proof fn lemma_fields_are_runs(s: Seq<char>, sep: Separator)
    ensures
        forall|i: int| 0 <= i < fields(s, sep).len() ==> is_run(#[trigger] fields(s, sep)[i], sep),
    decreases s.len(),
{
    if s.len() == 0 {
        assert(fields(s, sep).len() == 0);
    } else if sep.matches(s[0]) {
        lemma_fields_are_runs(s.drop_first(), sep);
        assert(fields(s, sep) == fields(s.drop_first(), sep));
    } else {
        let n = run_len(s, sep) as int;
        lemma_run_len_bounds(s, sep);
        lemma_fields_are_runs(s.skip(n), sep);
        let rest = fields(s.skip(n), sep);
        assert(fields(s, sep) == seq![s.take(n)] + rest);
        assert forall|i: int| 0 <= i < fields(s, sep).len() implies is_run(
            #[trigger] fields(s, sep)[i],
            sep,
        ) by {
            if i > 0 {
                assert(fields(s, sep)[i] == rest[i - 1]);
            } else {
                assert(fields(s, sep)[0] == s.take(n));
                assert forall|k: int| 0 <= k < n implies !sep.matches(#[trigger] s.take(n)[k]) by {
                    assert(s.take(n)[k] == s[k]);
                }
            }
        }
    }
}

/// A text without separators is its own and only field.
pub proof fn lemma_fields_of_run(s: Seq<char>, sep: Separator)
    requires
        is_run(s, sep),
    ensures
        fields(s, sep) == seq![s],
{
    lemma_fields_take_run(s, sep, 0, s.len() as int);
    assert(s.skip(0) =~= s);
    assert(s.subrange(0, s.len() as int) =~= s);
    assert(s.skip(s.len() as int) =~= Seq::<char>::empty());
    assert(seq![s] + Seq::<Seq<char>>::empty() =~= seq![s]);
}

/// A separator at the end of `s` adds no field.
pub proof fn lemma_fields_push_separator(s: Seq<char>, sep: Separator, c: char)
    requires
        sep.matches(c),
    ensures
        fields(s.push(c), sep) == fields(s, sep),
    decreases s.len(),
{
    let more = s.push(c);
    if s.len() == 0 {
        assert(more.drop_first() =~= s);
    } else if sep.matches(s[0]) {
        assert(more.drop_first() =~= s.drop_first().push(c));
        lemma_fields_push_separator(s.drop_first(), sep, c);
    } else {
        let n = run_len(s, sep) as int;
        lemma_run_len_bounds(s, sep);
        assert forall|k: int| 0 <= k < n implies !sep.matches(#[trigger] more[k]) by {
            assert(more[k] == s[k]);
        }
        lemma_run_len_is(more, sep, n);
        assert(more.take(n) =~= s.take(n));
        assert(more.skip(n) =~= s.skip(n).push(c));
        lemma_fields_push_separator(s.skip(n), sep, c);
    }
}

/// Behind a separator the fields begin anew: where `a` is empty or ends with a
/// separator, the fields of `a + b` are those of `a`, then those of `b`.
pub proof fn lemma_fields_concat(a: Seq<char>, b: Seq<char>, sep: Separator)
    requires
        a.len() > 0 ==> sep.matches(a.last()),
    ensures
        fields(a + b, sep) == fields(a, sep) + fields(b, sep),
    decreases a.len(),
{
    let whole = a + b;
    if a.len() == 0 {
        assert(whole =~= b);
        assert(Seq::<Seq<char>>::empty() + fields(b, sep) =~= fields(b, sep));
    } else if sep.matches(a[0]) {
        assert(whole.drop_first() =~= a.drop_first() + b);
        lemma_fields_concat(a.drop_first(), b, sep);
    } else {
        let n = run_len(a, sep) as int;
        lemma_run_len_bounds(a, sep);
        assert(n < a.len());
        assert forall|k: int| 0 <= k < n implies !sep.matches(#[trigger] whole[k]) by {
            assert(whole[k] == a[k]);
        }
        assert(whole[n] == a[n]);
        lemma_run_len_is(whole, sep, n);
        assert(whole.take(n) =~= a.take(n));
        assert(whole.skip(n) =~= a.skip(n) + b);
        assert(a.skip(n).last() == a.last());
        lemma_fields_concat(a.skip(n), b, sep);
        assert(seq![a.take(n)] + (fields(a.skip(n), sep) + fields(b, sep)) =~= (seq![a.take(n)]
            + fields(a.skip(n), sep)) + fields(b, sep));
    }
}

/// `s` without the whitespace at its start.
pub open spec fn trim_start(s: Seq<char>) -> Seq<char>
    decreases s.len(),
{
    if s.len() > 0 && is_whitespace(s[0]) {
        trim_start(s.drop_first())
    } else {
        s
    }
}

/// `s` without the whitespace at its end.
pub open spec fn trim_end(s: Seq<char>) -> Seq<char>
    decreases s.len(),
{
    if s.len() > 0 && is_whitespace(s.last()) {
        trim_end(s.drop_last())
    } else {
        s
    }
}

/// `s` without the whitespace at its start and at its end.
pub open spec fn trim(s: Seq<char>) -> Seq<char> {
    trim_end(trim_start(s))
}

/// Whether `s` neither begins nor ends with whitespace.
pub open spec fn is_trimmed(s: Seq<char>) -> bool {
    s.len() > 0 ==> !is_whitespace(s[0]) && !is_whitespace(s.last())
}

/// What `trim_start` leaves is empty or begins with no whitespace.
proof fn lemma_trim_start_begins(s: Seq<char>)
    ensures
        trim_start(s).len() > 0 ==> !is_whitespace(trim_start(s)[0]),
    decreases s.len(),
{
    if s.len() > 0 && is_whitespace(s[0]) {
        lemma_trim_start_begins(s.drop_first());
    }
}

/// What `trim_end` leaves is the beginning of `s`, and is empty or ends with
/// no whitespace.
proof fn lemma_trim_end_ends(s: Seq<char>)
    ensures
        trim_end(s).is_prefix_of(s),
        trim_end(s).len() > 0 ==> !is_whitespace(trim_end(s).last()),
    decreases s.len(),
{
    if s.len() > 0 && is_whitespace(s.last()) {
        lemma_trim_end_ends(s.drop_last());
    }
}

/// What `trim` leaves neither begins nor ends with whitespace.
pub proof fn lemma_trim_is_trimmed(s: Seq<char>)
    ensures
        is_trimmed(trim(s)),
{
    let inner = trim_start(s);
    lemma_trim_start_begins(s);
    lemma_trim_end_ends(inner);
    if trim(s).len() > 0 {
        assert(trim(s)[0] == inner.subrange(0, trim(s).len() as int)[0]);
    }
}

/// Where the leading whitespace of `s` ends, `trim_start` begins.
pub proof fn lemma_trim_start_is(s: Seq<char>, a: int)
    requires
        0 <= a <= s.len(),
        forall|k: int| 0 <= k < a ==> is_whitespace(#[trigger] s[k]),
        a < s.len() ==> !is_whitespace(s[a]),
    ensures
        trim_start(s) == s.skip(a),
    decreases a,
{
    if a > 0 {
        let rest = s.drop_first();
        assert(is_whitespace(s[0]));
        assert forall|k: int| 0 <= k < a - 1 implies is_whitespace(#[trigger] rest[k]) by {
            assert(rest[k] == s[k + 1]);
        }
        lemma_trim_start_is(rest, a - 1);
        assert(rest.skip(a - 1) =~= s.skip(a));
    } else {
        assert(s.skip(0) =~= s);
    }
}

/// Where the trailing whitespace of `s` begins, `trim_end` ends.
pub proof fn lemma_trim_end_is(s: Seq<char>, b: int)
    requires
        0 <= b <= s.len(),
        forall|k: int| b <= k < s.len() ==> is_whitespace(#[trigger] s[k]),
        b > 0 ==> !is_whitespace(s[b - 1]),
    ensures
        trim_end(s) == s.take(b),
    decreases s.len() - b,
{
    if b < s.len() {
        let rest = s.drop_last();
        assert(is_whitespace(s[s.len() - 1]));
        assert forall|k: int| b <= k < rest.len() implies is_whitespace(#[trigger] rest[k]) by {
            assert(rest[k] == s[k]);
        }
        lemma_trim_end_is(rest, b);
        assert(rest.take(b) =~= s.take(b));
    } else {
        assert(s.take(b) =~= s);
    }
}

/// The characters of `text`, in order.
pub fn chars_of(text: &str) -> (out: Vec<char>)
    ensures
        out@ == text@,
{
    let mut out: Vec<char> = Vec::new();
    for c in it: text.chars()
        invariant
            it.seq() == text@,
            out@ == it.seq().take(it.index() as int),
    {
        out.push(c);
    }
    out
}

/// The characters of `text` from `from` up to `to`, as a string of their own.
pub fn slice_of(text: &str, from: usize, to: usize) -> (out: String)
    requires
        from <= to <= text@.len(),
    ensures
        out@ == text@.subrange(from as int, to as int),
{
    text.substring_char(from, to).to_owned()
}

/// The parts of `s` that lie between the given bounds, in the order of the
/// bounds: each pair says where a part begins and where it ends.
pub open spec fn cut(s: Seq<char>, bounds: Seq<(usize, usize)>) -> Seq<Seq<char>> {
    Seq::new(bounds.len(), |i: int| s.subrange(bounds[i].0 as int, bounds[i].1 as int))
}

/// Whether each pair of `bounds` encloses a part of `s` that is not empty.
pub open spec fn are_bounds(s: Seq<char>, bounds: Seq<(usize, usize)>) -> bool {
    forall|i: int| 0 <= i < bounds.len() ==> (#[trigger] bounds[i]).0 < bounds[i].1 <= s.len()
}

/// Finds the fields of `chars`: for each field, where it begins and where it
/// ends. The text is walked once.
pub fn field_bounds(chars: &Vec<char>, sep: Separator) -> (out: Vec<(usize, usize)>)
    ensures
        are_bounds(chars@, out@),
        cut(chars@, out@) == fields(chars@, sep),
{
    let n: usize = chars.len();
    let mut out: Vec<(usize, usize)> = Vec::new();
    let mut i: usize = 0;
    proof {
        assert(chars@.skip(0) =~= chars@);
        assert(cut(chars@, out@) =~= Seq::<Seq<char>>::empty());
    }
    while i < n
        invariant
            n == chars@.len(),
            i <= n,
            are_bounds(chars@, out@),
            fields(chars@, sep) == cut(chars@, out@) + fields(chars@.skip(i as int), sep),
        decreases n - i,
    {
        if sep.separates(chars[i]) {
            proof {
                lemma_fields_skip_separator(chars@, sep, i as int);
            }
            i = i + 1;
        } else {
            let mut j: usize = i + 1;
            while j < n && !sep.separates(chars[j])
                invariant
                    n == chars@.len(),
                    i < j <= n,
                    forall|k: int| i <= k < j ==> !sep.matches(#[trigger] chars@[k]),
                decreases n - j,
            {
                j = j + 1;
            }
            proof {
                lemma_fields_take_run(chars@, sep, i as int, j as int);
            }
            let ghost before = cut(chars@, out@);
            let ghost field = chars@.subrange(i as int, j as int);
            out.push((i, j));
            proof {
                assert(cut(chars@, out@) =~= before.push(field));
                assert(before.push(field) + fields(chars@.skip(j as int), sep) =~= before + (
                seq![field] + fields(chars@.skip(j as int), sep)));
            }
            i = j;
        }
    }
    proof {
        assert(chars@.skip(n as int) =~= Seq::<char>::empty());
        assert(cut(chars@, out@) + Seq::<Seq<char>>::empty() =~= cut(chars@, out@));
    }
    out
}

/// Whether the characters of `a` from `from` up to `to` are those of `b` from
/// `start` up to `end`.
pub fn same_part(
    a: &Vec<char>,
    from: usize,
    to: usize,
    b: &Vec<char>,
    start: usize,
    end: usize,
) -> (r: bool)
    requires
        from <= to <= a@.len(),
        start <= end <= b@.len(),
    ensures
        r == (a@.subrange(from as int, to as int) == b@.subrange(start as int, end as int)),
{
    let ghost left = a@.subrange(from as int, to as int);
    let ghost right = b@.subrange(start as int, end as int);
    if to - from != end - start {
        proof {
            assert(left.len() != right.len());
        }
        return false;
    }
    let n: usize = to - from;
    let mut k: usize = 0;
    while k < n
        invariant
            from <= to <= a@.len(),
            start <= end <= b@.len(),
            n == to - from,
            n == end - start,
            k <= n,
            left == a@.subrange(from as int, to as int),
            right == b@.subrange(start as int, end as int),
            forall|m: int| 0 <= m < k ==> left[m] == right[m],
        decreases n - k,
    {
        if a[from + k] != b[start + k] {
            proof {
                assert(left[k as int] != right[k as int]);
            }
            return false;
        }
        k = k + 1;
    }
    proof {
        assert(left =~= right);
    }
    true
}

/// The bounds, within `chars`, of what `trim` leaves of the characters from
/// `from` up to `to`.
pub fn trim_bounds(chars: &Vec<char>, from: usize, to: usize) -> (out: (usize, usize))
    requires
        from <= to <= chars@.len(),
    ensures
        from <= out.0 <= out.1 <= to,
        chars@.subrange(out.0 as int, out.1 as int) == trim(
            chars@.subrange(from as int, to as int),
        ),
{
    let ghost part = chars@.subrange(from as int, to as int);
    let mut a: usize = from;
    while a < to && Separator::Whitespace.separates(chars[a])
        invariant
            from <= a <= to <= chars@.len(),
            forall|k: int| from <= k < a ==> is_whitespace(#[trigger] chars@[k]),
        decreases to - a,
    {
        a = a + 1;
    }
    let mut b: usize = to;
    while b > a && Separator::Whitespace.separates(chars[b - 1])
        invariant
            from <= a <= b <= to <= chars@.len(),
            forall|k: int| b <= k < to ==> is_whitespace(#[trigger] chars@[k]),
        decreases b - a,
    {
        b = b - 1;
    }
    proof {
        assert forall|k: int| 0 <= k < a - from implies is_whitespace(#[trigger] part[k]) by {
            assert(part[k] == chars@[from + k]);
        }
        lemma_trim_start_is(part, a - from);
        let rest = part.skip(a - from);
        assert(rest =~= chars@.subrange(a as int, to as int));
        assert forall|k: int| b - a <= k < rest.len() implies is_whitespace(#[trigger] rest[k]) by {
            assert(rest[k] == chars@[a + k]);
        }
        lemma_trim_end_is(rest, b - a);
        assert(rest.take(b - a) =~= chars@.subrange(a as int, b as int));
    }
    (a, b)
}

/// The place of the first `needle` in `chars`, if there is one.
pub fn find_first(chars: &Vec<char>, needle: char) -> (out: Option<usize>)
    ensures
        match out {
            Some(i) => i < chars@.len() && chars@.index_of_first(needle) == Some(i as int),
            None => chars@.index_of_first(needle) is None,
        },
{
    let mut i: usize = 0;
    while i < chars.len()
        invariant
            i <= chars@.len(),
            forall|k: int| 0 <= k < i ==> chars@[k] != needle,
        decreases chars@.len() - i,
    {
        if chars[i] == needle {
            proof {
                assert(chars@.contains(needle));
                chars@.index_of_first_ensures(needle);
            }
            return Some(i);
        }
        i = i + 1;
    }
    proof {
        chars@.index_of_first_ensures(needle);
    }
    None
}

} // verus!
