//! Positions and tokens in a line-oriented text.
//!
//! Every function looks at a character sequence from a given position. The
//! specification functions are total: where nothing matches they return the
//! position they were given, or `None`.

use vstd::prelude::*;
use crate::text::{chars_of, lower, same_ignoring_case, string_of, to_lower_char};

verus! {

/// The delimiter sets that end a token.
#[derive(Clone, Copy, Debug, PartialEq, Eq, Structural)]
pub enum Until {
    /// A space or a line break.
    Field,
    /// A colon or a line break.
    Name,
    /// A space or a slash.
    Slash,
    /// A space, a slash or a line break.
    Clock,
    /// A colon.
    Colon,
    /// A line break.
    Line,
    /// A semicolon.
    Semicolon,
    /// An equals sign.
    Equals,
}

impl Until {
    pub open spec fn stops(self, c: char) -> bool {
        match self {
            Until::Field => c == ' ' || c == '\r' || c == '\n',
            Until::Name => c == ':' || c == '\r' || c == '\n',
            Until::Slash => c == ' ' || c == '/',
            Until::Clock => c == ' ' || c == '/' || c == '\r' || c == '\n',
            Until::Colon => c == ':',
            Until::Line => c == '\r' || c == '\n',
            Until::Semicolon => c == ';',
            Until::Equals => c == '=',
        }
    }

    pub fn is_stop(self, c: char) -> (r: bool)
        ensures
            r == self.stops(c),
    {
        match self {
            Until::Field => c == ' ' || c == '\r' || c == '\n',
            Until::Name => c == ':' || c == '\r' || c == '\n',
            Until::Slash => c == ' ' || c == '/',
            Until::Clock => c == ' ' || c == '/' || c == '\r' || c == '\n',
            Until::Colon => c == ':',
            Until::Line => c == '\r' || c == '\n',
            Until::Semicolon => c == ';',
            Until::Equals => c == '=',
        }
    }
}

/// The first position from `i` on that holds a delimiter, or the end of `s`.
pub open spec fn token_end(s: Seq<char>, i: int, until: Until) -> int
    decreases s.len() - i,
{
    if i < 0 || i >= s.len() || until.stops(s[i]) {
        i
    } else {
        token_end(s, i + 1, until)
    }
}

/// `c` stands at position `i`.
pub open spec fn has_char(s: Seq<char>, i: int, c: char) -> bool {
    0 <= i < s.len() && s[i] == c
}

/// Where the line that ends at `i` hands over to the next: after a line feed,
/// after a carriage return with its line feed, or at the end of the text.
pub open spec fn line_end(s: Seq<char>, i: int) -> Option<int> {
    if i == s.len() {
        Some(i)
    } else if has_char(s, i, '\n') {
        Some(i + 1)
    } else if has_char(s, i, '\r') && has_char(s, i + 1, '\n') {
        Some(i + 2)
    } else {
        None
    }
}

/// The rest of the line from `i` is free text: it runs to the next line
/// break, and a carriage return in it is followed by a line feed.
pub open spec fn free_text_ok(s: Seq<char>, i: int) -> bool {
    let e = token_end(s, i, Until::Line);
    has_char(s, e, '\r') ==> has_char(s, e + 1, '\n')
}

/// `tag` stands at position `i`, up to ASCII case.
pub open spec fn has_tag(s: Seq<char>, i: int, tag: Seq<char>) -> bool {
    0 <= i && i + tag.len() <= s.len() && same_ignoring_case(s.subrange(i, i + tag.len()), tag)
}

/// The fields that follow `i`, each led by a single space, and the position
/// after the last of them.
pub open spec fn spaced_fields(s: Seq<char>, i: int) -> (Seq<Seq<char>>, int)
    decreases s.len() - i,
{
    let e = token_end(s, i + 1, Until::Field);
    if has_char(s, i, ' ') && i + 1 < e <= s.len() {
        let (rest, n) = spaced_fields(s, e);
        (seq![s.subrange(i + 1, e)] + rest, n)
    } else {
        (Seq::empty(), i)
    }
}

pub proof fn lemma_token_end_bounds(s: Seq<char>, i: int, until: Until)
    requires
        0 <= i <= s.len(),
    ensures
        i <= token_end(s, i, until) <= s.len(),
        forall|j: int| i <= j < token_end(s, i, until) ==> !until.stops(#[trigger] s[j]),
        token_end(s, i, until) < s.len() ==> until.stops(s[token_end(s, i, until)]),
    decreases s.len() - i,
{
    if i < s.len() && !until.stops(s[i]) {
        lemma_token_end_bounds(s, i + 1, until);
    }
}

pub fn find_token_end(input: &Vec<char>, pos: usize, until: Until) -> (end: usize)
    requires
        pos <= input.len(),
    ensures
        end == token_end(input@, pos as int, until),
        pos <= end <= input.len(),
{
    let mut i: usize = pos;
    while i < input.len() && !until.is_stop(input[i])
        invariant
            pos <= i <= input.len(),
            token_end(input@, pos as int, until) == token_end(input@, i as int, until),
        decreases input.len() - i,
    {
        i += 1;
    }
    i
}

pub fn at_char(input: &Vec<char>, pos: usize, c: char) -> (r: bool)
    ensures
        r == has_char(input@, pos as int, c),
{
    pos < input.len() && input[pos] == c
}

pub fn skip_line_end(input: &Vec<char>, pos: usize) -> (r: Option<usize>)
    requires
        pos <= input.len(),
    ensures
        match line_end(input@, pos as int) {
            Some(n) => r == Some(n as usize) && pos <= n <= input.len(),
            None => r is None,
        },
{
    if pos == input.len() {
        Some(pos)
    } else if input[pos] == '\n' {
        Some(pos + 1)
    } else if input[pos] == '\r' && pos + 1 < input.len() && input[pos + 1] == '\n' {
        Some(pos + 2)
    } else {
        None
    }
}

/// The end of the free text that starts at `pos`, where it is well formed.
pub fn find_free_text_end(input: &Vec<char>, pos: usize) -> (r: Option<usize>)
    requires
        pos <= input.len(),
    ensures
        r is Some == free_text_ok(input@, pos as int),
        r is Some ==> r->0 == token_end(input@, pos as int, Until::Line) && pos <= r->0
            <= input.len() && line_end(input@, r->0 as int) is Some,
{
    let e = find_token_end(input, pos, Until::Line);
    proof {
        lemma_token_end_bounds(input@, pos as int, Until::Line);
    }
    if e < input.len() && input[e] == '\r' && !(e + 1 < input.len() && input[e + 1] == '\n') {
        None
    } else {
        Some(e)
    }
}

/// Steps over `tag` where it stands at `pos`, up to ASCII case.
pub fn skip_tag(input: &Vec<char>, pos: usize, tag: &str) -> (r: Option<usize>)
    requires
        pos <= input.len(),
    ensures
        r is Some == has_tag(input@, pos as int, tag@),
        r is Some ==> r->0 == pos + tag@.len() && r->0 <= input.len(),
{
    let t = chars_of(tag);
    if t.len() > input.len() - pos {
        return None;
    }
    let ghost part = input@.subrange(pos as int, pos + t.len());
    let mut i: usize = 0;
    while i < t.len()
        invariant
            i <= t.len(),
            t@ == tag@,
            pos + t.len() <= input.len(),
            part == input@.subrange(pos as int, pos + t.len()),
            lower(part).take(i as int) == lower(t@).take(i as int),
        decreases t.len() - i,
    {
        if to_lower_char(input[pos + i]) != to_lower_char(t[i]) {
            assert(lower(part)[i as int] != lower(t@)[i as int]);
            return None;
        }
        assert(lower(part).take(i + 1) =~= lower(part).take(i as int).push(lower(part)[i as int]));
        assert(lower(t@).take(i + 1) =~= lower(t@).take(i as int).push(lower(t@)[i as int]));
        i += 1;
    }
    assert(lower(part).take(i as int) =~= lower(part));
    assert(lower(t@).take(i as int) =~= lower(t@));
    Some(pos + t.len())
}

/// The pairs of fields that follow `i`, each field led by a single space,
/// and the position after the last pair.
pub open spec fn spaced_pairs(s: Seq<char>, i: int) -> (Seq<(Seq<char>, Seq<char>)>, int)
    decreases s.len() - i,
{
    let a = token_end(s, i + 1, Until::Field);
    let b = token_end(s, a + 1, Until::Field);
    if has_char(s, i, ' ') && i + 1 < a && has_char(s, a, ' ') && a + 1 < b <= s.len() {
        let (rest, n) = spaced_pairs(s, b);
        (seq![(s.subrange(i + 1, a), s.subrange(a + 1, b))] + rest, n)
    } else {
        (Seq::empty(), i)
    }
}

/// Reads the pairs of fields that follow `pos`.
pub fn take_spaced_pairs(input: &Vec<char>, pos: usize) -> (r: (Vec<(String, String)>, usize))
    requires
        pos <= input.len(),
    ensures
        r.0.deep_view() == spaced_pairs(input@, pos as int).0,
        r.1 == spaced_pairs(input@, pos as int).1,
        pos <= r.1 <= input.len(),
{
    let mut pairs: Vec<(String, String)> = Vec::new();
    let mut i: usize = pos;
    loop
        invariant
            pos <= i <= input.len(),
            spaced_pairs(input@, pos as int).0 == pairs.deep_view() + spaced_pairs(
                input@,
                i as int,
            ).0,
            spaced_pairs(input@, pos as int).1 == spaced_pairs(input@, i as int).1,
        ensures
            pos <= i <= input.len(),
            spaced_pairs(input@, pos as int).0 == pairs.deep_view(),
            spaced_pairs(input@, pos as int).1 == i,
        decreases input.len() - i,
    {
        let mut found = false;
        let mut a = i;
        let mut b = i;
        if at_char(input, i, ' ') {
            a = find_token_end(input, i + 1, Until::Field);
            if a - i > 1 && at_char(input, a, ' ') {
                b = find_token_end(input, a + 1, Until::Field);
                found = b - a > 1;
            }
        }
        if !found {
            assert(spaced_pairs(input@, i as int).0 =~= Seq::<(Seq<char>, Seq<char>)>::empty());
            assert(pairs.deep_view() + Seq::<(Seq<char>, Seq<char>)>::empty()
                =~= pairs.deep_view());
            break;
        }
        let ghost before = pairs.deep_view();
        let ghost pair = (input@.subrange(i + 1, a as int), input@.subrange(a + 1, b as int));
        pairs.push((string_of(input, i + 1, a), string_of(input, a + 1, b)));
        assert(pairs.deep_view() =~= before.push(pair));
        assert(before + (seq![pair] + spaced_pairs(input@, b as int).0) =~= pairs.deep_view()
            + spaced_pairs(input@, b as int).0);
        i = b;
    }
    (pairs, i)
}

/// Reads the fields that follow `pos`, each led by a single space.
pub fn take_spaced_fields(input: &Vec<char>, pos: usize) -> (r: (Vec<String>, usize))
    requires
        pos <= input.len(),
    ensures
        r.0.deep_view() == spaced_fields(input@, pos as int).0,
        r.1 == spaced_fields(input@, pos as int).1,
        pos <= r.1 <= input.len(),
{
    let mut fields: Vec<String> = Vec::new();
    let mut i: usize = pos;
    loop
        invariant
            pos <= i <= input.len(),
            spaced_fields(input@, pos as int).0 == fields.deep_view() + spaced_fields(
                input@,
                i as int,
            ).0,
            spaced_fields(input@, pos as int).1 == spaced_fields(input@, i as int).1,
        ensures
            pos <= i <= input.len(),
            spaced_fields(input@, pos as int).0 == fields.deep_view(),
            spaced_fields(input@, pos as int).1 == i,
        decreases input.len() - i,
    {
        let e = if at_char(input, i, ' ') {
            find_token_end(input, i + 1, Until::Field)
        } else {
            i
        };
        if e - i <= 1 {
            assert(spaced_fields(input@, i as int).0 =~= Seq::<Seq<char>>::empty());
            assert(fields.deep_view() + Seq::<Seq<char>>::empty() =~= fields.deep_view());
            break;
        }
        let ghost before = fields.deep_view();
        fields.push(string_of(input, i + 1, e));
        assert(fields.deep_view() =~= before.push(input@.subrange(i + 1, e as int)));
        assert(before + (seq![input@.subrange(i + 1, e as int)] + spaced_fields(input@, e as int).0)
            =~= fields.deep_view() + spaced_fields(input@, e as int).0);
        i = e;
    }
    (fields, i)
}

/// The outcome of a parser agrees with what the grammar says: the same
/// failure, or the same value and the same position after it.
pub open spec fn parsed_as<T: DeepView>(r: Option<(T, usize)>, expected: Option<(T::V, int)>) -> bool {
    match (r, expected) {
        (Some((x, n)), Some((value, next))) => x.deep_view() == value && n == next,
        (None, None) => true,
        _ => false,
    }
}

/// The value that a grammar gives.
pub open spec fn value_of<T>(p: Option<(T, int)>) -> T {
    p.unwrap().0
}

/// The position after what a grammar accepts.
pub open spec fn next_of<T>(p: Option<(T, int)>) -> int {
    p.unwrap().1
}

/// A parser that succeeded stopped between `pos` and the end of the text.
pub open spec fn within<T>(r: Option<(T, usize)>, pos: usize, len: nat) -> bool {
    match r {
        Some((_, n)) => pos <= n <= len,
        None => true,
    }
}

/// The characters `input[from..to]`.
pub fn slice_of(input: &Vec<char>, from: usize, to: usize) -> (r: Vec<char>)
    requires
        from <= to <= input.len(),
    ensures
        r@ == input@.subrange(from as int, to as int),
{
    let mut out: Vec<char> = Vec::new();
    let mut i: usize = from;
    while i < to
        invariant
            from <= i <= to <= input.len(),
            out@ == input@.subrange(from as int, i as int),
        decreases to - i,
    {
        out.push(input[i]);
        assert(input@.subrange(from as int, i + 1) =~= input@.subrange(from as int, i as int).push(
            input@[i as int],
        ));
        i += 1;
    }
    out
}

} // verus!
