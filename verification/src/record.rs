//! A small, explicit parser for the registry search's textual answer.
//!
//! The search command answers with lines of the form
//! `name = "version"`, each optionally followed by whitespace and a
//! `#`-introduced comment, with blank and comment-only lines allowed in
//! between. This module parses such a record into its key–value pairs.
//! The grammar is deliberately narrow and written out here rather than
//! inherited from a general manifest parser: a key is one or more
//! ASCII letters, digits, `-` or `_`; a value is a double-quoted string
//! that may not contain a backslash or a further quote; anything else
//! makes the record invalid.

use vstd::prelude::*;

verus! {

/// Whitespace inside a line: space, tab, or a stray carriage return.
pub open spec fn is_ws(c: char) -> bool {
    c == ' ' || c == '\t' || c == '\r'
}

/// A character that may stand in a key: an ASCII letter, a digit,
/// `-` or `_`.
pub open spec fn is_key_char(c: char) -> bool {
    let u = c as u32;
    (97 <= u && u <= 122) || (65 <= u && u <= 90) || (48 <= u && u <= 57) || c == '-' || c == '_'
}

/// The first index at or after `i` that does not hold whitespace.
pub open spec fn skip_ws(s: Seq<char>, i: int) -> int
    decreases s.len() - i,
{
    if i < 0 || i >= s.len() {
        i
    } else if is_ws(s[i]) {
        skip_ws(s, i + 1)
    } else {
        i
    }
}

/// The first index at or after `i` that does not hold a key character.
pub open spec fn key_end(s: Seq<char>, i: int) -> int
    decreases s.len() - i,
{
    if i < 0 || i >= s.len() {
        i
    } else if is_key_char(s[i]) {
        key_end(s, i + 1)
    } else {
        i
    }
}

/// The first index at or after `i` holding exactly `c`, if any.
pub open spec fn find_from(s: Seq<char>, i: int, c: char) -> Option<int>
    decreases s.len() - i,
{
    if i < 0 || i >= s.len() {
        None
    } else if s[i] == c {
        Some(i)
    } else {
        find_from(s, i + 1, c)
    }
}

/// What one line of the record holds.
pub enum LineParse {
    /// Nothing but whitespace, or a comment.
    Blank,
    /// `key = "value"`, with an optional trailing comment.
    Pair(Seq<char>, Seq<char>),
    /// Anything else: the record is invalid.
    Bad,
}

/// Parses one line of the record against the grammar above.
pub open spec fn spec_parse_line(s: Seq<char>) -> LineParse {
    let i = skip_ws(s, 0);
    if i >= s.len() {
        LineParse::Blank
    } else if s[i] == '#' {
        LineParse::Blank
    } else {
        let j = key_end(s, i);
        if j == i {
            LineParse::Bad
        } else {
            let k = skip_ws(s, j);
            if k >= s.len() || s[k] != '=' {
                LineParse::Bad
            } else {
                let m = skip_ws(s, k + 1);
                if m >= s.len() || s[m] != '"' {
                    LineParse::Bad
                } else {
                    match find_from(s, m + 1, '"') {
                        None => LineParse::Bad,
                        Some(q) => {
                            let bad_escape = match find_from(s, m + 1, '\\') {
                                Some(b) => b < q,
                                None => false,
                            };
                            if bad_escape {
                                LineParse::Bad
                            } else {
                                let t = skip_ws(s, q + 1);
                                if t < s.len() && s[t] != '#' {
                                    LineParse::Bad
                                } else {
                                    LineParse::Pair(s.subrange(i, j), s.subrange(m + 1, q))
                                }
                            }
                        },
                    }
                }
            }
        }
    }
}

/// The record split at its newlines; a record always holds at least
/// one (possibly empty) line.
pub open spec fn split_lines(s: Seq<char>) -> Seq<Seq<char>>
    decreases s.len(),
{
    if s.len() == 0 {
        seq![Seq::<char>::empty()]
    } else if s[0] == '\n' {
        seq![Seq::<char>::empty()] + split_lines(s.skip(1))
    } else {
        let t = split_lines(s.skip(1));
        seq![seq![s[0]] + t[0]] + t.skip(1)
    }
}

pub proof fn lemma_split_lines_nonempty(s: Seq<char>)
    ensures
        split_lines(s).len() >= 1,
    decreases s.len(),
{
    if s.len() != 0 && s[0] != '\n' {
        lemma_split_lines_nonempty(s.skip(1));
    }
}

/// Splitting off everything up to the first newline — or the whole
/// record, if it has none — agrees with [`split_lines`].
pub proof fn lemma_split_first(s: Seq<char>, p: int)
    requires
        0 <= p <= s.len(),
        forall|k: int| 0 <= k < p ==> s[k] != '\n',
        p == s.len() || s[p] == '\n',
    ensures
        p == s.len() ==> split_lines(s) == seq![s],
        p < s.len() ==> split_lines(s) == seq![s.take(p)] + split_lines(s.skip(p + 1)),
    decreases p,
{
    lemma_split_lines_nonempty(s);
    if p == 0 {
        if p == s.len() {
            assert(s =~= Seq::<char>::empty());
            assert(split_lines(s) =~= seq![s]);
        } else {
            assert(s.take(0) =~= Seq::<char>::empty());
            assert(split_lines(s) =~= seq![s.take(0)] + split_lines(s.skip(1)));
        }
    } else {
        let r = s.skip(1);
        lemma_split_lines_nonempty(r);
        assert(forall|k: int| 0 <= k < p - 1 ==> r[k] != '\n');
        lemma_split_first(r, p - 1);
        let t = split_lines(r);
        if p == s.len() {
            assert(t == seq![r]);
            assert(seq![s[0]] + t[0] =~= s);
            assert(t.skip(1) =~= Seq::<Seq<char>>::empty());
            assert(split_lines(s) =~= seq![s]);
        } else {
            assert(t == seq![r.take(p - 1)] + split_lines(r.skip(p)));
            assert(t[0] == r.take(p - 1));
            assert(seq![s[0]] + t[0] =~= s.take(p));
            assert(t.skip(1) =~= split_lines(r.skip(p)));
            assert(r.skip(p) =~= s.skip(p + 1));
            assert(split_lines(s) =~= seq![s.take(p)] + split_lines(s.skip(p + 1)));
        }
    }
}

/// Parses a sequence of lines: every line must parse, blank lines are
/// dropped, and the pairs come out in line order.
pub open spec fn parse_lines(lines: Seq<Seq<char>>) -> Option<Seq<(Seq<char>, Seq<char>)>>
    decreases lines.len(),
{
    if lines.len() == 0 {
        Some(Seq::empty())
    } else {
        match spec_parse_line(lines[0]) {
            LineParse::Bad => None,
            LineParse::Blank => parse_lines(lines.skip(1)),
            LineParse::Pair(k, v) => match parse_lines(lines.skip(1)) {
                None => None,
                Some(t) => Some(seq![(k, v)] + t),
            },
        }
    }
}

/// Parses a whole record into its key–value pairs, if it is valid.
pub open spec fn spec_parse_record(s: Seq<char>) -> Option<Seq<(Seq<char>, Seq<char>)>> {
    parse_lines(split_lines(s))
}

/// The views of a vector of string pairs.
pub open spec fn pair_views(pairs: Seq<(String, String)>) -> Seq<(Seq<char>, Seq<char>)> {
    pairs.map_values(|p: (String, String)| (p.0@, p.1@))
}

/// The value under the first pair whose key is `name`, if any.
pub open spec fn spec_lookup(pairs: Seq<(Seq<char>, Seq<char>)>, name: Seq<char>) -> Option<
    Seq<char>,
>
    decreases pairs.len(),
{
    if pairs.len() == 0 {
        None
    } else if pairs[0].0 == name {
        Some(pairs[0].1)
    } else {
        spec_lookup(pairs.skip(1), name)
    }
}

/// Does some key occur twice?
pub open spec fn spec_has_dup(pairs: Seq<(Seq<char>, Seq<char>)>) -> bool {
    exists|i: int, j: int| 0 <= i < j < pairs.len() && pairs[i].0 == pairs[j].0
}

fn is_ws_char(c: char) -> (r: bool)
    ensures
        r == is_ws(c),
{
    c == ' ' || c == '\t' || c == '\r'
}

fn is_key_char_exec(c: char) -> (r: bool)
    ensures
        r == is_key_char(c),
{
    let u: u32 = c as u32;
    (97 <= u && u <= 122) || (65 <= u && u <= 90) || (48 <= u && u <= 57) || c == '-' || c == '_'
}

/// Walks past whitespace.
fn skip_ws_at(s: &str, i: usize, n: usize) -> (r: usize)
    requires
        n == s@.len(),
        i <= n,
    ensures
        r == skip_ws(s@, i as int),
        i <= r <= n,
{
    let mut j = i;
    while j < n
        invariant
            i <= j <= n,
            n == s@.len(),
            skip_ws(s@, i as int) == skip_ws(s@, j as int),
        decreases n - j,
    {
        let c = s.get_char(j);
        if !is_ws_char(c) {
            return j;
        }
        j = j + 1;
    }
    j
}

/// Walks past key characters.
fn key_end_at(s: &str, i: usize, n: usize) -> (r: usize)
    requires
        n == s@.len(),
        i <= n,
    ensures
        r == key_end(s@, i as int),
        i <= r <= n,
{
    let mut j = i;
    while j < n
        invariant
            i <= j <= n,
            n == s@.len(),
            key_end(s@, i as int) == key_end(s@, j as int),
        decreases n - j,
    {
        let c = s.get_char(j);
        if !is_key_char_exec(c) {
            return j;
        }
        j = j + 1;
    }
    j
}

/// Finds the next occurrence of `c`.
fn find_char_at(s: &str, i: usize, n: usize, c: char) -> (r: Option<usize>)
    requires
        n == s@.len(),
        i <= n,
    ensures
        match r {
            Some(j) => i <= j < n && find_from(s@, i as int, c) == Some(j as int),
            None => find_from(s@, i as int, c) is None,
        },
{
    let mut j = i;
    while j < n
        invariant
            i <= j <= n,
            n == s@.len(),
            find_from(s@, i as int, c) == find_from(s@, j as int, c),
        decreases n - j,
    {
        if s.get_char(j) == c {
            return Some(j);
        }
        j = j + 1;
    }
    None
}

/// What one line of the record holds, as parsed at run time.
pub enum LineOut {
    Blank,
    Pair(String, String),
    Bad,
}

/// Parses one line of the record.
pub fn parse_line(s: &str) -> (r: LineOut)
    ensures
        match r {
            LineOut::Blank => spec_parse_line(s@) is Blank,
            LineOut::Pair(k, v) => spec_parse_line(s@) == LineParse::Pair(k@, v@),
            LineOut::Bad => spec_parse_line(s@) is Bad,
        },
{
    let n = s.unicode_len();
    let i = skip_ws_at(s, 0, n);
    if i == n {
        return LineOut::Blank;
    }
    if s.get_char(i) == '#' {
        return LineOut::Blank;
    }
    let j = key_end_at(s, i, n);
    if j == i {
        return LineOut::Bad;
    }
    let k = skip_ws_at(s, j, n);
    if k == n || s.get_char(k) != '=' {
        return LineOut::Bad;
    }
    let m = skip_ws_at(s, k + 1, n);
    if m == n || s.get_char(m) != '"' {
        return LineOut::Bad;
    }
    let q = match find_char_at(s, m + 1, n, '"') {
        None => {
            return LineOut::Bad;
        },
        Some(q) => q,
    };
    let bad_escape = match find_char_at(s, m + 1, n, '\\') {
        Some(b) => b < q,
        None => false,
    };
    if bad_escape {
        return LineOut::Bad;
    }
    let t = skip_ws_at(s, q + 1, n);
    if t < n && s.get_char(t) != '#' {
        return LineOut::Bad;
    }
    let key = s.substring_char(i, j).to_owned();
    let value = s.substring_char(m + 1, q).to_owned();
    LineOut::Pair(key, value)
}

/// Splits the record at its newlines.
fn split_record(s: &str) -> (r: Vec<String>)
    ensures
        r@.map_values(|l: String| l@) == split_lines(s@),
{
    let n = s.unicode_len();
    let mut out: Vec<String> = Vec::new();
    let mut pos: usize = 0;
    proof {
        assert(s@.skip(0) =~= s@);
        assert(out@.map_values(|l: String| l@) =~= Seq::<Seq<char>>::empty());
    }
    loop
        invariant
            pos <= n,
            n == s@.len(),
            split_lines(s@) == out@.map_values(|l: String| l@) + split_lines(s@.skip(pos as int)),
        decreases n - pos,
    {
        let ghost prev = out@;
        let ghost rest = s@.skip(pos as int);
        match find_char_at(s, pos, n, '\n') {
            Some(p) => {
                let line = s.substring_char(pos, p).to_owned();
                out.push(line);
                proof {
                    lemma_find_from_props(s@, pos as int, '\n');
                    assert(forall|k: int|
                        0 <= k < p - pos ==> rest[k] == s@[pos + k] && rest[k] != '\n');
                    assert(rest[p - pos] == '\n');
                    lemma_split_first(rest, p - pos);
                    assert(rest.take(p - pos) =~= s@.subrange(pos as int, p as int));
                    assert(rest.skip(p - pos + 1) =~= s@.skip(p + 1));
                    assert(out@.map_values(|l: String| l@) =~= prev.map_values(
                        |l: String| l@,
                    ).push(s@.subrange(pos as int, p as int)));
                    assert(prev.map_values(|l: String| l@) + (seq![rest.take(p - pos)]
                        + split_lines(s@.skip(p + 1))) =~= out@.map_values(|l: String| l@)
                        + split_lines(s@.skip(p + 1)));
                }
                pos = p + 1;
            },
            None => {
                let line = s.substring_char(pos, n).to_owned();
                out.push(line);
                proof {
                    lemma_find_from_props(s@, pos as int, '\n');
                    assert(forall|k: int|
                        0 <= k < rest.len() ==> rest[k] == s@[pos + k] && rest[k] != '\n');
                    lemma_split_first(rest, rest.len() as int);
                    assert(rest =~= s@.subrange(pos as int, n as int));
                    assert(out@.map_values(|l: String| l@) =~= prev.map_values(
                        |l: String| l@,
                    ).push(rest));
                    assert(prev.map_values(|l: String| l@) + seq![rest] =~= out@.map_values(
                        |l: String| l@,
                    ));
                    assert(split_lines(s@) =~= out@.map_values(|l: String| l@));
                }
                return out;
            },
        }
    }
}

/// Where `find_from` answers, it points at the first occurrence.
pub proof fn lemma_find_from_props(s: Seq<char>, i: int, c: char)
    requires
        0 <= i <= s.len(),
    ensures
        match find_from(s, i, c) {
            Some(j) => i <= j < s.len() && s[j] == c && forall|k: int|
                i <= k < j ==> s[k] != c,
            None => forall|k: int| i <= k < s.len() ==> s[k] != c,
        },
    decreases s.len() - i,
{
    if i < s.len() && s[i] != c {
        lemma_find_from_props(s, i + 1, c);
    }
}

/// Parses a whole record into its key–value pairs.
pub fn parse_record(s: &str) -> (r: Option<Vec<(String, String)>>)
    ensures
        match r {
            Some(pairs) => spec_parse_record(s@) == Some(pair_views(pairs@)),
            None => spec_parse_record(s@) is None,
        },
{
    let lines = split_record(s);
    let ghost lviews = lines@.map_values(|l: String| l@);
    let mut out: Vec<(String, String)> = Vec::new();
    let mut i: usize = 0;
    proof {
        assert(lviews.skip(0) =~= lviews);
        assert(pair_views(out@) =~= Seq::<(Seq<char>, Seq<char>)>::empty());
    }
    while i < lines.len()
        invariant
            i <= lines.len(),
            lviews == lines@.map_values(|l: String| l@),
            lviews == split_lines(s@),
            match parse_lines(lviews.skip(i as int)) {
                Some(t) => parse_lines(lviews) == Some(pair_views(out@) + t),
                None => parse_lines(lviews) is None,
            },
        decreases lines.len() - i,
    {
        let ghost rest = lviews.skip(i as int);
        proof {
            assert(rest[0] == lviews[i as int]);
            assert(rest.skip(1) =~= lviews.skip(i + 1));
        }
        match parse_line(lines[i].as_str()) {
            LineOut::Bad => {
                return None;
            },
            LineOut::Blank => {},
            LineOut::Pair(k, v) => {
                let ghost prev = out@;
                out.push((k, v));
                proof {
                    assert(pair_views(out@) =~= pair_views(prev).push(
                        (out@[prev.len() as int].0@, out@[prev.len() as int].1@),
                    ));
                    if let Some(t) = parse_lines(lviews.skip(i + 1)) {
                        assert(pair_views(prev) + (seq![
                            (out@[prev.len() as int].0@, out@[prev.len() as int].1@),
                        ] + t) =~= pair_views(out@) + t);
                    }
                }
            },
        }
        i = i + 1;
    }
    proof {
        assert(lviews.skip(lines@.len() as int).len() == 0);
        assert(pair_views(out@) + Seq::<(Seq<char>, Seq<char>)>::empty() =~= pair_views(out@));
    }
    Some(out)
}

/// Looks up the value under `name`.
pub fn lookup_value(pairs: &Vec<(String, String)>, name: &str) -> (r: Option<String>)
    ensures
        match r {
            Some(v) => spec_lookup(pair_views(pairs@), name@) == Some(v@),
            None => spec_lookup(pair_views(pairs@), name@) is None,
        },
{
    let ghost views = pair_views(pairs@);
    let mut j: usize = 0;
    proof {
        assert(views.skip(0) =~= views);
    }
    while j < pairs.len()
        invariant
            j <= pairs.len(),
            views == pair_views(pairs@),
            spec_lookup(views, name@) == spec_lookup(views.skip(j as int), name@),
        decreases pairs.len() - j,
    {
        proof {
            assert(views.skip(j as int)[0] == views[j as int]);
            assert(views.skip(j as int).skip(1) =~= views.skip(j + 1));
        }
        if crate::text::str_eq(pairs[j].0.as_str(), name) {
            return Some(pairs[j].1.clone());
        }
        j = j + 1;
    }
    proof {
        assert(views.skip(pairs@.len() as int).len() == 0);
    }
    None
}

/// Does some key occur twice?
pub fn has_dup(pairs: &Vec<(String, String)>) -> (r: bool)
    ensures
        r == spec_has_dup(pair_views(pairs@)),
{
    let ghost views = pair_views(pairs@);
    let mut i: usize = 0;
    while i < pairs.len()
        invariant
            i <= pairs.len(),
            views == pair_views(pairs@),
            forall|a: int, b: int| 0 <= a < b < views.len() && a < i ==> views[a].0 != views[b].0,
        decreases pairs.len() - i,
    {
        let mut j: usize = i + 1;
        while j < pairs.len()
            invariant
                i < j <= pairs.len(),
                views == pair_views(pairs@),
                forall|b: int| i < b < j ==> views[i as int].0 != views[b].0,
            decreases pairs.len() - j,
        {
            if crate::text::str_eq(pairs[i].0.as_str(), pairs[j].0.as_str()) {
                assert(views[i as int].0 == views[j as int].0);
                return true;
            }
            j = j + 1;
        }
        i = i + 1;
    }
    false
}

} // verus!
