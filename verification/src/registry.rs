//! The registry client's result type and its failure messages.
//!
//! The query itself — running the registry's search command — is the
//! caller's job; the library interprets the command's textual output
//! (see [`crate::record`] and [`interpret_search_output`]) and states
//! here what each outcome means and what the tool says about it.

use vstd::prelude::*;

verus! {

/// What a registry query came to.
pub enum Reply {
    /// The registry reported this latest version for the dependency.
    Version(String),
    /// The registry's answer was empty: no such dependency.
    NotFound,
    /// The registry answered, but not with a well-formed record that
    /// names the dependency.
    BadResponse,
    /// The search invocation itself could not be run.
    ClientError,
}

/// The spec-level image of a reply.
pub enum ReplyView {
    Version(Seq<char>),
    NotFound,
    BadResponse,
    ClientError,
}

impl View for Reply {
    type V = ReplyView;

    open spec fn view(&self) -> ReplyView {
        match self {
            Reply::Version(s) => ReplyView::Version(s@),
            Reply::NotFound => ReplyView::NotFound,
            Reply::BadResponse => ReplyView::BadResponse,
            Reply::ClientError => ReplyView::ClientError,
        }
    }
}

/// The views of a vector of replies.
pub open spec fn reply_views(rs: Seq<Reply>) -> Seq<ReplyView> {
    rs.map_values(|r: Reply| r@)
}

/// Is the continuation marker — a newline followed by three dots —
/// at index `i`?
pub open spec fn marker_at(s: Seq<char>, i: int) -> bool {
    i + 4 <= s.len() && s[i] == '\n' && s[i + 1] == '.' && s[i + 2] == '.' && s[i + 3] == '.'
}

/// The first index at or after `i` where the continuation marker
/// stands, if any.
pub open spec fn find_marker(s: Seq<char>, i: int) -> Option<int>
    decreases s.len() - i,
{
    if i < 0 || i + 4 > s.len() {
        None
    } else if marker_at(s, i) {
        Some(i)
    } else {
        find_marker(s, i + 1)
    }
}

/// The authoritative part of the search's output: everything up to the
/// first continuation marker, or all of it if there is none.
pub open spec fn first_record(s: Seq<char>) -> Seq<char> {
    match find_marker(s, 0) {
        None => s,
        Some(p) => s.take(p),
    }
}

/// What the search's output means for the dependency `name`: an empty
/// record means the registry knows no such dependency; a record that
/// does not parse, holds a key twice, or does not name the dependency
/// is a bad response; otherwise the value under `name` is its latest
/// version.
pub open spec fn spec_outcome(raw: Seq<char>, name: Seq<char>) -> ReplyView {
    let rec = first_record(raw);
    if rec.len() == 0 {
        ReplyView::NotFound
    } else {
        match crate::record::spec_parse_record(rec) {
            None => ReplyView::BadResponse,
            Some(pairs) => if crate::record::spec_has_dup(pairs) {
                ReplyView::BadResponse
            } else {
                match crate::record::spec_lookup(pairs, name) {
                    None => ReplyView::BadResponse,
                    Some(v) => ReplyView::Version(v),
                }
            },
        }
    }
}

/// Finds the continuation marker.
fn find_marker_exec(s: &str, n: usize) -> (r: Option<usize>)
    requires
        n == s@.len(),
    ensures
        match r {
            Some(p) => find_marker(s@, 0) == Some(p as int) && p <= n,
            None => find_marker(s@, 0) is None,
        },
{
    if n < 4 {
        return None;
    }
    let mut i: usize = 0;
    while i <= n - 4
        invariant
            i <= n,
            n == s@.len(),
            n >= 4,
            find_marker(s@, 0) == find_marker(s@, i as int),
        decreases n - i,
    {
        if s.get_char(i) == '\n' && s.get_char(i + 1) == '.' && s.get_char(i + 2) == '.'
            && s.get_char(i + 3) == '.' {
            return Some(i);
        }
        i = i + 1;
    }
    None
}

/// Interprets one registry query's outcome: `output` is the search
/// command's standard output, or nothing if the command could not be
/// run at all.
pub fn interpret_search_output(output: Option<&String>, name: &str) -> (r: Reply)
    ensures
        match output {
            None => r@ is ClientError,
            Some(o) => r@ == spec_outcome(o@, name@),
        },
{
    let o = match output {
        None => {
            return Reply::ClientError;
        },
        Some(o) => o,
    };
    let n = o.as_str().unicode_len();
    let rec = match find_marker_exec(o.as_str(), n) {
        None => {
            proof {
                assert(o@.subrange(0, n as int) =~= o@);
            }
            o.as_str().substring_char(0, n)
        },
        Some(p) => o.as_str().substring_char(0, p),
    };
    if rec.unicode_len() == 0 {
        return Reply::NotFound;
    }
    match crate::record::parse_record(rec) {
        None => Reply::BadResponse,
        Some(pairs) => {
            if crate::record::has_dup(&pairs) {
                Reply::BadResponse
            } else {
                match crate::record::lookup_value(&pairs, name) {
                    None => Reply::BadResponse,
                    Some(v) => Reply::Version(v),
                }
            }
        },
    }
}

/// The message printed for a failed query; a successful reply has none.
pub open spec fn spec_failure_line(r: ReplyView, name: Seq<char>) -> Seq<char> {
    match r {
        ReplyView::Version(_) => Seq::empty(),
        ReplyView::NotFound => "crates.io has no crate named \""@ + name + "\""@,
        ReplyView::BadResponse => "search returned invalid data"@,
        ReplyView::ClientError => "Error running search"@,
    }
}

/// Builds the message printed for a failed query.
pub fn failure_line(r: &Reply, name: &str) -> (m: String)
    requires
        !(r@ is Version),
    ensures
        m@ == spec_failure_line(r@, name@),
{
    match r {
        Reply::Version(_) => String::new(),
        Reply::NotFound => {
            let mut m = "crates.io has no crate named \"".to_owned();
            m.append(name);
            m.append("\"");
            assert(m@ =~= spec_failure_line(r@, name@));
            m
        },
        Reply::BadResponse => "search returned invalid data".to_owned(),
        Reply::ClientError => "Error running search".to_owned(),
    }
}

} // verus!
