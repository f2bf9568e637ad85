//! The dependency rewriter: which entries are queried, what each reply
//! does to the document, what the run's counters come to, and what the
//! tool prints about it.
//!
//! A run over a dependency table goes in two verified halves around the
//! registry queries, which only the caller can perform:
//! [`plan_queries`] names the entries to query, in document order; the
//! caller queries each and hands the replies, in that order, to
//! [`apply_replies`], which yields the version updates to carry into
//! the document, the two counters, and the change and failure lines.
//! [`apply_updates`] states what the updated dependency table holds.

use vstd::prelude::*;
use crate::manifest::{
    Dep, DepEntry, DepView, ManifestShape, dep_views, spec_set_version, spec_version_of,
};
use crate::registry::{Reply, ReplyView, reply_views, spec_failure_line, failure_line};
use crate::text::{wildcard, dec_str, decimal_string, is_wildcard, str_eq};

verus! {

/// One version overwrite to carry into the document: the entry at
/// `index` (in document order) gets `version` as its new constraint.
pub struct Update {
    pub index: usize,
    pub name: String,
    pub version: String,
}

/// The spec-level image of an update.
pub struct UpdateView {
    pub index: int,
    pub name: Seq<char>,
    pub version: Seq<char>,
}

impl View for Update {
    type V = UpdateView;

    open spec fn view(&self) -> UpdateView {
        UpdateView { index: self.index as int, name: self.name@, version: self.version@ }
    }
}

/// The views of a vector of updates.
pub open spec fn update_views(us: Seq<Update>) -> Seq<UpdateView> {
    us.map_values(|u: Update| u@)
}

/// What applying the replies came to.
pub struct Report {
    /// The version overwrites, in document order.
    pub updates: Vec<Update>,
    /// How many wildcard constraints were replaced.
    pub stabilized: usize,
    /// How many non-wildcard constraints were replaced, in upgrade mode.
    pub upgraded: usize,
    /// The change and failure lines, in document order.
    pub lines: Vec<String>,
}

/// The spec-level image of a report.
#[verifier::ext_equal]
pub struct ReportView {
    pub updates: Seq<UpdateView>,
    pub stabilized: int,
    pub upgraded: int,
    pub lines: Seq<Seq<char>>,
}

impl View for Report {
    type V = ReportView;

    open spec fn view(&self) -> ReportView {
        ReportView {
            updates: update_views(self.updates@),
            stabilized: self.stabilized as int,
            upgraded: self.upgraded as int,
            lines: self.lines@.map_values(|l: String| l@),
        }
    }
}

pub open spec fn empty_report() -> ReportView {
    ReportView { updates: Seq::empty(), stabilized: 0, upgraded: 0, lines: Seq::empty() }
}

/// An entry is queried exactly when it carries a version constraint
/// that is the wildcard, or any constraint at all in upgrade mode.
pub open spec fn wants_query(e: crate::manifest::DepEntryView, upgrade_all: bool) -> bool {
    match spec_version_of(e) {
        Some(v) => v == wildcard() || upgrade_all,
        None => false,
    }
}

/// The indices of the entries to query, in document order.
pub open spec fn plan_of(deps: Seq<DepView>, upgrade_all: bool) -> Seq<int>
    decreases deps.len(),
{
    if deps.len() == 0 {
        Seq::empty()
    } else if wants_query(deps.last().entry, upgrade_all) {
        plan_of(deps.drop_last(), upgrade_all).push(deps.len() - 1)
    } else {
        plan_of(deps.drop_last(), upgrade_all)
    }
}

/// How many entries are queried.
pub open spec fn plan_count(deps: Seq<DepView>, upgrade_all: bool) -> int {
    plan_of(deps, upgrade_all).len() as int
}

/// The change line printed when an entry's version is replaced.
pub open spec fn spec_notice_line(name: Seq<char>, old_v: Seq<char>, new_v: Seq<char>) -> Seq<
    char,
> {
    name + ": "@ + old_v + " -> "@ + new_v
}

/// What one reply does to the report, at a queried entry whose current
/// constraint is `cur`.
pub open spec fn step_report(
    r: ReportView,
    i: int,
    name: Seq<char>,
    cur: Seq<char>,
    reply: ReplyView,
    upgrade_all: bool,
) -> ReportView {
    match reply {
        ReplyView::Version(v) => if v == cur {
            r
        } else {
            ReportView {
                updates: r.updates.push(UpdateView { index: i, name: name, version: v }),
                stabilized: r.stabilized + if cur == wildcard() {
                    1int
                } else {
                    0int
                },
                upgraded: r.upgraded + if cur != wildcard() && upgrade_all {
                    1int
                } else {
                    0int
                },
                lines: r.lines.push(spec_notice_line(name, cur, v)),
            }
        },
        _ => ReportView {
            updates: r.updates,
            stabilized: r.stabilized,
            upgraded: r.upgraded,
            lines: r.lines.push(spec_failure_line(reply, name)),
        },
    }
}

/// The report of a whole run: the replies are consumed, in order, by
/// the queried entries, in document order.
pub open spec fn run_of(deps: Seq<DepView>, upgrade_all: bool, replies: Seq<ReplyView>) -> ReportView
    decreases deps.len(),
{
    if deps.len() == 0 {
        empty_report()
    } else {
        let d = deps.last();
        let i = deps.len() - 1;
        if wants_query(d.entry, upgrade_all) {
            match spec_version_of(d.entry) {
                Some(cur) => step_report(
                    run_of(deps.drop_last(), upgrade_all, replies.drop_last()),
                    i,
                    d.name,
                    cur,
                    replies.last(),
                    upgrade_all,
                ),
                None => run_of(deps.drop_last(), upgrade_all, replies),
            }
        } else {
            run_of(deps.drop_last(), upgrade_all, replies)
        }
    }
}

/// Does this entry get queried this run?
pub fn entry_wants_query(e: &DepEntry, upgrade_all: bool) -> (r: bool)
    ensures
        r == wants_query(e@, upgrade_all),
{
    match e.version() {
        Some(cur) => is_wildcard(cur.as_str()) || upgrade_all,
        None => false,
    }
}

/// A queried prefix never holds more queries than the whole table.
pub proof fn lemma_plan_count_prefix(deps: Seq<DepView>, upgrade_all: bool, i: int)
    requires
        0 <= i <= deps.len(),
    ensures
        plan_count(deps.take(i), upgrade_all) <= plan_count(deps, upgrade_all),
    decreases deps.len() - i,
{
    if i == deps.len() {
        assert(deps.take(i) =~= deps);
    } else {
        assert(deps.take(i + 1).drop_last() =~= deps.take(i));
        assert(deps.take(i + 1).last() == deps[i]);
        lemma_plan_count_prefix(deps, upgrade_all, i + 1);
    }
}

/// Names the entries to query, by index in document order.
pub fn plan_queries(deps: &Vec<Dep>, upgrade_all: bool) -> (r: Vec<usize>)
    ensures
        r@.map_values(|u: usize| u as int) == plan_of(dep_views(deps@), upgrade_all),
        forall|k: int| 0 <= k < r@.len() ==> r@[k] < deps@.len(),
{
    let ghost dviews = dep_views(deps@);
    let mut r: Vec<usize> = Vec::new();
    let mut i: usize = 0;
    proof {
        assert(dviews.take(0) =~= Seq::<DepView>::empty());
        assert(r@.map_values(|u: usize| u as int) =~= Seq::<int>::empty());
    }
    while i < deps.len()
        invariant
            0 <= i <= deps.len(),
            dviews == dep_views(deps@),
            r@.map_values(|u: usize| u as int) == plan_of(dviews.take(i as int), upgrade_all),
            forall|k: int| 0 <= k < r@.len() ==> r@[k] < deps@.len(),
        decreases deps.len() - i,
    {
        proof {
            assert(dviews.take(i + 1).drop_last() =~= dviews.take(i as int));
            assert(dviews.take(i + 1).last() == dviews[i as int]);
        }
        if entry_wants_query(&deps[i].entry, upgrade_all) {
            r.push(i);
            proof {
                assert(r@.map_values(|u: usize| u as int) =~= r@.drop_last().map_values(
                    |u: usize| u as int,
                ).push(i as int));
            }
        }
        i = i + 1;
    }
    proof {
        assert(dviews.take(deps@.len() as int) =~= dviews);
    }
    r
}

/// Applies the replies of a run: one reply per queried entry, in
/// document order.
pub fn apply_replies(deps: &Vec<Dep>, upgrade_all: bool, replies: &Vec<Reply>) -> (rep: Report)
    requires
        replies@.len() == plan_count(dep_views(deps@), upgrade_all),
    ensures
        rep@ == run_of(dep_views(deps@), upgrade_all, reply_views(replies@)),
{
    let ghost dviews = dep_views(deps@);
    let ghost rviews = reply_views(replies@);
    let mut rep = Report { updates: Vec::new(), stabilized: 0, upgraded: 0, lines: Vec::new() };
    let mut r: usize = 0;
    let mut i: usize = 0;
    proof {
        assert(dviews.take(0) =~= Seq::<DepView>::empty());
        assert(rviews.take(0) =~= Seq::<ReplyView>::empty());
        assert(rep@ =~= empty_report());
    }
    while i < deps.len()
        invariant
            0 <= i <= deps.len(),
            r <= replies.len(),
            dviews == dep_views(deps@),
            rviews == reply_views(replies@),
            replies@.len() == plan_count(dviews, upgrade_all),
            r == plan_count(dviews.take(i as int), upgrade_all),
            rep@ == run_of(dviews.take(i as int), upgrade_all, rviews.take(r as int)),
            rep.stabilized + rep.upgraded <= i,
        decreases deps.len() - i,
    {
        proof {
            assert(dviews.take(i + 1).drop_last() =~= dviews.take(i as int));
            assert(dviews.take(i + 1).last() == dviews[i as int]);
        }
        let planned = entry_wants_query(&deps[i].entry, upgrade_all);
        if planned {
            proof {
                lemma_plan_count_prefix(dviews, upgrade_all, i + 1);
                assert(plan_count(dviews.take(i + 1), upgrade_all) == r + 1);
            }
            let reply = &replies[r];
            proof {
                assert(rviews.take(r + 1).drop_last() =~= rviews.take(r as int));
                assert(rviews.take(r + 1).last() == rviews[r as int]);
            }
            match deps[i].entry.version() {
                Some(cur) => {
                    match reply {
                        Reply::Version(v) => {
                            if !str_eq(cur.as_str(), v.as_str()) {
                                let line = notice_line(
                                    deps[i].name.as_str(),
                                    cur.as_str(),
                                    v.as_str(),
                                );
                                let wild = is_wildcard(cur.as_str());
                                if wild {
                                    rep.stabilized = rep.stabilized + 1;
                                } else if upgrade_all {
                                    rep.upgraded = rep.upgraded + 1;
                                }
                                rep.updates.push(
                                    Update {
                                        index: i,
                                        name: deps[i].name.clone(),
                                        version: v.clone(),
                                    },
                                );
                                rep.lines.push(line);
                            }
                        },
                        _ => {
                            let line = failure_line(reply, deps[i].name.as_str());
                            rep.lines.push(line);
                        },
                    }
                    proof {
                        assert(rep@ =~= run_of(
                            dviews.take(i + 1),
                            upgrade_all,
                            rviews.take(r + 1),
                        ));
                    }
                },
                None => {
                    proof {
                        assert(false);
                    }
                },
            }
            r = r + 1;
        } else {
            proof {
                assert(rep@ =~= run_of(dviews.take(i + 1), upgrade_all, rviews.take(r as int)));
            }
        }
        i = i + 1;
    }
    proof {
        assert(dviews.take(deps@.len() as int) =~= dviews);
        assert(rviews.take(r as int) =~= rviews);
    }
    rep
}

/// Builds the change line printed when an entry's version is replaced.
pub fn notice_line(name: &str, old_v: &str, new_v: &str) -> (m: String)
    ensures
        m@ == spec_notice_line(name@, old_v@, new_v@),
{
    let mut m = name.to_owned();
    m.append(": ");
    m.append(old_v);
    m.append(" -> ");
    m.append(new_v);
    assert(m@ =~= spec_notice_line(name@, old_v@, new_v@));
    m
}

/// The new version an update list assigns to the entry at `i`, if any:
/// the first update naming that index wins.
pub open spec fn update_for(updates: Seq<UpdateView>, i: int) -> Option<Seq<char>>
    decreases updates.len(),
{
    if updates.len() == 0 {
        None
    } else if updates[0].index == i {
        Some(updates[0].version)
    } else {
        update_for(updates.skip(1), i)
    }
}

/// The dependency table after the updates are carried in: each updated
/// entry has its version constraint replaced, everything else is as it
/// was.
pub open spec fn updated_deps(deps: Seq<DepView>, updates: Seq<UpdateView>) -> Seq<DepView> {
    Seq::new(
        deps.len(),
        |i: int|
            match update_for(updates, i) {
                Some(v) => DepView {
                    name: deps[i].name,
                    entry: spec_set_version(deps[i].entry, v),
                },
                None => deps[i],
            },
    )
}

/// Looks up the new version, if any, that the updates assign to the
/// entry at `i`.
pub fn find_update(updates: &Vec<Update>, i: usize) -> (r: Option<String>)
    ensures
        match r {
            Some(v) => update_for(update_views(updates@), i as int) == Some(v@),
            None => update_for(update_views(updates@), i as int) is None,
        },
{
    let ghost uviews = update_views(updates@);
    let mut j: usize = 0;
    proof {
        assert(uviews.skip(0) =~= uviews);
    }
    while j < updates.len()
        invariant
            0 <= j <= updates.len(),
            uviews == update_views(updates@),
            update_for(uviews, i as int) == update_for(uviews.skip(j as int), i as int),
        decreases updates.len() - j,
    {
        proof {
            assert(uviews.skip(j as int)[0] == uviews[j as int]);
            assert(uviews.skip(j as int).skip(1) =~= uviews.skip(j + 1));
        }
        if updates[j].index == i {
            return Some(updates[j].version.clone());
        }
        j = j + 1;
    }
    proof {
        assert(uviews.skip(updates@.len() as int).len() == 0);
    }
    None
}

/// Carries a run's updates into the dependency table.
pub fn apply_updates(deps: &Vec<Dep>, updates: &Vec<Update>) -> (r: Vec<Dep>)
    ensures
        dep_views(r@) == updated_deps(dep_views(deps@), update_views(updates@)),
{
    let ghost dviews = dep_views(deps@);
    let ghost uviews = update_views(updates@);
    let ghost target = updated_deps(dviews, uviews);
    let mut out: Vec<Dep> = Vec::new();
    let mut i: usize = 0;
    proof {
        assert(dep_views(out@) =~= target.take(0));
    }
    while i < deps.len()
        invariant
            0 <= i <= deps.len(),
            dviews == dep_views(deps@),
            uviews == update_views(updates@),
            target == updated_deps(dviews, uviews),
            dep_views(out@) == target.take(i as int),
        decreases deps.len() - i,
    {
        let ghost prev = out@;
        let d: Dep = match find_update(updates, i) {
            Some(v) => Dep { name: deps[i].name.clone(), entry: deps[i].entry.set_version(v) },
            None => deps[i].duplicate(),
        };
        let ghost dv = d@;
        out.push(d);
        proof {
            assert(dviews[i as int] == deps@[i as int]@);
            assert(dv == target[i as int]);
            assert(dep_views(out@) =~= dep_views(prev).push(dv));
            assert(target.take(i + 1) =~= target.take(i as int).push(target[i as int]));
            assert(dep_views(out@) =~= target.take(i + 1));
        }
        i = i + 1;
    }
    proof {
        assert(target.take(deps@.len() as int) =~= target);
    }
    out
}

/// The plural word for a dependency count.
pub open spec fn spec_dep_word(n: int) -> Seq<char> {
    if n == 1 {
        "dependency"@
    } else {
        "dependencies"@
    }
}

/// The summary lines printed after all entries are processed. The line
/// about upgraded entries takes its plural from the upgraded count.
pub open spec fn spec_summary(stabilized: int, upgraded: int, upgrade_all: bool) -> Seq<
    Seq<char>,
> {
    let s1: Seq<Seq<char>> = if stabilized > 0 {
        seq!["Stabilized "@ + dec_str(stabilized as nat) + " "@ + spec_dep_word(stabilized)]
    } else {
        Seq::empty()
    };
    let s2: Seq<Seq<char>> = if upgraded > 0 {
        seq!["Upgraded "@ + dec_str(upgraded as nat) + " "@ + spec_dep_word(upgraded)]
    } else {
        Seq::empty()
    };
    let s3: Seq<Seq<char>> = if stabilized == 0 && upgraded == 0 {
        if upgrade_all {
            seq!["All dependencies are up to date"@]
        } else {
            seq!["All dependencies are stable"@]
        }
    } else {
        Seq::empty()
    };
    s1 + s2 + s3
}

/// Builds one count line, `<verb> <n> dependency|dependencies`.
fn count_line(verb: &str, n: usize) -> (m: String)
    ensures
        m@ == verb@ + dec_str(n as nat) + " "@ + spec_dep_word(n as int),
{
    let mut m = verb.to_owned();
    let d = decimal_string(n);
    m.append(d.as_str());
    m.append(" ");
    if n == 1 {
        m.append("dependency");
    } else {
        m.append("dependencies");
    }
    assert(m@ =~= verb@ + dec_str(n as nat) + " "@ + spec_dep_word(n as int));
    m
}

/// Builds the summary lines printed after all entries are processed.
pub fn summary_lines(stabilized: usize, upgraded: usize, upgrade_all: bool) -> (r: Vec<String>)
    ensures
        r@.map_values(|l: String| l@) == spec_summary(
            stabilized as int,
            upgraded as int,
            upgrade_all,
        ),
{
    let mut r: Vec<String> = Vec::new();
    if stabilized > 0 {
        r.push(count_line("Stabilized ", stabilized));
    }
    if upgraded > 0 {
        r.push(count_line("Upgraded ", upgraded));
    }
    if stabilized == 0 && upgraded == 0 {
        if upgrade_all {
            r.push("All dependencies are up to date".to_owned());
        } else {
            r.push("All dependencies are stable".to_owned());
        }
    }
    proof {
        reveal_strlit("Stabilized ");
        reveal_strlit("Upgraded ");
        assert(r@.map_values(|l: String| l@) =~= spec_summary(
            stabilized as int,
            upgraded as int,
            upgrade_all,
        ));
    }
    r
}

/// The notice printed when the document's shape keeps the run from
/// rewriting anything; a well-shaped dependency table has none.
pub fn shape_notice(shape: &ManifestShape) -> (r: Option<String>)
    ensures
        match shape {
            ManifestShape::NotTable => r matches Some(m) && m@ == "Invalid manifest"@,
            ManifestShape::NoDeps => r matches Some(m) && m@ == "No dependencies"@,
            ManifestShape::DepsNotTable => r matches Some(m) && m@ == "Invalid dependencies"@,
            ManifestShape::Deps(_) => r is None,
        },
{
    match shape {
        ManifestShape::NotTable => Some("Invalid manifest".to_owned()),
        ManifestShape::NoDeps => Some("No dependencies".to_owned()),
        ManifestShape::DepsNotTable => Some("Invalid dependencies".to_owned()),
        ManifestShape::Deps(_) => None,
    }
}

} // verus!
