//! The laws of a run, proved over the run's specification.
//!
//! A run is `run_of(deps, upgrade_all, replies)` together with
//! `updated_deps(deps, run.updates)`: the report and the dependency
//! table it leaves behind. The lemmas here pin down which entries a run
//! may touch, what each registry reply does to its entry, what the two
//! counters count, and that a run that changes nothing — or a second
//! run against the same registry — leaves the table as it was.

use vstd::prelude::*;
use crate::manifest::{DepView, DepEntryView, spec_set_version, spec_version_of};
use crate::registry::ReplyView;
use crate::rewrite::{
    empty_report, plan_count, plan_of, run_of, update_for, updated_deps, wants_query, UpdateView,
};
use crate::text::wildcard;

verus! {

/// An update a run may produce: it points into the table, at an entry
/// that was queried, keeps that entry's name, and changes its version.
pub open spec fn update_ok(deps: Seq<DepView>, upgrade_all: bool, u: UpdateView) -> bool {
    &&& 0 <= u.index < deps.len()
    &&& wants_query(deps[u.index].entry, upgrade_all)
    &&& u.name == deps[u.index].name
    &&& spec_version_of(deps[u.index].entry) != Some(u.version)
}

/// Every update of a run is sound, and the updates name strictly
/// increasing indices — no entry is updated twice.
pub proof fn lemma_run_updates_sound(
    deps: Seq<DepView>,
    upgrade_all: bool,
    replies: Seq<ReplyView>,
)
    ensures
        ({
            let us = run_of(deps, upgrade_all, replies).updates;
            &&& forall|k: int| 0 <= k < us.len() ==> update_ok(deps, upgrade_all, #[trigger] us[k])
            &&& forall|k1: int, k2: int|
                0 <= k1 < k2 < us.len() ==> us[k1].index < us[k2].index
        }),
    decreases deps.len(),
{
    if deps.len() > 0 {
        let rest = deps.drop_last();
        let d = deps.last();
        assert(forall|x: int| 0 <= x < rest.len() ==> rest[x] == deps[x]);
        if wants_query(d.entry, upgrade_all) {
            lemma_run_updates_sound(rest, upgrade_all, replies.drop_last());
            let prev = run_of(rest, upgrade_all, replies.drop_last());
            assert forall|k: int| 0 <= k < prev.updates.len() implies update_ok(
                deps,
                upgrade_all,
                #[trigger] prev.updates[k],
            ) by {
                assert(update_ok(rest, upgrade_all, prev.updates[k]));
            }
            let us = run_of(deps, upgrade_all, replies).updates;
            match spec_version_of(d.entry) {
                Some(cur) => {
                    match replies.last() {
                        ReplyView::Version(v) => {
                            if v != cur {
                                let u = UpdateView {
                                    index: deps.len() - 1,
                                    name: d.name,
                                    version: v,
                                };
                                assert(us == prev.updates.push(u));
                                assert(update_ok(deps, upgrade_all, u));
                            } else {
                                assert(us == prev.updates);
                            }
                        },
                        _ => {
                            assert(us == prev.updates);
                        },
                    }
                },
                None => {},
            }
        } else {
            lemma_run_updates_sound(rest, upgrade_all, replies);
            let prev = run_of(rest, upgrade_all, replies);
            assert forall|k: int| 0 <= k < prev.updates.len() implies update_ok(
                deps,
                upgrade_all,
                #[trigger] prev.updates[k],
            ) by {
                assert(update_ok(rest, upgrade_all, prev.updates[k]));
            }
        }
    }
}

/// A list of updates that never names `i` assigns `i` nothing.
pub proof fn lemma_update_for_absent(us: Seq<UpdateView>, i: int)
    requires
        forall|k: int| 0 <= k < us.len() ==> (#[trigger] us[k]).index != i,
    ensures
        update_for(us, i) is None,
    decreases us.len(),
{
    if us.len() > 0 {
        assert(forall|k: int| 0 <= k < us.skip(1).len() ==> us.skip(1)[k] == us[k + 1]);
        lemma_update_for_absent(us.skip(1), i);
    }
}

/// Appending one more update changes nothing an earlier update
/// already settled.
pub proof fn lemma_update_for_push(us: Seq<UpdateView>, u: UpdateView, i: int)
    ensures
        update_for(us.push(u), i) == (match update_for(us, i) {
            Some(v) => Some(v),
            None => if u.index == i {
                Some(u.version)
            } else {
                None
            },
        }),
    decreases us.len(),
{
    if us.len() == 0 {
        assert(us.push(u).len() == 1);
        assert(us.push(u)[0] == u);
        assert(us.push(u).skip(1) =~= Seq::<UpdateView>::empty());
        assert(update_for(Seq::<UpdateView>::empty(), i) is None);
    } else {
        assert(us.push(u)[0] == us[0]);
        assert(us.push(u).skip(1) =~= us.skip(1).push(u));
        lemma_update_for_push(us.skip(1), u, i);
    }
}

/// An entry the run did not query is left exactly as it was: entries
/// without a string version, and pinned entries outside upgrade mode,
/// are never mutated.
pub proof fn lemma_unqueried_unchanged(
    deps: Seq<DepView>,
    upgrade_all: bool,
    replies: Seq<ReplyView>,
    i: int,
)
    requires
        0 <= i < deps.len(),
        !wants_query(deps[i].entry, upgrade_all),
    ensures
        updated_deps(deps, run_of(deps, upgrade_all, replies).updates)[i] == deps[i],
{
    let us = run_of(deps, upgrade_all, replies).updates;
    lemma_run_updates_sound(deps, upgrade_all, replies);
    assert(forall|k: int| 0 <= k < us.len() ==> (#[trigger] us[k]).index != i);
    lemma_update_for_absent(us, i);
}

/// An entry that carries no string version — a value that is neither
/// a string nor a sub-table with a string `version` — is never
/// queried, and a run leaves it exactly as it was; by
/// [`lemma_counters`], what is never queried is never counted either.
pub proof fn lemma_versionless_untouched(
    deps: Seq<DepView>,
    upgrade_all: bool,
    replies: Seq<ReplyView>,
    i: int,
)
    requires
        0 <= i < deps.len(),
        spec_version_of(deps[i].entry) is None,
    ensures
        !wants_query(deps[i].entry, upgrade_all),
        updated_deps(deps, run_of(deps, upgrade_all, replies).updates)[i] == deps[i],
{
    lemma_unqueried_unchanged(deps, upgrade_all, replies, i);
}

/// Outside upgrade mode, an entry pinned to anything but the wildcard
/// is left byte for byte as it was.
pub proof fn lemma_pinned_entry_kept(deps: Seq<DepView>, replies: Seq<ReplyView>, i: int)
    requires
        0 <= i < deps.len(),
        spec_version_of(deps[i].entry) != Some(wildcard()),
    ensures
        updated_deps(deps, run_of(deps, false, replies).updates)[i] == deps[i],
{
    lemma_unqueried_unchanged(deps, false, replies, i);
}

/// A queried entry stands in the plan exactly at its rank: the number
/// of queried entries before it.
pub proof fn lemma_plan_rank(deps: Seq<DepView>, upgrade_all: bool, i: int)
    requires
        0 <= i < deps.len(),
        wants_query(deps[i].entry, upgrade_all),
    ensures
        ({
            let rank = plan_count(deps.take(i), upgrade_all);
            &&& 0 <= rank < plan_of(deps, upgrade_all).len()
            &&& plan_of(deps, upgrade_all)[rank] == i
        }),
    decreases deps.len(),
{
    let rest = deps.drop_last();
    if i == deps.len() - 1 {
        assert(deps.take(i) =~= rest);
    } else {
        assert(rest[i] == deps[i]);
        lemma_plan_rank(rest, upgrade_all, i);
        assert(rest.take(i) =~= deps.take(i));
    }
}

/// What one queried entry's reply does to it: a differing version is
/// the one update the run assigns it; an equal version, or any
/// failure, leaves it without one — a failed query never changes the
/// entry, and the rest of the run goes on regardless.
pub proof fn lemma_queried_outcome(
    deps: Seq<DepView>,
    upgrade_all: bool,
    replies: Seq<ReplyView>,
    i: int,
)
    requires
        replies.len() == plan_count(deps, upgrade_all),
        0 <= i < deps.len(),
        wants_query(deps[i].entry, upgrade_all),
    ensures
        ({
            let rank = plan_count(deps.take(i), upgrade_all);
            let us = run_of(deps, upgrade_all, replies).updates;
            &&& 0 <= rank < replies.len()
            &&& match replies[rank] {
                ReplyView::Version(v) => update_for(us, i) == (if Some(v) == spec_version_of(
                    deps[i].entry,
                ) {
                    Option::<Seq<char>>::None
                } else {
                    Some(v)
                }),
                _ => update_for(us, i) is None,
            }
        }),
    decreases deps.len(),
{
    let rest = deps.drop_last();
    let d = deps.last();
    let rank = plan_count(deps.take(i), upgrade_all);
    let us = run_of(deps, upgrade_all, replies).updates;
    if i == deps.len() - 1 {
        assert(deps.take(i) =~= rest);
        lemma_run_updates_sound(rest, upgrade_all, replies.drop_last());
        let prev = run_of(rest, upgrade_all, replies.drop_last());
        assert(forall|k: int|
            0 <= k < prev.updates.len() ==> (#[trigger] prev.updates[k]).index != i);
        lemma_update_for_absent(prev.updates, i);
        match spec_version_of(d.entry) {
            Some(cur) => {
                match replies.last() {
                    ReplyView::Version(v) => {
                        if v != cur {
                            let u = UpdateView { index: i, name: d.name, version: v };
                            assert(us == prev.updates.push(u));
                            lemma_update_for_push(prev.updates, u, i);
                        } else {
                            assert(us == prev.updates);
                        }
                    },
                    _ => {
                        assert(us == prev.updates);
                    },
                }
            },
            None => {},
        }
    } else {
        assert(rest[i] == deps[i]);
        assert(rest.take(i) =~= deps.take(i));
        if wants_query(d.entry, upgrade_all) {
            lemma_queried_outcome(rest, upgrade_all, replies.drop_last(), i);
            crate::rewrite::lemma_plan_count_prefix(rest, upgrade_all, i + 1);
            assert(rest.take(i + 1).drop_last() =~= rest.take(i));
            assert(rest.take(i + 1).last() == rest[i]);
            assert(rank < plan_count(rest, upgrade_all));
            assert(replies.drop_last()[rank] == replies[rank]);
            let prev = run_of(rest, upgrade_all, replies.drop_last());
            match spec_version_of(d.entry) {
                Some(cur) => {
                    match replies.last() {
                        ReplyView::Version(v) => {
                            if v != cur {
                                let u = UpdateView {
                                    index: deps.len() - 1,
                                    name: d.name,
                                    version: v,
                                };
                                assert(us == prev.updates.push(u));
                                lemma_update_for_push(prev.updates, u, i);
                            } else {
                                assert(us == prev.updates);
                            }
                        },
                        _ => {
                            assert(us == prev.updates);
                        },
                    }
                },
                None => {},
            }
        } else {
            lemma_queried_outcome(rest, upgrade_all, replies, i);
        }
    }
}

/// A wildcard entry for which the registry reports a differing
/// version comes out of the run stabilized: same name, version
/// replaced by the registry's.
pub proof fn lemma_wildcard_stabilized(
    deps: Seq<DepView>,
    upgrade_all: bool,
    replies: Seq<ReplyView>,
    i: int,
    v: Seq<char>,
)
    requires
        replies.len() == plan_count(deps, upgrade_all),
        0 <= i < deps.len(),
        spec_version_of(deps[i].entry) == Some(wildcard()),
        replies[plan_count(deps.take(i), upgrade_all)] == ReplyView::Version(v),
        v != wildcard(),
    ensures
        updated_deps(deps, run_of(deps, upgrade_all, replies).updates)[i] == (DepView {
            name: deps[i].name,
            entry: spec_set_version(deps[i].entry, v),
        }),
{
    lemma_queried_outcome(deps, upgrade_all, replies, i);
}

/// How many queried entries a run stabilizes: one for each entry whose
/// constraint was the wildcard and whose reply carries a differing
/// version.
pub open spec fn spec_stabilized_total(
    deps: Seq<DepView>,
    upgrade_all: bool,
    replies: Seq<ReplyView>,
) -> int
    decreases deps.len(),
{
    if deps.len() == 0 {
        0
    } else {
        let rest = deps.drop_last();
        let d = deps.last();
        if wants_query(d.entry, upgrade_all) {
            spec_stabilized_total(rest, upgrade_all, replies.drop_last()) + (match (
                spec_version_of(d.entry),
                replies.last(),
            ) {
                (Some(cur), ReplyView::Version(v)) => if v != cur && cur == wildcard() {
                    1int
                } else {
                    0int
                },
                _ => 0int,
            })
        } else {
            spec_stabilized_total(rest, upgrade_all, replies)
        }
    }
}

/// How many queried entries a run upgrades: one for each entry whose
/// constraint was pinned, in upgrade mode, and whose reply carries a
/// differing version.
pub open spec fn spec_upgraded_total(
    deps: Seq<DepView>,
    upgrade_all: bool,
    replies: Seq<ReplyView>,
) -> int
    decreases deps.len(),
{
    if deps.len() == 0 {
        0
    } else {
        let rest = deps.drop_last();
        let d = deps.last();
        if wants_query(d.entry, upgrade_all) {
            spec_upgraded_total(rest, upgrade_all, replies.drop_last()) + (match (
                spec_version_of(d.entry),
                replies.last(),
            ) {
                (Some(cur), ReplyView::Version(v)) => if v != cur && cur != wildcard()
                    && upgrade_all {
                    1int
                } else {
                    0int
                },
                _ => 0int,
            })
        } else {
            spec_upgraded_total(rest, upgrade_all, replies)
        }
    }
}

/// The two counters count exactly the stabilized and the upgraded
/// entries, one each.
pub proof fn lemma_counters(deps: Seq<DepView>, upgrade_all: bool, replies: Seq<ReplyView>)
    ensures
        run_of(deps, upgrade_all, replies).stabilized == spec_stabilized_total(
            deps,
            upgrade_all,
            replies,
        ),
        run_of(deps, upgrade_all, replies).upgraded == spec_upgraded_total(
            deps,
            upgrade_all,
            replies,
        ),
    decreases deps.len(),
{
    if deps.len() > 0 {
        let rest = deps.drop_last();
        let d = deps.last();
        if wants_query(d.entry, upgrade_all) {
            lemma_counters(rest, upgrade_all, replies.drop_last());
        } else {
            lemma_counters(rest, upgrade_all, replies);
        }
    }
}

/// The reply a queried entry gets back — the one at its rank — either
/// fails or names the very version the entry already holds.
pub open spec fn reply_confirms(
    deps: Seq<DepView>,
    upgrade_all: bool,
    replies: Seq<ReplyView>,
    i: int,
) -> bool {
    match replies[plan_count(deps.take(i), upgrade_all)] {
        ReplyView::Version(v) => Some(v) == spec_version_of(deps[i].entry),
        _ => true,
    }
}

/// A run whose every queried entry gets back a failure or its own
/// current version changes nothing: no updates, both counters zero,
/// the table as it was.
pub proof fn lemma_stable_run(deps: Seq<DepView>, upgrade_all: bool, replies: Seq<ReplyView>)
    requires
        replies.len() == plan_count(deps, upgrade_all),
        forall|i: int|
            0 <= i < deps.len() && wants_query(#[trigger] deps[i].entry, upgrade_all)
                ==> reply_confirms(deps, upgrade_all, replies, i),
    ensures
        run_of(deps, upgrade_all, replies).updates == Seq::<UpdateView>::empty(),
        run_of(deps, upgrade_all, replies).stabilized == 0,
        run_of(deps, upgrade_all, replies).upgraded == 0,
        updated_deps(deps, run_of(deps, upgrade_all, replies).updates) =~= deps,
    decreases deps.len(),
{
    if deps.len() > 0 {
        let rest = deps.drop_last();
        let d = deps.last();
        if wants_query(d.entry, upgrade_all) {
            assert forall|i: int|
                0 <= i < rest.len() && wants_query(
                    #[trigger] rest[i].entry,
                    upgrade_all,
                ) implies reply_confirms(rest, upgrade_all, replies.drop_last(), i) by {
                assert(rest[i] == deps[i]);
                assert(rest.take(i) =~= deps.take(i));
                crate::rewrite::lemma_plan_count_prefix(rest, upgrade_all, i + 1);
                assert(rest.take(i + 1).drop_last() =~= rest.take(i));
                assert(rest.take(i + 1).last() == rest[i]);
                assert(plan_count(rest.take(i), upgrade_all) < plan_count(rest, upgrade_all));
                assert(replies.drop_last()[plan_count(rest.take(i), upgrade_all)] == replies[
                    plan_count(rest.take(i), upgrade_all)]);
                assert(reply_confirms(deps, upgrade_all, replies, i));
            }
            lemma_stable_run(rest, upgrade_all, replies.drop_last());
            assert(deps.take(deps.len() - 1) =~= rest);
            assert(replies.last() == replies[plan_count(rest, upgrade_all)]);
            assert(reply_confirms(deps, upgrade_all, replies, deps.len() - 1));
        } else {
            assert forall|i: int|
                0 <= i < rest.len() && wants_query(
                    #[trigger] rest[i].entry,
                    upgrade_all,
                ) implies reply_confirms(rest, upgrade_all, replies, i) by {
                assert(rest[i] == deps[i]);
                assert(rest.take(i) =~= deps.take(i));
                assert(reply_confirms(deps, upgrade_all, replies, i));
            }
            lemma_stable_run(rest, upgrade_all, replies);
        }
    }
    let us = run_of(deps, upgrade_all, replies).updates;
    assert(forall|i: int| 0 <= i < deps.len() ==> update_for(us, i) is None);
}

/// An update list that assigns `i` a version holds an update that
/// carries it.
pub proof fn lemma_update_for_found(us: Seq<UpdateView>, i: int)
    requires
        update_for(us, i) is Some,
    ensures
        exists|k: int|
            0 <= k < us.len() && (#[trigger] us[k]).index == i && Some(us[k].version)
                == update_for(us, i),
    decreases us.len(),
{
    if us.len() > 0 && us[0].index != i {
        lemma_update_for_found(us.skip(1), i);
        let k0 = choose|k0: int|
            0 <= k0 < us.skip(1).len() && (#[trigger] us.skip(1)[k0]).index == i && Some(
                us.skip(1)[k0].version,
            ) == update_for(us.skip(1), i);
        assert(us[k0 + 1] == us.skip(1)[k0]);
    }
}

/// Replacing an entry's version leaves it versioned just when it was.
pub proof fn lemma_set_version_shape(e: DepEntryView, v: Seq<char>)
    ensures
        spec_version_of(spec_set_version(e, v)) == (if spec_version_of(e) is Some {
            Some(v)
        } else {
            Option::<Seq<char>>::None
        }),
{
    match e {
        DepEntryView::Bare(_) => {},
        DepEntryView::Keyed(_) => {},
        DepEntryView::Unversioned => {},
    }
}

/// The replies a registry gives a run: one per queried entry, each the
/// registry's fixed answer for that entry's name.
pub open spec fn replies_for(
    deps: Seq<DepView>,
    upgrade_all: bool,
    reg: Map<Seq<char>, ReplyView>,
) -> Seq<ReplyView> {
    plan_of(deps, upgrade_all).map_values(|i: int| reg[deps[i].name])
}

/// Running the tool twice against the same registry changes nothing
/// the second time: whatever the first run did, the second produces no
/// update, counts nothing, and leaves the table exactly as the first
/// run left it.
pub proof fn lemma_idempotent(deps: Seq<DepView>, upgrade_all: bool, reg: Map<Seq<char>, ReplyView>)
    ensures
        ({
            let run1 = run_of(deps, upgrade_all, replies_for(deps, upgrade_all, reg));
            let deps2 = updated_deps(deps, run1.updates);
            let run2 = run_of(deps2, upgrade_all, replies_for(deps2, upgrade_all, reg));
            &&& run2.updates == Seq::<UpdateView>::empty()
            &&& run2.stabilized == 0
            &&& run2.upgraded == 0
            &&& updated_deps(deps2, run2.updates) =~= deps2
        }),
{
    let replies1 = replies_for(deps, upgrade_all, reg);
    let run1 = run_of(deps, upgrade_all, replies1);
    let deps2 = updated_deps(deps, run1.updates);
    let replies2 = replies_for(deps2, upgrade_all, reg);
    assert(replies1.len() == plan_count(deps, upgrade_all));
    assert(replies2.len() == plan_count(deps2, upgrade_all));
    assert(deps2.len() == deps.len());
    lemma_run_updates_sound(deps, upgrade_all, replies1);
    assert forall|i: int|
        0 <= i < deps2.len() && wants_query(
            #[trigger] deps2[i].entry,
            upgrade_all,
        ) implies reply_confirms(deps2, upgrade_all, replies2, i) by {
        assert(deps2[i].name == deps[i].name);
        // The entry is queried by the first run too: either it was
        // updated — then its update is sound, so it was queried — or
        // it is the very entry it was.
        match update_for(run1.updates, i) {
            Some(v) => {
                lemma_update_for_found(run1.updates, i);
                let k = choose|k: int|
                    0 <= k < run1.updates.len() && (#[trigger] run1.updates[k]).index == i && Some(
                        run1.updates[k].version,
                    ) == update_for(run1.updates, i);
                assert(update_ok(deps, upgrade_all, run1.updates[k]));
                assert(wants_query(deps[i].entry, upgrade_all));
                lemma_set_version_shape(deps[i].entry, v);
            },
            None => {
                assert(deps2[i] == deps[i]);
            },
        }
        // The first run read the registry's fixed answer for this name
        // at this entry's rank.
        lemma_plan_rank(deps, upgrade_all, i);
        assert(replies1[plan_count(deps.take(i), upgrade_all)] == reg[deps[i].name]);
        lemma_queried_outcome(deps, upgrade_all, replies1, i);
        // And the second run reads the same answer.
        lemma_plan_rank(deps2, upgrade_all, i);
        assert(replies2[plan_count(deps2.take(i), upgrade_all)] == reg[deps2[i].name]);
        match reg[deps[i].name] {
            ReplyView::Version(v) => {
                if Some(v) == spec_version_of(deps[i].entry) {
                    assert(update_for(run1.updates, i) is None);
                    assert(deps2[i] == deps[i]);
                } else {
                    assert(update_for(run1.updates, i) == Some(v));
                    lemma_set_version_shape(deps[i].entry, v);
                }
            },
            _ => {},
        }
    }
    lemma_stable_run(deps2, upgrade_all, replies2);
}

/// A table with no wildcard constraint, outside upgrade mode, plans no
/// query at all, and a run over it reports nothing and leaves the
/// table equal to what it was — whatever the registry would have said.
pub proof fn lemma_round_trip(deps: Seq<DepView>, replies: Seq<ReplyView>)
    requires
        forall|i: int|
            0 <= i < deps.len() ==> spec_version_of(#[trigger] deps[i].entry) != Some(wildcard()),
    ensures
        plan_count(deps, false) == 0,
        run_of(deps, false, replies) == empty_report(),
        updated_deps(deps, run_of(deps, false, replies).updates) =~= deps,
    decreases deps.len(),
{
    if deps.len() > 0 {
        let rest = deps.drop_last();
        assert(forall|x: int| 0 <= x < rest.len() ==> rest[x] == deps[x]);
        lemma_round_trip(rest, replies);
    }
    let us = run_of(deps, false, replies).updates;
    assert(forall|i: int| 0 <= i < deps.len() ==> update_for(us, i) is None);
}

} // verus!
