//! A plain model of the manifest, holding exactly what the rewrite
//! logic reads: the shape of the document around the `dependencies`
//! table, and, for each dependency entry, its name and its version
//! constraint, if the entry carries one as a string.
//!
//! The caller that owns the parsed document converts each dependency
//! entry into a [`DepEntry`] and, once the run is planned and applied,
//! carries the resulting updates back into the document; everything the
//! tool decides about an entry it decides on this model.

use vstd::prelude::*;

verus! {

/// One dependency entry's shape, as far as the rewrite logic reads it.
pub enum DepEntry {
    /// The entry's value is the version string itself.
    Bare(String),
    /// The entry's value is a sub-table whose `version` key holds this
    /// string; the sub-table's other keys are not part of the model and
    /// are never touched.
    Keyed(String),
    /// The entry carries no string version: its value is neither a
    /// string nor a sub-table with a string `version` key. Such an
    /// entry is never queried, rewritten or counted.
    Unversioned,
}

/// A named dependency entry.
pub struct Dep {
    pub name: String,
    pub entry: DepEntry,
}

/// The spec-level image of a dependency entry.
pub enum DepEntryView {
    Bare(Seq<char>),
    Keyed(Seq<char>),
    Unversioned,
}

/// The spec-level image of a named entry.
pub struct DepView {
    pub name: Seq<char>,
    pub entry: DepEntryView,
}

impl View for DepEntry {
    type V = DepEntryView;

    open spec fn view(&self) -> DepEntryView {
        match self {
            DepEntry::Bare(s) => DepEntryView::Bare(s@),
            DepEntry::Keyed(s) => DepEntryView::Keyed(s@),
            DepEntry::Unversioned => DepEntryView::Unversioned,
        }
    }
}

impl View for Dep {
    type V = DepView;

    open spec fn view(&self) -> DepView {
        DepView { name: self.name@, entry: self.entry@ }
    }
}

/// The views of a vector of entries.
pub open spec fn dep_views(deps: Seq<Dep>) -> Seq<DepView> {
    deps.map_values(|d: Dep| d@)
}

/// The version constraint an entry carries, if any.
pub open spec fn spec_version_of(e: DepEntryView) -> Option<Seq<char>> {
    match e {
        DepEntryView::Bare(s) => Some(s),
        DepEntryView::Keyed(s) => Some(s),
        DepEntryView::Unversioned => None,
    }
}

/// The same entry with its version constraint replaced; an entry
/// without one is returned unchanged.
pub open spec fn spec_set_version(e: DepEntryView, v: Seq<char>) -> DepEntryView {
    match e {
        DepEntryView::Bare(_) => DepEntryView::Bare(v),
        DepEntryView::Keyed(_) => DepEntryView::Keyed(v),
        DepEntryView::Unversioned => DepEntryView::Unversioned,
    }
}

impl DepEntry {
    /// The version constraint this entry carries, if any.
    pub fn version(&self) -> (r: Option<&String>)
        ensures
            match r {
                Some(s) => spec_version_of(self@) == Some(s@),
                None => spec_version_of(self@) is None,
            },
    {
        match self {
            DepEntry::Bare(s) => Some(s),
            DepEntry::Keyed(s) => Some(s),
            DepEntry::Unversioned => None,
        }
    }

    /// A copy of this entry.
    pub fn duplicate(&self) -> (r: DepEntry)
        ensures
            r@ == self@,
    {
        match self {
            DepEntry::Bare(s) => DepEntry::Bare(s.clone()),
            DepEntry::Keyed(s) => DepEntry::Keyed(s.clone()),
            DepEntry::Unversioned => DepEntry::Unversioned,
        }
    }

    /// The same entry with its version constraint replaced.
    pub fn set_version(&self, v: String) -> (r: DepEntry)
        ensures
            r@ == spec_set_version(self@, v@),
    {
        match self {
            DepEntry::Bare(_) => DepEntry::Bare(v),
            DepEntry::Keyed(_) => DepEntry::Keyed(v),
            DepEntry::Unversioned => DepEntry::Unversioned,
        }
    }
}

impl Dep {
    /// A copy of this named entry.
    pub fn duplicate(&self) -> (r: Dep)
        ensures
            r@ == self@,
    {
        Dep { name: self.name.clone(), entry: self.entry.duplicate() }
    }
}

/// The parsed document's shape around its dependencies, as far as the
/// tool reads it. Everything else in the document is carried through
/// untouched by the caller.
pub enum ManifestShape {
    /// The document's top level is not a table: the manifest is invalid
    /// and nothing is rewritten.
    NotTable,
    /// The top-level table has no `dependencies` key.
    NoDeps,
    /// The `dependencies` key is present but its value is not a table.
    DepsNotTable,
    /// The dependency entries, in document order.
    Deps(Vec<Dep>),
}

} // verus!
