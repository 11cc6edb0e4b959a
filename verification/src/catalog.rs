//! The values that a discovery pass produces: catalog entries for display and
//! launch specifications for dispatch.

use crate::config::passes_filter;
use crate::registry::LaunchRegistry;
use crate::text::{texts, Text};
use vstd::prelude::*;

verus! {

/// One discovered application, as shown to the user.
#[derive(Clone, Debug, PartialEq, Eq)]
pub struct CatalogEntry {
    pub name: String,
    pub description: String,
    pub icon: String,
}

/// What a catalog entry holds.
pub struct EntryView {
    pub name: Text,
    pub description: Text,
    pub icon: Text,
}

impl View for CatalogEntry {
    type V = EntryView;

    open spec fn view(&self) -> EntryView {
        EntryView { name: self.name@, description: self.description@, icon: self.icon@ }
    }
}

/// A command name and its ordered arguments.
#[derive(Clone, Debug, PartialEq, Eq)]
pub struct LaunchSpec {
    pub command: String,
    pub args: Vec<String>,
}

/// What a launch specification holds.
pub struct LaunchView {
    pub command: Text,
    pub args: Seq<Text>,
}

impl View for LaunchSpec {
    type V = LaunchView;

    open spec fn view(&self) -> LaunchView {
        LaunchView { command: self.command@, args: texts(self.args@) }
    }
}

/// The view of an optional launch specification.
pub open spec fn optional_launch(launch: Option<LaunchSpec>) -> Option<LaunchView> {
    match launch {
        Some(l) => Some(l@),
        None => None,
    }
}

/// The views of a catalog's entries, in order.
pub open spec fn catalog_view(entries: Seq<CatalogEntry>) -> Seq<EntryView> {
    Seq::new(entries.len(), |i: int| entries[i]@)
}

/// The names of a catalog's entries, in order.
pub open spec fn catalog_names(entries: Seq<EntryView>) -> Seq<Text> {
    Seq::new(entries.len(), |i: int| entries[i].name)
}

/// An application that a discovery pass keeps: its catalog entry and how to
/// launch it.
#[derive(Clone, Debug, PartialEq, Eq)]
pub struct Application {
    pub entry: CatalogEntry,
    pub launch: LaunchSpec,
}

/// What a kept application holds.
pub struct Found {
    pub entry: EntryView,
    pub launch: LaunchView,
}

impl View for Application {
    type V = Found;

    open spec fn view(&self) -> Found {
        Found { entry: self.entry@, launch: self.launch@ }
    }
}

/// The view of the outcome for one raw descriptor: kept or skipped.
pub open spec fn outcome_view(outcome: Option<Application>) -> Option<Found> {
    match outcome {
        Some(a) => Some(a@),
        None => None,
    }
}

/// The catalog after the outcomes of a pass, processed in order, were
/// appended to `catalog`: one entry for each kept application, none merged.
pub open spec fn catalog_after(catalog: Seq<EntryView>, outcomes: Seq<Option<Found>>) -> Seq<
    EntryView,
>
    decreases outcomes.len(),
{
    if outcomes.len() == 0 {
        catalog
    } else {
        let before = catalog_after(catalog, outcomes.drop_last());
        match outcomes.last() {
            Some(found) => before.push(found.entry),
            None => before,
        }
    }
}

/// The registry after the outcomes of a pass, processed in order, were
/// registered in `registry`: each kept application under its name, a later
/// one replacing an earlier one of the same name.
pub open spec fn registry_after(
    registry: Map<Text, LaunchView>,
    outcomes: Seq<Option<Found>>,
) -> Map<Text, LaunchView>
    decreases outcomes.len(),
{
    if outcomes.len() == 0 {
        registry
    } else {
        let before = registry_after(registry, outcomes.drop_last());
        match outcomes.last() {
            Some(found) => before.insert(found.entry.name, found.launch),
            None => before,
        }
    }
}

/// Records one outcome: a kept application is registered under its name, then
/// appended to the catalog; a skipped one changes nothing.
pub fn record(
    outcome: Option<Application>,
    catalog: &mut Vec<CatalogEntry>,
    registry: &mut LaunchRegistry,
)
    ensures
        catalog_view(final(catalog)@) == catalog_after(
            catalog_view(old(catalog)@),
            seq![outcome_view(outcome)],
        ),
        final(registry)@ == registry_after(old(registry)@, seq![outcome_view(outcome)]),
{
    let ghost one = seq![outcome_view(outcome)];
    proof {
        let none = Seq::<Option<Found>>::empty();
        assert(one.drop_last() =~= none);
        assert(one.last() == outcome_view(outcome));
        assert(catalog_after(catalog_view(catalog@), none) == catalog_view(catalog@));
        assert(registry_after(registry@, none) == registry@);
    }
    match outcome {
        Some(application) => {
            let Application { entry, launch } = application;
            let name = entry.name.clone();
            registry.register(name, launch);
            proof {
                assert(catalog_view(catalog@.push(entry)) =~= catalog_view(catalog@).push(entry@));
            }
            catalog.push(entry);
        },
        None => {},
    }
}

/// Processing `first` and then `second` is processing their concatenation.
pub proof fn lemma_outcomes_append(
    catalog: Seq<EntryView>,
    registry: Map<Text, LaunchView>,
    first: Seq<Option<Found>>,
    second: Seq<Option<Found>>,
)
    ensures
        catalog_after(catalog, first + second) == catalog_after(
            catalog_after(catalog, first),
            second,
        ),
        registry_after(registry, first + second) == registry_after(
            registry_after(registry, first),
            second,
        ),
    decreases second.len(),
{
    if second.len() == 0 {
        assert(first + second =~= first);
    } else {
        lemma_outcomes_append(catalog, registry, first, second.drop_last());
        assert((first + second).drop_last() =~= first + second.drop_last());
        assert((first + second).last() == second.last());
    }
}

/// Every entry of a catalog passes the name filter.
pub open spec fn all_pass(catalog: Seq<EntryView>, filter: Seq<Text>) -> bool {
    forall|i: int| 0 <= i < catalog.len() ==> passes_filter(filter, (#[trigger] catalog[i]).name)
}

/// Every kept application among the outcomes passes the name filter.
pub open spec fn kept_pass(outcomes: Seq<Option<Found>>, filter: Seq<Text>) -> bool {
    forall|i: int|
        0 <= i < outcomes.len() ==> ((#[trigger] outcomes[i]) matches Some(found)
            ==> passes_filter(filter, found.entry.name))
}

/// Every name in the catalog is registered.
pub open spec fn all_registered(catalog: Seq<EntryView>, registry: Map<Text, LaunchView>) -> bool {
    forall|i: int| 0 <= i < catalog.len() ==> registry.contains_key((#[trigger] catalog[i]).name)
}

/// Filtered catalog: where the catalog so far and every kept application pass
/// the name filter, so does every entry of the catalog after the pass.
pub proof fn lemma_catalog_passes_filter(
    catalog: Seq<EntryView>,
    outcomes: Seq<Option<Found>>,
    filter: Seq<Text>,
)
    requires
        all_pass(catalog, filter),
        kept_pass(outcomes, filter),
    ensures
        all_pass(catalog_after(catalog, outcomes), filter),
    decreases outcomes.len(),
{
    if outcomes.len() > 0 {
        let shorter = outcomes.drop_last();
        assert forall|i: int| 0 <= i < shorter.len() implies ((#[trigger] shorter[i]) matches Some(
            found,
        ) ==> passes_filter(filter, found.entry.name)) by {
            assert(shorter[i] == outcomes[i]);
        }
        lemma_catalog_passes_filter(catalog, shorter, filter);
        assert(outcomes.last() == outcomes[outcomes.len() - 1]);
    }
}

/// Last write wins: the application kept at position `at` is the one
/// registered under its name after the pass, unless a later kept application
/// has the same name.
pub proof fn lemma_last_write_wins(
    registry: Map<Text, LaunchView>,
    outcomes: Seq<Option<Found>>,
    at: int,
)
    requires
        0 <= at < outcomes.len(),
        outcomes[at] is Some,
        forall|j: int|
            at < j < outcomes.len() ==> ((#[trigger] outcomes[j]) matches Some(later)
                ==> later.entry.name != outcomes[at]->0.entry.name),
    ensures
        registry_after(registry, outcomes).contains_key(outcomes[at]->0.entry.name),
        registry_after(registry, outcomes)[outcomes[at]->0.entry.name] == outcomes[at]->0.launch,
    decreases outcomes.len(),
{
    let shorter = outcomes.drop_last();
    if at < outcomes.len() - 1 {
        assert(shorter[at] == outcomes[at]);
        assert forall|j: int| at < j < shorter.len() implies ((#[trigger] shorter[j]) matches Some(
            later,
        ) ==> later.entry.name != shorter[at]->0.entry.name) by {
            assert(shorter[j] == outcomes[j]);
        }
        lemma_last_write_wins(registry, shorter, at);
        assert(outcomes.last() == outcomes[outcomes.len() - 1]);
    }
}

/// What was registered before a pass and is not named by a kept application
/// stays as it was.
pub proof fn lemma_other_names_untouched(
    registry: Map<Text, LaunchView>,
    outcomes: Seq<Option<Found>>,
    name: Text,
)
    requires
        forall|j: int|
            0 <= j < outcomes.len() ==> ((#[trigger] outcomes[j]) matches Some(found)
                ==> found.entry.name != name),
    ensures
        registry_after(registry, outcomes).contains_key(name) == registry.contains_key(name),
        registry_after(registry, outcomes)[name] == registry[name],
    decreases outcomes.len(),
{
    if outcomes.len() > 0 {
        let shorter = outcomes.drop_last();
        assert forall|j: int| 0 <= j < shorter.len() implies ((#[trigger] shorter[j]) matches Some(
            found,
        ) ==> found.entry.name != name) by {
            assert(shorter[j] == outcomes[j]);
        }
        lemma_other_names_untouched(registry, shorter, name);
        assert(outcomes.last() == outcomes[outcomes.len() - 1]);
    }
}

/// A pass only adds names to the registry.
pub proof fn lemma_registry_grows(
    registry: Map<Text, LaunchView>,
    outcomes: Seq<Option<Found>>,
    name: Text,
)
    requires
        registry.contains_key(name),
    ensures
        registry_after(registry, outcomes).contains_key(name),
    decreases outcomes.len(),
{
    if outcomes.len() > 0 {
        lemma_registry_grows(registry, outcomes.drop_last(), name);
    }
}

/// Listed means launchable: where every name of the catalog so far is
/// registered, every name of the catalog after the pass is registered after
/// the pass.
pub proof fn lemma_catalog_registered(
    catalog: Seq<EntryView>,
    registry: Map<Text, LaunchView>,
    outcomes: Seq<Option<Found>>,
)
    requires
        all_registered(catalog, registry),
    ensures
        all_registered(catalog_after(catalog, outcomes), registry_after(registry, outcomes)),
    decreases outcomes.len(),
{
    if outcomes.len() == 0 {
    } else {
        lemma_catalog_registered(catalog, registry, outcomes.drop_last());
    }
}

} // verus!
