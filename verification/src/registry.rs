//! The launch registry: which command starts the application of a given
//! display name.

use crate::catalog::{LaunchSpec, LaunchView};
use crate::text::Text;
use vstd::prelude::*;

verus! {

/// One registered name with its launch specification.
struct Registration {
    name: String,
    spec: LaunchSpec,
}

/// A mapping from display name to launch specification. A name occurs at most
/// once; registering it again replaces what was there.
pub struct LaunchRegistry {
    entries: Vec<Registration>,
}

/// No name is registered twice.
spec fn names_distinct(entries: Seq<Registration>) -> bool {
    forall|i: int, j: int|
        0 <= i < j < entries.len() ==> (#[trigger] entries[i]).name@ != (
        #[trigger] entries[j]).name@
}

/// The entry at position `i` is the one of `name`.
spec fn holds_at(entries: Seq<Registration>, name: Text, i: int) -> bool {
    0 <= i < entries.len() && entries[i].name@ == name
}

/// Some entry is the one of `name`.
spec fn holds(entries: Seq<Registration>, name: Text) -> bool {
    exists|i: int| holds_at(entries, name, i)
}

/// The position of the entry of `name`, where there is one.
spec fn place_of(entries: Seq<Registration>, name: Text) -> int {
    choose|i: int| holds_at(entries, name, i)
}

/// The mapping that a list of entries with distinct names stands for.
spec fn mapping_of(entries: Seq<Registration>) -> Map<Text, LaunchView> {
    Map::new(
        |name: Text| holds(entries, name),
        |name: Text| entries[place_of(entries, name)].spec@,
    )
}

impl LaunchRegistry {
    /// The invariant of every registry: its names are distinct.
    #[verifier::type_invariant]
    spec fn well_formed(self) -> bool {
        names_distinct(self.entries@)
    }

    /// The mapping that the registry stands for.
    pub closed spec fn view(&self) -> Map<Text, LaunchView> {
        mapping_of(self.entries@)
    }

    /// A registry without entries.
    pub fn new() -> (r: LaunchRegistry)
        ensures
            r@ == Map::<Text, LaunchView>::empty(),
    {
        let r = LaunchRegistry { entries: Vec::new() };
        assert(r@ =~= Map::<Text, LaunchView>::empty());
        r
    }

    /// The position of the entry of `name`, if there is one.
    fn find(&self, name: &str) -> (r: Option<usize>)
        ensures
            r matches Some(i) ==> holds_at(self.entries@, name@, i as int),
            r is None ==> !holds(self.entries@, name@),
    {
        let wanted = String::from_str(name);
        let n: usize = self.entries.len();
        let mut i: usize = 0;
        while i < n
            invariant
                n == self.entries.len(),
                i <= n,
                wanted@ == name@,
                forall|j: int| 0 <= j < i ==> !holds_at(self.entries@, name@, j),
            decreases n - i,
        {
            if self.entries[i].name == wanted {
                return Some(i);
            }
            i += 1;
        }
        None
    }

    /// Registers `spec` under `name`, replacing any earlier registration of
    /// that name.
    pub fn register(&mut self, name: String, spec: LaunchSpec)
        ensures
            final(self)@ == old(self)@.insert(name@, spec@),
    {
        proof {
            use_type_invariant(&*self);
        }
        let ghost before = self.entries@;
        let ghost key = name@;
        let ghost value = spec@;
        let found = self.find(name.as_str());
        let mut taken = LaunchRegistry { entries: Vec::new() };
        std::mem::swap(self, &mut taken);
        let LaunchRegistry { entries } = taken;
        let mut entries = entries;
        match found {
            Some(i) => {
                entries.set(i, Registration { name, spec });
                proof {
                    let after = entries@;
                    assert forall|a: int, b: int| 0 <= a < b < after.len() implies (
                    #[trigger] after[a]).name@ != (#[trigger] after[b]).name@ by {
                        assert(after[a].name@ == before[a].name@);
                        assert(after[b].name@ == before[b].name@);
                    }
                    assert forall|k: Text| holds(after, k) == holds(before, k) by {
                        if holds(before, k) {
                            assert(holds_at(after, k, place_of(before, k)));
                        }
                        if holds(after, k) {
                            assert(holds_at(before, k, place_of(after, k)));
                        }
                    }
                    assert forall|k: Text| holds(after, k) implies #[trigger] mapping_of(after)[k]
                        == mapping_of(before).insert(key, value)[k] by {
                        let p = place_of(after, k);
                        let q = place_of(before, k);
                        assert(holds_at(before, k, p));
                        assert(holds_at(before, k, q));
                    }
                    assert(mapping_of(after) =~= mapping_of(before).insert(key, value));
                }
            },
            None => {
                entries.push(Registration { name, spec });
                proof {
                    let after = entries@;
                    let last = before.len() as int;
                    assert forall|a: int, b: int| 0 <= a < b < after.len() implies (
                    #[trigger] after[a]).name@ != (#[trigger] after[b]).name@ by {
                        assert(after[a] == before[a]);
                        if b == last {
                            assert(!holds_at(before, key, a));
                        } else {
                            assert(after[b] == before[b]);
                        }
                    }
                    assert forall|k: Text| holds(after, k) == (holds(before, k) || k == key) by {
                        if holds(before, k) {
                            assert(holds_at(after, k, place_of(before, k)));
                        }
                        if k == key {
                            assert(holds_at(after, k, last));
                        }
                        if holds(after, k) && k != key {
                            assert(holds_at(before, k, place_of(after, k)));
                        }
                    }
                    assert forall|k: Text| holds(after, k) implies #[trigger] mapping_of(after)[k]
                        == mapping_of(before).insert(key, value)[k] by {
                        let p = place_of(after, k);
                        if k != key {
                            assert(holds_at(before, k, p));
                            assert(holds_at(before, k, place_of(before, k)));
                        } else {
                            if p != last {
                                assert(holds_at(before, k, p));
                            }
                        }
                    }
                    assert(mapping_of(after) =~= mapping_of(before).insert(key, value));
                }
            },
        }
        *self = LaunchRegistry { entries };
    }
}

/// What a selection launches: the specification registered under the name,
/// nothing where the name is not registered.
pub open spec fn selection_of(registry: Map<Text, LaunchView>, name: Text) -> Option<LaunchView> {
    if registry.contains_key(name) {
        Some(registry[name])
    } else {
        None
    }
}

/// The view of a borrowed launch specification, if there is one.
pub open spec fn selected_view(selected: Option<&LaunchSpec>) -> Option<LaunchView> {
    match selected {
        Some(spec) => Some(spec@),
        None => None,
    }
}

/// The launch to perform for the selected name: the specification that is
/// registered under it, or `None`, and then nothing is to be launched, where
/// the name is not registered. The registry stays as it is.
pub fn on_select<'a>(registry: &'a LaunchRegistry, selected: &str) -> (r: Option<&'a LaunchSpec>)
    ensures
        selected_view(r) == selection_of(registry@, selected@),
{
    proof {
        use_type_invariant(registry);
    }
    match registry.find(selected) {
        Some(i) => {
            proof {
                assert(holds_at(
                    registry.entries@,
                    selected@,
                    place_of(registry.entries@, selected@),
                ));
            }
            Some(&registry.entries[i].spec)
        },
        None => None,
    }
}

/// Selecting twice launches the same: where the registry was not changed in
/// between, a second selection of a name gives the command and arguments of
/// the first.
pub proof fn lemma_selection_repeats(
    first: Map<Text, LaunchView>,
    second: Map<Text, LaunchView>,
    name: Text,
)
    requires
        second == first,
    ensures
        selection_of(second, name) == selection_of(first, name),
{
}

/// A name is launchable as soon as it is registered, with what was
/// registered last.
pub proof fn lemma_selection_after_register(
    registry: Map<Text, LaunchView>,
    name: Text,
    spec: LaunchView,
    selected: Text,
)
    ensures
        selected == name ==> selection_of(registry.insert(name, spec), selected) == Some(spec),
        selected != name ==> selection_of(registry.insert(name, spec), selected) == selection_of(
            registry,
            selected,
        ),
{
}

} // verus!
