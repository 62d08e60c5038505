//! The store of roles, keyed by name.

use vstd::prelude::*;

use crate::error::RbacError;
use crate::records::{Role, RoleView};
use crate::text::same_name;

verus! {

/// Whether the entry at `i` exists and has the name `name`.
spec fn named_at(entries: Seq<Role>, i: int, name: Seq<char>) -> bool {
    0 <= i < entries.len() && entries[i]@.name == name
}

/// Where the entry named `name` stands, if there is one.
spec fn slot_of(entries: Seq<Role>, name: Seq<char>) -> int {
    choose|i: int| named_at(entries, i, name)
}

/// Whether no two entries have the same name.
spec fn names_distinct(entries: Seq<Role>) -> bool {
    forall|i: int, j: int|
        0 <= i < j < entries.len() ==> (#[trigger] entries[i])@.name != (#[trigger] entries[j])@.name
}

/// With distinct names, an entry that has the name is the one that the
/// store finds under it.
proof fn lemma_slot_unique(entries: Seq<Role>, i: int, name: Seq<char>)
    requires
        names_distinct(entries),
        named_at(entries, i, name),
    ensures
        slot_of(entries, name) == i,
{
    let k = slot_of(entries, name);
    assert(named_at(entries, k, name));
    if k < i {
        assert(entries[k]@.name != entries[i]@.name);
    } else if i < k {
        assert(entries[i]@.name != entries[k]@.name);
    }
}

/// The names that occur among the entries.
spec fn names_of(entries: Seq<Role>) -> Set<Seq<char>> {
    Set::new(|name: Seq<char>| exists|i: int| named_at(entries, i, name))
}

/// With distinct names there are as many names as entries.
proof fn lemma_domain_size(entries: Seq<Role>)
    requires
        names_distinct(entries),
    ensures
        names_of(entries).finite(),
        names_of(entries).len() == entries.len(),
    decreases entries.len(),
{
    if entries.len() == 0 {
        assert(names_of(entries) =~= Set::<Seq<char>>::empty());
    } else {
        let front = entries.drop_last();
        let last = entries.last()@.name;
        assert(names_distinct(front)) by {
            assert forall|i: int, j: int| 0 <= i < j < front.len() implies (#[trigger] front[i])@.name
                != (#[trigger] front[j])@.name by {
                assert(entries[i]@.name != entries[j]@.name);
            }
        }
        lemma_domain_size(front);
        assert(!names_of(front).contains(last)) by {
            if names_of(front).contains(last) {
                let k = choose|k: int| named_at(front, k, last);
                assert(named_at(front, k, last));
                assert(entries[k]@.name != entries[entries.len() - 1]@.name);
            }
        }
        assert(names_of(entries) =~= names_of(front).insert(last)) by {
            assert forall|name: Seq<char>| names_of(entries).contains(name) <==> names_of(
                front,
            ).insert(last).contains(name) by {
                if names_of(entries).contains(name) {
                    let k = choose|k: int| named_at(entries, k, name);
                    assert(named_at(entries, k, name));
                    if k < front.len() {
                        assert(named_at(front, k, name));
                    }
                }
                if names_of(front).contains(name) {
                    let k = choose|k: int| named_at(front, k, name);
                    assert(named_at(front, k, name));
                    assert(named_at(entries, k, name));
                }
                if name == last {
                    assert(named_at(entries, entries.len() - 1, name));
                }
            }
        }
    }
}

/// A keyed collection of roles. A role is filed under its name, and a name
/// holds at most one role. Roles can be added and read; none is ever changed
/// or taken out.
pub struct RoleStore {
    entries: Vec<Role>,
}

impl View for RoleStore {
    type V = Map<Seq<char>, RoleView>;

    closed spec fn view(&self) -> Map<Seq<char>, RoleView> {
        Map::new(
            |name: Seq<char>| exists|i: int| named_at(self.entries@, i, name),
            |name: Seq<char>| self.entries@[slot_of(self.entries@, name)]@,
        )
    }
}

impl RoleStore {
    #[verifier::type_invariant]
    spec fn well_formed(self) -> bool {
        names_distinct(self.entries@)
    }

    /// Every role is filed under its own name.
    pub proof fn lemma_filed_by_name(self)
        ensures
            forall|name: Seq<char>| #[trigger]
                self@.contains_key(name) ==> self@[name].name == name,
    {
        assert forall|name: Seq<char>| #[trigger] self@.contains_key(name) implies self@[name].name
            == name by {
            let k = slot_of(self.entries@, name);
            assert(named_at(self.entries@, k, name));
        }
    }

    /// The store without any role.
    pub fn new() -> (store: RoleStore)
        ensures
            store@ == Map::<Seq<char>, RoleView>::empty(),
    {
        let store = RoleStore { entries: Vec::new() };
        assert(store@ =~= Map::<Seq<char>, RoleView>::empty());
        store
    }

    /// Where the role named `name` stands among the entries.
    fn find(&self, name: &str) -> (found: Option<usize>)
        ensures
            match found {
                Some(i) => named_at(self.entries@, i as int, name@),
                None => forall|i: int| !named_at(self.entries@, i, name@),
            },
    {
        let mut i: usize = 0;
        while i < self.entries.len()
            invariant
                i <= self.entries.len(),
                forall|j: int| 0 <= j < i ==> !named_at(self.entries@, j, name@),
            decreases self.entries.len() - i,
        {
            if same_name(self.entries[i].name.as_str(), name) {
                return Some(i);
            }
            i += 1;
        }
        None
    }

    /// Whether a role is filed under `name`.
    pub fn contains(&self, name: &str) -> (present: bool)
        ensures
            present == self@.contains_key(name@),
    {
        self.find(name).is_some()
    }

    /// The role filed under `name`, if there is one.
    pub fn get(&self, name: &str) -> (found: Option<&Role>)
        ensures
            match found {
                Some(role) => self@.contains_key(name@) && role@ == self@[name@] && role@.name
                    == name@,
                None => !self@.contains_key(name@),
            },
    {
        match self.find(name) {
            Some(i) => {
                proof {
                    use_type_invariant(self);
                    lemma_slot_unique(self.entries@, i as int, name@);
                }
                Some(&self.entries[i])
            },
            None => None,
        }
    }

    /// Files `role` under its name, unless a role is already filed there:
    /// then the store stays as it is and the result is `KeyConflict`.
    pub fn insert(&mut self, role: Role) -> (result: Result<(), RbacError>)
        ensures
            old(self)@.contains_key(role@.name) ==> result == Err::<(), RbacError>(
                RbacError::KeyConflict,
            ) && final(self)@ == old(self)@,
            !old(self)@.contains_key(role@.name) ==> result == Ok::<(), RbacError>(())
                && final(self)@ == old(self)@.insert(role@.name, role@),
    {
        if self.find(role.name.as_str()).is_some() {
            return Err(RbacError::KeyConflict);
        }
        proof {
            use_type_invariant(&*self);
        }
        let ghost before = self.entries@;
        let ghost added = role@;
        let mut entries: Vec<Role> = Vec::new();
        core::mem::swap(&mut self.entries, &mut entries);
        entries.push(role);
        proof {
            let after = entries@;
            assert(names_distinct(after)) by {
                assert forall|i: int, j: int| 0 <= i < j < after.len() implies (
                #[trigger] after[i])@.name != (#[trigger] after[j])@.name by {
                    if j < before.len() {
                        assert(before[i]@.name != before[j]@.name);
                    } else {
                        assert(!named_at(before, i, added.name));
                    }
                }
            }
        }
        self.entries = entries;
        proof {
            let after = self.entries@;
            assert forall|name: Seq<char>| #[trigger]
                self@.contains_key(name) <==> old(self)@.insert(added.name, added).contains_key(
                    name,
                ) by {
                if old(self)@.contains_key(name) {
                    let k = slot_of(before, name);
                    assert(named_at(before, k, name));
                    assert(named_at(after, k, name));
                }
                if name == added.name {
                    assert(named_at(after, before.len() as int, name));
                }
                if self@.contains_key(name) {
                    let k = slot_of(after, name);
                    assert(named_at(after, k, name));
                    if k < before.len() {
                        assert(named_at(before, k, name));
                    }
                }
            }
            assert forall|name: Seq<char>| #[trigger] self@.contains_key(name) implies self@[name]
                == old(self)@.insert(added.name, added)[name] by {
                let k = slot_of(after, name);
                assert(named_at(after, k, name));
                if k < before.len() {
                    assert(named_at(before, k, name));
                    lemma_slot_unique(before, k, name);
                } else {
                    assert(name == added.name);
                }
            }
            assert(self@ =~= old(self)@.insert(added.name, added));
        }
        Ok(())
    }

    /// How many roles the store holds.
    pub fn len(&self) -> (count: usize)
        ensures
            count == self@.dom().len(),
            self@.dom().finite(),
    {
        proof {
            use_type_invariant(self);
            lemma_domain_size(self.entries@);
            assert(self@.dom() =~= names_of(self.entries@));
        }
        self.entries.len()
    }
}

} // verus!
