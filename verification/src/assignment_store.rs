//! The store of assignments, keyed by user.

use vstd::prelude::*;

use crate::error::RbacError;
use crate::identity::Identity;
use crate::records::{UserRole, UserRoleView};

verus! {

/// Whether the entry at `i` exists and belongs to `user`.
spec fn held_at(entries: Seq<UserRole>, i: int, user: Identity) -> bool {
    0 <= i < entries.len() && entries[i].user == user
}

/// Where the assignment of `user` stands, if there is one.
spec fn slot_of(entries: Seq<UserRole>, user: Identity) -> int {
    choose|i: int| held_at(entries, i, user)
}

/// Whether no two entries belong to the same user.
spec fn users_distinct(entries: Seq<UserRole>) -> bool {
    forall|i: int, j: int|
        0 <= i < j < entries.len() ==> (#[trigger] entries[i]).user != (#[trigger] entries[j]).user
}

/// The users that occur among the entries.
spec fn users_of(entries: Seq<UserRole>) -> Set<Identity> {
    Set::new(|user: Identity| exists|i: int| held_at(entries, i, user))
}

/// With distinct users, an entry that belongs to a user is the one that the
/// store finds for that user.
proof fn lemma_slot_unique(entries: Seq<UserRole>, i: int, user: Identity)
    requires
        users_distinct(entries),
        held_at(entries, i, user),
    ensures
        slot_of(entries, user) == i,
{
    let k = slot_of(entries, user);
    assert(held_at(entries, k, user));
    if k < i {
        assert(entries[k].user != entries[i].user);
    } else if i < k {
        assert(entries[i].user != entries[k].user);
    }
}

/// Leaving the last entry out keeps the users distinct.
proof fn lemma_front_distinct(entries: Seq<UserRole>)
    requires
        users_distinct(entries),
        entries.len() > 0,
    ensures
        users_distinct(entries.drop_last()),
{
    let front = entries.drop_last();
    assert forall|i: int, j: int| 0 <= i < j < front.len() implies (#[trigger] front[i]).user != (
    #[trigger] front[j]).user by {
        assert(entries[i].user != entries[j].user);
    }
}

/// With distinct users there are as many users as entries.
proof fn lemma_domain_size(entries: Seq<UserRole>)
    requires
        users_distinct(entries),
    ensures
        users_of(entries).finite(),
        users_of(entries).len() == entries.len(),
    decreases entries.len(),
{
    if entries.len() == 0 {
        assert(users_of(entries) =~= Set::<Identity>::empty());
    } else {
        let front = entries.drop_last();
        let last = entries.last().user;
        lemma_front_distinct(entries);
        lemma_domain_size(front);
        assert(!users_of(front).contains(last)) by {
            if users_of(front).contains(last) {
                let k = choose|k: int| held_at(front, k, last);
                assert(held_at(front, k, last));
                assert(entries[k].user != entries[entries.len() - 1].user);
            }
        }
        assert(users_of(entries) =~= users_of(front).insert(last)) by {
            assert forall|user: Identity| users_of(entries).contains(user) <==> users_of(
                front,
            ).insert(last).contains(user) by {
                if users_of(entries).contains(user) {
                    let k = choose|k: int| held_at(entries, k, user);
                    assert(held_at(entries, k, user));
                    if k < front.len() {
                        assert(held_at(front, k, user));
                    }
                }
                if users_of(front).contains(user) {
                    let k = choose|k: int| held_at(front, k, user);
                    assert(held_at(front, k, user));
                    assert(held_at(entries, k, user));
                }
                if user == last {
                    assert(held_at(entries, entries.len() - 1, user));
                }
            }
        }
    }
}

/// A keyed collection of assignments. An assignment is filed under its user,
/// and a user holds at most one at a time: a second one can be filed only
/// after the first was taken out.
pub struct AssignmentStore {
    entries: Vec<UserRole>,
}

impl View for AssignmentStore {
    type V = Map<Identity, UserRoleView>;

    closed spec fn view(&self) -> Map<Identity, UserRoleView> {
        Map::new(
            |user: Identity| exists|i: int| held_at(self.entries@, i, user),
            |user: Identity| self.entries@[slot_of(self.entries@, user)]@,
        )
    }
}

impl AssignmentStore {
    #[verifier::type_invariant]
    spec fn well_formed(self) -> bool {
        users_distinct(self.entries@)
    }

    /// Every assignment is filed under its own user.
    pub proof fn lemma_filed_by_user(self)
        ensures
            forall|user: Identity| #[trigger]
                self@.contains_key(user) ==> self@[user].user == user,
    {
        assert forall|user: Identity| #[trigger] self@.contains_key(user) implies self@[user].user
            == user by {
            let k = slot_of(self.entries@, user);
            assert(held_at(self.entries@, k, user));
        }
    }

    /// The store without any assignment.
    pub fn new() -> (store: AssignmentStore)
        ensures
            store@ == Map::<Identity, UserRoleView>::empty(),
    {
        let store = AssignmentStore { entries: Vec::new() };
        assert(store@ =~= Map::<Identity, UserRoleView>::empty());
        store
    }

    /// Where the assignment of `user` stands among the entries.
    fn find(&self, user: &Identity) -> (found: Option<usize>)
        ensures
            match found {
                Some(i) => held_at(self.entries@, i as int, *user),
                None => forall|i: int| !held_at(self.entries@, i, *user),
            },
    {
        let mut i: usize = 0;
        while i < self.entries.len()
            invariant
                i <= self.entries.len(),
                forall|j: int| 0 <= j < i ==> !held_at(self.entries@, j, *user),
            decreases self.entries.len() - i,
        {
            if self.entries[i].user == *user {
                return Some(i);
            }
            i += 1;
        }
        None
    }

    /// Whether `user` holds an assignment.
    pub fn contains(&self, user: &Identity) -> (present: bool)
        ensures
            present == self@.contains_key(*user),
    {
        self.find(user).is_some()
    }

    /// The assignment of `user`, if there is one.
    pub fn get(&self, user: &Identity) -> (found: Option<&UserRole>)
        ensures
            match found {
                Some(assignment) => self@.contains_key(*user) && assignment@ == self@[*user]
                    && assignment@.user == *user,
                None => !self@.contains_key(*user),
            },
    {
        match self.find(user) {
            Some(i) => {
                proof {
                    use_type_invariant(self);
                    lemma_slot_unique(self.entries@, i as int, *user);
                }
                Some(&self.entries[i])
            },
            None => None,
        }
    }

    /// Files `assignment` under its user, unless that user already holds
    /// one: then the store stays as it is and the result is `KeyConflict`.
    pub fn insert(&mut self, assignment: UserRole) -> (result: Result<(), RbacError>)
        ensures
            old(self)@.contains_key(assignment.user) ==> result == Err::<(), RbacError>(
                RbacError::KeyConflict,
            ) && final(self)@ == old(self)@,
            !old(self)@.contains_key(assignment.user) ==> result == Ok::<(), RbacError>(())
                && final(self)@ == old(self)@.insert(assignment.user, assignment@),
    {
        if self.find(&assignment.user).is_some() {
            return Err(RbacError::KeyConflict);
        }
        proof {
            use_type_invariant(&*self);
        }
        let ghost before = self.entries@;
        let ghost added = assignment@;
        let mut entries: Vec<UserRole> = Vec::new();
        core::mem::swap(&mut self.entries, &mut entries);
        entries.push(assignment);
        proof {
            let after = entries@;
            assert(users_distinct(after)) by {
                assert forall|i: int, j: int| 0 <= i < j < after.len() implies (
                #[trigger] after[i]).user != (#[trigger] after[j]).user by {
                    if j < before.len() {
                        assert(before[i].user != before[j].user);
                    } else {
                        assert(!held_at(before, i, added.user));
                    }
                }
            }
        }
        self.entries = entries;
        proof {
            let after = self.entries@;
            assert forall|user: Identity| #[trigger]
                self@.contains_key(user) <==> old(self)@.insert(added.user, added).contains_key(
                    user,
                ) by {
                if old(self)@.contains_key(user) {
                    let k = slot_of(before, user);
                    assert(held_at(before, k, user));
                    assert(held_at(after, k, user));
                }
                if user == added.user {
                    assert(held_at(after, before.len() as int, user));
                }
                if self@.contains_key(user) {
                    let k = slot_of(after, user);
                    assert(held_at(after, k, user));
                    if k < before.len() {
                        assert(held_at(before, k, user));
                    }
                }
            }
            assert forall|user: Identity| #[trigger] self@.contains_key(user) implies self@[user]
                == old(self)@.insert(added.user, added)[user] by {
                let k = slot_of(after, user);
                assert(held_at(after, k, user));
                if k < before.len() {
                    assert(held_at(before, k, user));
                    lemma_slot_unique(before, k, user);
                } else {
                    assert(user == added.user);
                }
            }
            assert(self@ =~= old(self)@.insert(added.user, added));
        }
        Ok(())
    }

    /// Takes the assignment of `user` out and hands it back, so that the
    /// user's key is free again. With no assignment for `user` the store
    /// stays as it is and the result is `None`.
    pub fn remove(&mut self, user: &Identity) -> (removed: Option<UserRole>)
        ensures
            match removed {
                Some(assignment) => old(self)@.contains_key(*user) && assignment@ == old(
                    self,
                )@[*user] && final(self)@ == old(self)@.remove(*user),
                None => !old(self)@.contains_key(*user) && final(self)@ == old(self)@,
            },
    {
        let i = match self.find(user) {
            Some(i) => i,
            None => {
                return None;
            },
        };
        proof {
            use_type_invariant(&*self);
            lemma_slot_unique(self.entries@, i as int, *user);
        }
        let ghost before = self.entries@;
        let mut entries: Vec<UserRole> = Vec::new();
        core::mem::swap(&mut self.entries, &mut entries);
        let assignment = entries.remove(i);
        proof {
            let after = entries@;
            assert(users_distinct(after)) by {
                assert forall|a: int, b: int| 0 <= a < b < after.len() implies (
                #[trigger] after[a]).user != (#[trigger] after[b]).user by {
                    let a0 = if a < i { a } else { a + 1 };
                    let b0 = if b < i { b } else { b + 1 };
                    assert(before[a0].user != before[b0].user);
                }
            }
        }
        self.entries = entries;
        proof {
            let after = self.entries@;
            assert forall|other: Identity| #[trigger]
                self@.contains_key(other) <==> old(self)@.remove(*user).contains_key(other) by {
                if self@.contains_key(other) {
                    let k = slot_of(after, other);
                    assert(held_at(after, k, other));
                    let k0 = if k < i { k } else { k + 1 };
                    assert(held_at(before, k0, other));
                    if k0 < i {
                        assert(before[k0].user != before[i as int].user);
                    } else {
                        assert(before[i as int].user != before[k0].user);
                    }
                }
                if old(self)@.remove(*user).contains_key(other) {
                    let k0 = slot_of(before, other);
                    assert(held_at(before, k0, other));
                    let k = if k0 < i { k0 } else { k0 - 1 };
                    assert(held_at(after, k, other));
                }
            }
            assert forall|other: Identity| #[trigger] self@.contains_key(other) implies self@[other]
                == old(self)@.remove(*user)[other] by {
                let k = slot_of(after, other);
                assert(held_at(after, k, other));
                let k0 = if k < i { k } else { k + 1 };
                assert(held_at(before, k0, other));
                lemma_slot_unique(before, k0, other);
            }
            assert(self@ =~= old(self)@.remove(*user));
        }
        Some(assignment)
    }

    /// How many assignments the store holds.
    pub fn len(&self) -> (count: usize)
        ensures
            count == self@.dom().len(),
            self@.dom().finite(),
    {
        proof {
            use_type_invariant(self);
            lemma_domain_size(self.entries@);
            assert(self@.dom() =~= users_of(self.entries@));
        }
        self.entries.len()
    }
}

} // verus!
