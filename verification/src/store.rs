use vstd::prelude::*;

use crate::errors::TodoError;
use crate::lifecycle::{add_todo, delete_todo, initialize_user, mark_todo};
use crate::states::{
    Identity, ProfileRecord, TaskRecord, CONTENT_CAPACITY, PROFILE_RECORD_SPACE, TASK_INDEX_SPAN,
    TASK_RECORD_SPACE,
};

verus! {

/// One allocated profile slot: the record itself and the exact number of
/// bytes rented from the owner for it and for its active tasks.
#[derive(Clone, Copy, Debug, PartialEq, Eq, Structural)]
pub struct ProfileEntry {
    pub profile: ProfileRecord,
    pub rented_bytes: u64,
}

/// How many of the tasks belong to `owner`.
pub open spec fn count_owned(tasks: Seq<TaskRecord>, owner: Identity) -> nat
    decreases tasks.len(),
{
    if tasks.len() == 0 {
        0
    } else {
        count_owned(tasks.drop_last(), owner) + (if tasks.last().owner == owner {
            1nat
        } else {
            0nat
        })
    }
}

/// No task of `owner` means a zero count.
proof fn lemma_count_owned_zero(tasks: Seq<TaskRecord>, owner: Identity)
    requires
        forall|k: int| 0 <= k < tasks.len() ==> (#[trigger] tasks[k]).owner != owner,
    ensures
        count_owned(tasks, owner) == 0,
    decreases tasks.len(),
{
    if tasks.len() > 0 {
        lemma_count_owned_zero(tasks.drop_last(), owner);
    }
}

/// Appending one task raises exactly its owner's count by one.
proof fn lemma_count_owned_push(tasks: Seq<TaskRecord>, t: TaskRecord, owner: Identity)
    ensures
        count_owned(tasks.push(t), owner) == count_owned(tasks, owner) + (if t.owner == owner {
            1nat
        } else {
            0nat
        }),
{
    assert(tasks.push(t).drop_last() =~= tasks);
    assert(tasks.push(t).last() == t);
}

/// Replacing one task by another of the same owner changes no count.
proof fn lemma_count_owned_update(tasks: Seq<TaskRecord>, k: int, t: TaskRecord, owner: Identity)
    requires
        0 <= k < tasks.len(),
        tasks[k].owner == t.owner,
    ensures
        count_owned(tasks.update(k, t), owner) == count_owned(tasks, owner),
    decreases tasks.len(),
{
    if k == tasks.len() - 1 {
        assert(tasks.update(k, t).drop_last() =~= tasks.drop_last());
        assert(tasks.update(k, t).last() == t);
    } else {
        assert(tasks.update(k, t).drop_last() =~= tasks.drop_last().update(k, t));
        lemma_count_owned_update(tasks.drop_last(), k, t, owner);
        assert(tasks.update(k, t).last() == tasks.last());
    }
}

/// Removing one task lowers exactly its owner's count by one.
proof fn lemma_count_owned_remove(tasks: Seq<TaskRecord>, k: int, owner: Identity)
    requires
        0 <= k < tasks.len(),
    ensures
        count_owned(tasks, owner) == count_owned(tasks.remove(k), owner) + (if tasks[k].owner
            == owner {
            1nat
        } else {
            0nat
        }),
    decreases tasks.len(),
{
    if k == tasks.len() - 1 {
        assert(tasks.remove(k) =~= tasks.drop_last());
    } else {
        assert(tasks.remove(k).drop_last() =~= tasks.drop_last().remove(k));
        lemma_count_owned_remove(tasks.drop_last(), k, owner);
        assert(tasks.remove(k).last() == tasks.last());
    }
}

/// The record store: every profile and task record, each reachable only
/// through its owner (and, for tasks, its index) — the model of a globally
/// addressable store in which association runs purely through deterministic
/// addressing.
pub struct TodoStore {
    profiles: Vec<ProfileEntry>,
    tasks: Vec<TaskRecord>,
}

impl TodoStore {
    /// All allocated profile slots.
    pub closed spec fn profile_entries(self) -> Seq<ProfileEntry> {
        self.profiles@
    }

    /// All allocated task records.
    pub closed spec fn task_entries(self) -> Seq<TaskRecord> {
        self.tasks@
    }

    /// A profile record is allocated for this owner.
    pub open spec fn has_profile(self, owner: Identity) -> bool {
        exists|k: int|
            0 <= k < self.profile_entries().len() && (#[trigger] self.profile_entries()[k]).profile.owner
                == owner
    }

    /// The slot index of this owner's profile.
    pub open spec fn profile_index(self, owner: Identity) -> int {
        choose|k: int|
            0 <= k < self.profile_entries().len() && (#[trigger] self.profile_entries()[k]).profile.owner
                == owner
    }

    /// This owner's profile record.
    pub open spec fn profile_at(self, owner: Identity) -> ProfileRecord {
        self.profile_entries()[self.profile_index(owner)].profile
    }

    /// The bytes currently rented from this owner.
    pub open spec fn rented_at(self, owner: Identity) -> u64 {
        self.profile_entries()[self.profile_index(owner)].rented_bytes
    }

    /// A task record is allocated for this owner at this index.
    pub open spec fn has_task(self, owner: Identity, index: u8) -> bool {
        exists|k: int|
            0 <= k < self.task_entries().len() && (#[trigger] self.task_entries()[k]).owner == owner
                && self.task_entries()[k].index == index
    }

    /// The slot index of this owner's task at `index`.
    pub open spec fn task_index(self, owner: Identity, index: u8) -> int {
        choose|k: int|
            0 <= k < self.task_entries().len() && (#[trigger] self.task_entries()[k]).owner == owner
                && self.task_entries()[k].index == index
    }

    /// This owner's task record at `index`.
    pub open spec fn task_at(self, owner: Identity, index: u8) -> TaskRecord {
        self.task_entries()[self.task_index(owner, index)]
    }

    /// One profile slot is consistent: counters within bounds, the active
    /// count equal to the number of this owner's live tasks, and the rent
    /// equal to the exact space of the profile and those tasks.
    pub open spec fn profile_entry_wf(self, k: int) -> bool
        recommends
            0 <= k < self.profile_entries().len(),
    {
        let e = self.profile_entries()[k];
        &&& e.profile.total_created <= TASK_INDEX_SPAN
        &&& e.profile.active_count <= e.profile.total_created
        &&& e.rented_bytes == PROFILE_RECORD_SPACE + e.profile.active_count * TASK_RECORD_SPACE
        &&& e.profile.active_count == count_owned(self.task_entries(), e.profile.owner)
    }

    /// One task slot is consistent: its owner has a profile and its index
    /// was assigned below the owner's creation counter.
    pub open spec fn task_entry_wf(self, k: int) -> bool
        recommends
            0 <= k < self.task_entries().len(),
    {
        let t = self.task_entries()[k];
        &&& self.has_profile(t.owner)
        &&& t.index < self.profile_at(t.owner).total_created
        &&& t.content@.len() <= CONTENT_CAPACITY
    }

    /// The store's invariant: one profile per owner, one task per
    /// owner-index pair, and every slot consistent.
    pub open spec fn wf(self) -> bool {
        &&& forall|a: int, b: int|
            0 <= a < b < self.profile_entries().len() ==> (
            #[trigger] self.profile_entries()[a]).profile.owner != (
            #[trigger] self.profile_entries()[b]).profile.owner
        &&& forall|k: int| 0 <= k < self.profile_entries().len() ==> #[trigger] self.profile_entry_wf(k)
        &&& forall|a: int, b: int|
            0 <= a < b < self.task_entries().len() ==> !((#[trigger] self.task_entries()[a]).owner
                == (#[trigger] self.task_entries()[b]).owner && self.task_entries()[a].index
                == self.task_entries()[b].index)
        &&& forall|k: int| 0 <= k < self.task_entries().len() ==> #[trigger] self.task_entry_wf(k)
    }

    /// A slot holding this owner's profile is the slot the views speak of.
    pub proof fn lemma_profile_at(self, owner: Identity, k: int)
        requires
            self.wf(),
            0 <= k < self.profile_entries().len(),
            self.profile_entries()[k].profile.owner == owner,
        ensures
            self.has_profile(owner),
            self.profile_index(owner) == k,
            self.profile_at(owner) == self.profile_entries()[k].profile,
            self.rented_at(owner) == self.profile_entries()[k].rented_bytes,
    {
        assert(self.has_profile(owner));
        let j = self.profile_index(owner);
        if j != k {
            if j < k {
                assert(self.profile_entries()[j].profile.owner
                    != self.profile_entries()[k].profile.owner);
            } else {
                assert(self.profile_entries()[k].profile.owner
                    != self.profile_entries()[j].profile.owner);
            }
        }
    }

    /// A slot holding this owner's task at this index is the slot the views
    /// speak of.
    pub proof fn lemma_task_at(self, owner: Identity, index: u8, k: int)
        requires
            self.wf(),
            0 <= k < self.task_entries().len(),
            self.task_entries()[k].owner == owner,
            self.task_entries()[k].index == index,
        ensures
            self.has_task(owner, index),
            self.task_index(owner, index) == k,
            self.task_at(owner, index) == self.task_entries()[k],
    {
        assert(self.has_task(owner, index));
        let j = self.task_index(owner, index);
        if j != k {
            if j < k {
                assert(!(self.task_entries()[j].owner == self.task_entries()[k].owner
                    && self.task_entries()[j].index == self.task_entries()[k].index));
            } else {
                assert(!(self.task_entries()[k].owner == self.task_entries()[j].owner
                    && self.task_entries()[k].index == self.task_entries()[j].index));
            }
        }
    }

    /// An empty store: no profile, no task, for any owner.
    pub fn new() -> (store: TodoStore)
        ensures
            store.wf(),
            store.profile_entries().len() == 0,
            store.task_entries().len() == 0,
            forall|o: Identity| !store.has_profile(o),
            forall|o: Identity, i: u8| !store.has_task(o, i),
    {
        TodoStore { profiles: Vec::new(), tasks: Vec::new() }
    }

    /// Find the slot of an owner's profile.
    #[verifier::loop_isolation(false)]
    fn find_profile(&self, owner: &Identity) -> (r: Option<usize>)
        ensures
            match r {
                Some(k) => k < self.profile_entries().len() && self.profile_entries()[
                    k as int
                ].profile.owner == *owner,
                None => !self.has_profile(*owner),
            },
    {
        let mut k: usize = 0;
        while k < self.profiles.len()
            invariant
                k <= self.profiles@.len(),
                forall|j: int| 0 <= j < k ==> (#[trigger] self.profiles@[j]).profile.owner != *owner,
            decreases self.profiles@.len() - k,
        {
            if self.profiles[k].profile.owner == *owner {
                return Some(k);
            }
            k += 1;
        }
        None
    }

    /// Find the slot of an owner's task at `index`.
    #[verifier::loop_isolation(false)]
    fn find_task(&self, owner: &Identity, index: u8) -> (r: Option<usize>)
        ensures
            match r {
                Some(k) => k < self.task_entries().len() && self.task_entries()[k as int].owner
                    == *owner && self.task_entries()[k as int].index == index,
                None => !self.has_task(*owner, index),
            },
    {
        let mut k: usize = 0;
        while k < self.tasks.len()
            invariant
                k <= self.tasks@.len(),
                forall|j: int|
                    0 <= j < k ==> !((#[trigger] self.tasks@[j]).owner == *owner
                        && self.tasks@[j].index == index),
            decreases self.tasks@.len() - k,
        {
            if self.tasks[k].owner == *owner && self.tasks[k].index == index {
                return Some(k);
            }
            k += 1;
        }
        None
    }

    /// Read an owner's profile record; repeated reads of one store state
    /// return the same record, because the result is a function of the
    /// state alone.
    pub fn get_profile(&self, owner: &Identity) -> (r: Option<&ProfileRecord>)
        requires
            self.wf(),
        ensures
            match r {
                Some(p) => self.has_profile(*owner) && *p == self.profile_at(*owner),
                None => !self.has_profile(*owner),
            },
    {
        match self.find_profile(owner) {
            Some(k) => {
                proof {
                    self.lemma_profile_at(*owner, k as int);
                }
                Some(&self.profiles[k].profile)
            },
            None => None,
        }
    }

    /// Read an owner's task record at `index`; repeated reads of one store
    /// state return the same record — identical content, index, and flag —
    /// until an explicit mutation.
    pub fn get_task(&self, owner: &Identity, index: u8) -> (r: Option<&TaskRecord>)
        requires
            self.wf(),
        ensures
            match r {
                Some(t) => self.has_task(*owner, index) && *t == self.task_at(*owner, index),
                None => !self.has_task(*owner, index),
            },
    {
        match self.find_task(owner, index) {
            Some(k) => {
                proof {
                    self.lemma_task_at(*owner, index, k as int);
                }
                Some(&self.tasks[k])
            },
            None => None,
        }
    }

    /// Allocate the caller's profile record with both counters at zero,
    /// renting exactly the profile's record space. Fails with
    /// `AlreadyExists`, and changes nothing, when the owner already has one.
    pub fn initialize_profile(&mut self, caller: Identity) -> (r: Result<(), TodoError>)
        requires
            old(self).wf(),
        ensures
            final(self).wf(),
            r is Ok <==> !old(self).has_profile(caller),
            r is Err ==> *final(self) == *old(self) && r == Err::<(), TodoError>(
                TodoError::AlreadyExists,
            ),
            r is Ok ==> final(self).has_profile(caller),
            r is Ok ==> final(self).profile_at(caller) == (ProfileRecord {
                owner: caller,
                total_created: 0,
                active_count: 0,
            }),
            r is Ok ==> final(self).rented_at(caller) == PROFILE_RECORD_SPACE,
            forall|o: Identity|
                o != caller ==> (final(self).has_profile(o) <==> old(self).has_profile(o)),
            forall|o: Identity|
                o != caller && old(self).has_profile(o) ==> final(self).profile_at(o) == old(self).profile_at(o)
                    && final(self).rented_at(o) == old(self).rented_at(o),
            final(self).task_entries() == old(self).task_entries(),
    {
        match self.find_profile(&caller) {
            Some(k) => {
                proof {
                    assert(self.has_profile(caller));
                }
                Err(TodoError::AlreadyExists)
            },
            None => {
                let entry = ProfileEntry {
                    profile: initialize_user(&caller),
                    rented_bytes: PROFILE_RECORD_SPACE,
                };
                self.profiles.push(entry);
                proof {
                    let pre = *old(self);
                    let post = *self;
                    let n = pre.profile_entries().len() as int;
                    assert(post.profile_entries() == pre.profile_entries().push(entry));
                    assert(post.profile_entries()[n] == entry);
                    post.lemma_profile_wf_from_push(pre, entry);
                    post.lemma_profile_at(caller, n);
                    assert forall|o: Identity| o != caller implies (post.has_profile(o)
                        <==> pre.has_profile(o)) by {
                        if pre.has_profile(o) {
                            let w = choose|k: int|
                                0 <= k < pre.profile_entries().len() && (
                                #[trigger] pre.profile_entries()[k]).profile.owner == o;
                            assert(post.profile_entries()[w].profile.owner == o);
                        }
                        if post.has_profile(o) {
                            let w = choose|k: int|
                                0 <= k < post.profile_entries().len() && (
                                #[trigger] post.profile_entries()[k]).profile.owner == o;
                            assert(w < n);
                            assert(pre.profile_entries()[w].profile.owner == o);
                        }
                    }
                    assert forall|o: Identity| o != caller && pre.has_profile(o) implies post.profile_at(
                        o,
                    ) == pre.profile_at(o) && post.rented_at(o) == pre.rented_at(o) by {
                        let w = pre.profile_index(o);
                        pre.lemma_profile_at(o, w);
                        assert(post.profile_entries()[w].profile.owner == o);
                        post.lemma_profile_at(o, w);
                    }
                }
                Ok(())
            },
        }
    }

    /// The invariant survives appending a fresh profile entry. Helper for
    /// `initialize_profile`.
    proof fn lemma_profile_wf_from_push(self, pre: TodoStore, entry: ProfileEntry)
        requires
            pre.wf(),
            !pre.has_profile(entry.profile.owner),
            entry.profile.total_created == 0,
            entry.profile.active_count == 0,
            entry.rented_bytes == PROFILE_RECORD_SPACE,
            self.profile_entries() == pre.profile_entries().push(entry),
            self.task_entries() == pre.task_entries(),
        ensures
            self.wf(),
    {
        let n = pre.profile_entries().len() as int;
        assert forall|a: int, b: int| 0 <= a < b < self.profile_entries().len() implies (
        #[trigger] self.profile_entries()[a]).profile.owner != (
        #[trigger] self.profile_entries()[b]).profile.owner by {
            if b < n {
                assert(pre.profile_entries()[a].profile.owner
                    != pre.profile_entries()[b].profile.owner);
            } else {
                assert(self.profile_entries()[b] == entry);
                assert(pre.profile_entries()[a].profile.owner != entry.profile.owner);
            }
        }
        assert forall|k: int|
            0 <= k < pre.task_entries().len() implies (#[trigger] pre.task_entries()[k]).owner
            != entry.profile.owner by {
            assert(pre.task_entry_wf(k));
        }
        lemma_count_owned_zero(pre.task_entries(), entry.profile.owner);
        assert forall|k: int| 0 <= k < self.profile_entries().len() implies #[trigger] self.profile_entry_wf(
            k,
        ) by {
            if k < n {
                assert(pre.profile_entry_wf(k));
                assert(self.profile_entries()[k] == pre.profile_entries()[k]);
            } else {
                assert(self.profile_entries()[k] == entry);
                assert(count_owned(self.task_entries(), entry.profile.owner) == 0);
            }
        }
        assert forall|k: int| 0 <= k < self.task_entries().len() implies #[trigger] self.task_entry_wf(
            k,
        ) by {
            assert(pre.task_entry_wf(k));
            let t = pre.task_entries()[k];
            let w = pre.profile_index(t.owner);
            pre.lemma_profile_at(t.owner, w);
            assert(self.profile_entries()[w].profile.owner == t.owner);
            self.lemma_profile_at_raw(t.owner, w);
        }
    }

    /// Create a task for the caller: it takes the profile's creation
    /// counter as its index, the counter and the active count rise by one,
    /// and exactly one task record's space is rented in addition. Fails
    /// with `NotFound` when the caller has no profile and with
    /// `IndexSpaceExhausted` when all one-byte indices are spent; every
    /// failure leaves the store unchanged.
    pub fn add_task(&mut self, caller: Identity, content: String) -> (r: Result<u8, TodoError>)
        requires
            old(self).wf(),
            content@.len() <= CONTENT_CAPACITY,
        ensures
            final(self).wf(),
            r is Err ==> *final(self) == *old(self),
            !old(self).has_profile(caller) ==> r == Err::<u8, TodoError>(TodoError::NotFound),
            old(self).has_profile(caller) ==> (r is Ok <==> old(self).profile_at(
                caller,
            ).total_created < TASK_INDEX_SPAN),
            old(self).has_profile(caller) && old(self).profile_at(caller).total_created
                >= TASK_INDEX_SPAN ==> r == Err::<u8, TodoError>(TodoError::IndexSpaceExhausted),
            r matches Ok(index) ==> index == old(self).profile_at(caller).total_created as u8,
            r matches Ok(index) ==> final(self).has_task(caller, index),
            r matches Ok(index) ==> final(self).task_at(caller, index) == (TaskRecord {
                owner: caller,
                index,
                content,
                done: false,
            }),
            r is Ok ==> final(self).has_profile(caller),
            r is Ok ==> final(self).profile_at(caller).owner == caller,
            r is Ok ==> final(self).profile_at(caller).total_created == old(self).profile_at(
                caller,
            ).total_created + 1,
            r is Ok ==> final(self).profile_at(caller).active_count == old(self).profile_at(
                caller,
            ).active_count + 1,
            r is Ok ==> final(self).rented_at(caller) == old(self).rented_at(caller)
                + TASK_RECORD_SPACE,
            forall|o: Identity| final(self).has_profile(o) <==> old(self).has_profile(o),
            forall|o: Identity|
                o != caller && old(self).has_profile(o) ==> final(self).profile_at(o) == old(self).profile_at(o)
                    && final(self).rented_at(o) == old(self).rented_at(o),
            forall|o: Identity, i: u8|
                old(self).has_task(o, i) ==> final(self).has_task(o, i) && final(self).task_at(
                    o,
                    i,
                ) == old(self).task_at(o, i),
            forall|o: Identity, i: u8|
                final(self).has_task(o, i) && !old(self).has_task(o, i) ==> (r matches Ok(index)
                    && o == caller && i == index),
    {
        let kp = match self.find_profile(&caller) {
            None => {
                return Err(TodoError::NotFound);
            },
            Some(kp) => kp,
        };
        proof {
            self.lemma_profile_at(caller, kp as int);
            assert(self.profile_entry_wf(kp as int));
        }
        let mut profile = self.profiles[kp].profile;
        match add_todo(&caller, &mut profile, content) {
            Err(e) => Err(e),
            Ok(task) => {
                let index = task.index;
                match self.find_task(&caller, index) {
                    Some(kt) => {
                        proof {
                            assert(self.task_entry_wf(kt as int));
                            assert(false);
                        }
                        Err(TodoError::CollisionDetected)
                    },
                    None => {
                        let ghost gtask = task;
                        let ghost pre = *self;
                        self.tasks.push(task);
                        let entry = &mut self.profiles[kp];
                        proof {
                            assert(pre.profile_entry_wf(kp as int));
                            assert(PROFILE_RECORD_SPACE == 44);
                            assert(TASK_RECORD_SPACE == 302);
                        }
                        entry.profile = profile;
                        entry.rented_bytes = entry.rented_bytes + TASK_RECORD_SPACE;
                        proof {
                            let post = *self;
                            assert(PROFILE_RECORD_SPACE == 44);
                            assert(TASK_RECORD_SPACE == 302);
                            let n = pre.task_entries().len() as int;
                            post.lemma_wf_after_add(pre, kp as int, gtask);
                            post.lemma_profile_at(caller, kp as int);
                            post.lemma_task_at(caller, index, n);
                            assert forall|o: Identity| post.has_profile(o) <==> pre.has_profile(
                                o,
                            ) by {
                                if pre.has_profile(o) {
                                    let w = choose|k: int|
                                        0 <= k < pre.profile_entries().len() && (
                                        #[trigger] pre.profile_entries()[k]).profile.owner == o;
                                    assert(post.profile_entries()[w].profile.owner == o);
                                }
                                if post.has_profile(o) {
                                    let w = choose|k: int|
                                        0 <= k < post.profile_entries().len() && (
                                        #[trigger] post.profile_entries()[k]).profile.owner == o;
                                    assert(pre.profile_entries()[w].profile.owner == o);
                                }
                            }
                            assert forall|o: Identity| o != caller && pre.has_profile(
                                o,
                            ) implies post.profile_at(o) == pre.profile_at(o) && post.rented_at(o)
                                == pre.rented_at(o) by {
                                let w = pre.profile_index(o);
                                pre.lemma_profile_at(o, w);
                                assert(post.profile_entries()[w] == pre.profile_entries()[w]);
                                post.lemma_profile_at(o, w);
                            }
                            assert forall|o: Identity, i: u8| pre.has_task(o, i) implies post.has_task(
                                o,
                                i,
                            ) && post.task_at(o, i) == pre.task_at(o, i) by {
                                let w = pre.task_index(o, i);
                                pre.lemma_task_at(o, i, w);
                                assert(post.task_entries()[w] == pre.task_entries()[w]);
                                post.lemma_task_at(o, i, w);
                            }
                            assert forall|o: Identity, i: u8| post.has_task(o, i) && !pre.has_task(
                                o,
                                i,
                            ) implies o == caller && i == index by {
                                let w = choose|k: int|
                                    0 <= k < post.task_entries().len() && (
                                    #[trigger] post.task_entries()[k]).owner == o
                                        && post.task_entries()[k].index == i;
                                if w < n {
                                    assert(pre.task_entries()[w].owner == o);
                                    assert(pre.has_task(o, i));
                                } else {
                                    assert(post.task_entries()[w] == gtask);
                                }
                            }
                        }
                        Ok(index)
                    },
                }
            },
        }
    }

    /// The invariant survives creating a task: the new record is appended
    /// and its owner's profile slot is recounted. Helper for `add_task`.
    proof fn lemma_wf_after_add(self, pre: TodoStore, kp: int, t: TaskRecord)
        requires
            pre.wf(),
            0 <= kp < pre.profile_entries().len(),
            t.owner == pre.profile_entries()[kp].profile.owner,
            t.index == pre.profile_entries()[kp].profile.total_created,
            pre.profile_entries()[kp].profile.total_created < TASK_INDEX_SPAN,
            t.content@.len() <= CONTENT_CAPACITY,
            self.task_entries() == pre.task_entries().push(t),
            self.profile_entries() == pre.profile_entries().update(
                kp,
                self.profile_entries()[kp],
            ),
            self.profile_entries()[kp].profile.owner == t.owner,
            self.profile_entries()[kp].profile.total_created == pre.profile_entries()[kp].profile.total_created
                + 1,
            self.profile_entries()[kp].profile.active_count == pre.profile_entries()[kp].profile.active_count
                + 1,
            self.profile_entries()[kp].rented_bytes == pre.profile_entries()[kp].rented_bytes
                + TASK_RECORD_SPACE,
        ensures
            self.wf(),
    {
        let n = pre.task_entries().len() as int;
        assert(PROFILE_RECORD_SPACE == 44);
        assert(TASK_RECORD_SPACE == 302);
        assert forall|a: int, b: int|
            0 <= a < b < self.profile_entries().len() implies (
        #[trigger] self.profile_entries()[a]).profile.owner != (
        #[trigger] self.profile_entries()[b]).profile.owner by {
            assert(pre.profile_entries()[a].profile.owner
                != pre.profile_entries()[b].profile.owner);
        }
        assert forall|a: int, b: int|
            0 <= a < b < self.task_entries().len() implies !((
        #[trigger] self.task_entries()[a]).owner == (#[trigger] self.task_entries()[b]).owner
            && self.task_entries()[a].index == self.task_entries()[b].index) by {
            if b < n {
                assert(!(pre.task_entries()[a].owner == pre.task_entries()[b].owner
                    && pre.task_entries()[a].index == pre.task_entries()[b].index));
            } else {
                assert(self.task_entries()[b] == t);
                if pre.task_entries()[a].owner == t.owner {
                    assert(pre.task_entry_wf(a));
                    pre.lemma_profile_at(t.owner, kp);
                    assert(pre.task_entries()[a].index < t.index);
                }
            }
        }
        assert forall|k: int|
            0 <= k < self.profile_entries().len() implies #[trigger] self.profile_entry_wf(k) by {
            assert(pre.profile_entry_wf(k));
            let owner = self.profile_entries()[k].profile.owner;
            lemma_count_owned_push(pre.task_entries(), t, owner);
            if k != kp {
                assert(self.profile_entries()[k] == pre.profile_entries()[k]);
                if k < kp {
                    assert(pre.profile_entries()[k].profile.owner
                        != pre.profile_entries()[kp].profile.owner);
                } else {
                    assert(pre.profile_entries()[kp].profile.owner
                        != pre.profile_entries()[k].profile.owner);
                }
            }
        }
        assert forall|k: int|
            0 <= k < self.task_entries().len() implies #[trigger] self.task_entry_wf(k) by {
            let owner = self.task_entries()[k].owner;
            if k < n {
                assert(pre.task_entry_wf(k));
                let w = pre.profile_index(owner);
                pre.lemma_profile_at(owner, w);
                assert(self.profile_entries()[w].profile.owner == owner);
                self.lemma_profile_at_raw(owner, w);
                if w != kp {
                    assert(self.profile_entries()[w] == pre.profile_entries()[w]);
                }
            } else {
                assert(self.task_entries()[k] == t);
                assert(self.profile_entries()[kp].profile.owner == owner);
                self.lemma_profile_at_raw(owner, kp);
            }
        }
    }

    /// Mark the caller's task at `index` under the literal marking policy:
    /// the done flag must already be set, and marking clears it — otherwise
    /// `InvalidMarkState`. Fails with `NotFound` when no such task exists;
    /// every failure leaves the store unchanged, and no profile record ever
    /// changes.
    pub fn mark_task(&mut self, caller: Identity, index: u8) -> (r: Result<(), TodoError>)
        requires
            old(self).wf(),
        ensures
            final(self).wf(),
            r is Ok <==> old(self).has_task(caller, index) && old(self).task_at(
                caller,
                index,
            ).done,
            r is Err ==> *final(self) == *old(self),
            !old(self).has_task(caller, index) ==> r == Err::<(), TodoError>(TodoError::NotFound),
            old(self).has_task(caller, index) && !old(self).task_at(caller, index).done ==> r
                == Err::<(), TodoError>(TodoError::InvalidMarkState),
            final(self).profile_entries() == old(self).profile_entries(),
            r is Ok ==> final(self).has_task(caller, index),
            r is Ok ==> final(self).task_at(caller, index).owner == caller,
            r is Ok ==> final(self).task_at(caller, index).index == index,
            r is Ok ==> final(self).task_at(caller, index).content == old(self).task_at(
                caller,
                index,
            ).content,
            r is Ok ==> !final(self).task_at(caller, index).done,
            forall|o: Identity, i: u8| final(self).has_task(o, i) <==> old(self).has_task(o, i),
            forall|o: Identity, i: u8|
                !(o == caller && i == index) && old(self).has_task(o, i) ==> final(self).task_at(
                    o,
                    i,
                ) == old(self).task_at(o, i),
    {
        let kt = match self.find_task(&caller, index) {
            None => {
                return Err(TodoError::NotFound);
            },
            Some(kt) => kt,
        };
        proof {
            self.lemma_task_at(caller, index, kt as int);
            assert(self.task_entry_wf(kt as int));
        }
        if !self.tasks[kt].done {
            return Err(TodoError::InvalidMarkState);
        }
        let ghost pre = *self;
        let task = &mut self.tasks[kt];
        let r = mark_todo(&caller, task);
        proof {
            let post = *self;
            assert(post.task_entries() == pre.task_entries().update(
                kt as int,
                post.task_entries()[kt as int],
            ));
            post.lemma_wf_after_mark(pre, kt as int);
            post.lemma_task_at(caller, index, kt as int);
            assert forall|o: Identity, i: u8| post.has_task(o, i) <==> pre.has_task(o, i) by {
                if pre.has_task(o, i) {
                    let w = choose|k: int|
                        0 <= k < pre.task_entries().len() && (#[trigger] pre.task_entries()[k]).owner
                            == o && pre.task_entries()[k].index == i;
                    assert(post.task_entries()[w].owner == o);
                    assert(post.task_entries()[w].index == i);
                }
                if post.has_task(o, i) {
                    let w = choose|k: int|
                        0 <= k < post.task_entries().len() && (
                        #[trigger] post.task_entries()[k]).owner == o
                            && post.task_entries()[k].index == i;
                    assert(pre.task_entries()[w].owner == o);
                    assert(pre.task_entries()[w].index == i);
                }
            }
            assert forall|o: Identity, i: u8|
                !(o == caller && i == index) && pre.has_task(o, i) implies post.task_at(o, i)
                == pre.task_at(o, i) by {
                let w = pre.task_index(o, i);
                pre.lemma_task_at(o, i, w);
                assert(post.task_entries()[w] == pre.task_entries()[w]);
                post.lemma_task_at(o, i, w);
            }
            if r is Err {
                assert(post.task_entries() =~= pre.task_entries());
            }
        }
        r
    }

    /// The invariant survives rewriting one task in place with its owner,
    /// index, and content kept. Helper for `mark_task`.
    proof fn lemma_wf_after_mark(self, pre: TodoStore, kt: int)
        requires
            pre.wf(),
            0 <= kt < pre.task_entries().len(),
            self.task_entries() == pre.task_entries().update(kt, self.task_entries()[kt]),
            self.task_entries()[kt].owner == pre.task_entries()[kt].owner,
            self.task_entries()[kt].index == pre.task_entries()[kt].index,
            self.task_entries()[kt].content == pre.task_entries()[kt].content,
            self.profile_entries() == pre.profile_entries(),
        ensures
            self.wf(),
    {
        assert forall|a: int, b: int|
            0 <= a < b < self.task_entries().len() implies !((
        #[trigger] self.task_entries()[a]).owner == (#[trigger] self.task_entries()[b]).owner
            && self.task_entries()[a].index == self.task_entries()[b].index) by {
            assert(!(pre.task_entries()[a].owner == pre.task_entries()[b].owner
                && pre.task_entries()[a].index == pre.task_entries()[b].index));
        }
        assert forall|k: int|
            0 <= k < self.profile_entries().len() implies #[trigger] self.profile_entry_wf(k) by {
            assert(pre.profile_entry_wf(k));
            lemma_count_owned_update(
                pre.task_entries(),
                kt,
                self.task_entries()[kt],
                self.profile_entries()[k].profile.owner,
            );
        }
        assert forall|k: int|
            0 <= k < self.task_entries().len() implies #[trigger] self.task_entry_wf(k) by {
            assert(pre.task_entry_wf(k));
            assert(pre.task_entry_wf(kt));
            assert(self.task_entries()[k].owner == pre.task_entries()[k].owner);
            assert(self.task_entries()[k].index == pre.task_entries()[k].index);
        }
    }

    /// Delete the caller's task at `index`: the record is deallocated, its
    /// exact space refunded, the active count falls by one, and the
    /// creation counter deliberately keeps its value — the index is retired
    /// for good. Fails with `NotFound`, changing nothing, when no such task
    /// exists.
    pub fn delete_task(&mut self, caller: Identity, index: u8) -> (r: Result<(), TodoError>)
        requires
            old(self).wf(),
        ensures
            final(self).wf(),
            r is Ok <==> old(self).has_task(caller, index),
            r is Err ==> *final(self) == *old(self) && r == Err::<(), TodoError>(
                TodoError::NotFound,
            ),
            r is Ok ==> !final(self).has_task(caller, index),
            r is Ok ==> final(self).has_profile(caller),
            r is Ok ==> final(self).profile_at(caller).owner == caller,
            r is Ok ==> final(self).profile_at(caller).total_created == old(self).profile_at(
                caller,
            ).total_created,
            r is Ok ==> final(self).profile_at(caller).active_count == old(self).profile_at(
                caller,
            ).active_count - 1,
            r is Ok ==> final(self).rented_at(caller) == old(self).rented_at(caller)
                - TASK_RECORD_SPACE,
            forall|o: Identity| final(self).has_profile(o) <==> old(self).has_profile(o),
            forall|o: Identity|
                o != caller && old(self).has_profile(o) ==> final(self).profile_at(o) == old(self).profile_at(o)
                    && final(self).rented_at(o) == old(self).rented_at(o),
            forall|o: Identity, i: u8|
                !(o == caller && i == index) ==> (final(self).has_task(o, i) <==> old(self).has_task(
                    o,
                    i,
                )),
            forall|o: Identity, i: u8|
                !(o == caller && i == index) && old(self).has_task(o, i) ==> final(self).task_at(
                    o,
                    i,
                ) == old(self).task_at(o, i),
    {
        let kt = match self.find_task(&caller, index) {
            None => {
                return Err(TodoError::NotFound);
            },
            Some(kt) => kt,
        };
        proof {
            self.lemma_task_at(caller, index, kt as int);
            assert(self.task_entry_wf(kt as int));
        }
        let kp = match self.find_profile(&caller) {
            None => {
                proof {
                    assert(false);
                }
                return Err(TodoError::NotFound);
            },
            Some(kp) => kp,
        };
        proof {
            self.lemma_profile_at(caller, kp as int);
            assert(self.profile_entry_wf(kp as int));
            lemma_count_owned_remove(self.task_entries(), kt as int, caller);
        }
        let mut profile = self.profiles[kp].profile;
        let r = delete_todo(&caller, &mut profile, &self.tasks[kt]);
        match r {
            Err(e) => {
                proof {
                    assert(false);
                }
                Err(TodoError::NotFound)
            },
            Ok(()) => {
                let ghost pre = *self;
                let _ = self.tasks.remove(kt);
                let entry = &mut self.profiles[kp];
                proof {
                    assert(pre.profile_entry_wf(kp as int));
                    assert(PROFILE_RECORD_SPACE == 44);
                    assert(TASK_RECORD_SPACE == 302);
                }
                entry.profile = profile;
                entry.rented_bytes = entry.rented_bytes - TASK_RECORD_SPACE;
                proof {
                    let post = *self;
                    assert(PROFILE_RECORD_SPACE == 44);
                    assert(TASK_RECORD_SPACE == 302);
                    post.lemma_wf_after_delete(pre, kp as int, kt as int);
                    post.lemma_profile_at(caller, kp as int);
                    assert forall|o: Identity| post.has_profile(o) <==> pre.has_profile(o) by {
                        if pre.has_profile(o) {
                            let w = choose|k: int|
                                0 <= k < pre.profile_entries().len() && (
                                #[trigger] pre.profile_entries()[k]).profile.owner == o;
                            assert(post.profile_entries()[w].profile.owner == o);
                        }
                        if post.has_profile(o) {
                            let w = choose|k: int|
                                0 <= k < post.profile_entries().len() && (
                                #[trigger] post.profile_entries()[k]).profile.owner == o;
                            assert(pre.profile_entries()[w].profile.owner == o);
                        }
                    }
                    assert forall|o: Identity| o != caller && pre.has_profile(
                        o,
                    ) implies post.profile_at(o) == pre.profile_at(o) && post.rented_at(o)
                        == pre.rented_at(o) by {
                        let w = pre.profile_index(o);
                        pre.lemma_profile_at(o, w);
                        assert(post.profile_entries()[w] == pre.profile_entries()[w]);
                        post.lemma_profile_at(o, w);
                    }
                    assert(!post.has_task(caller, index)) by {
                        if post.has_task(caller, index) {
                            let w = post.task_index(caller, index);
                            post.lemma_task_at(caller, index, w);
                            if w < kt {
                                assert(pre.task_entries()[w] == post.task_entries()[w]);
                                assert(!(pre.task_entries()[w].owner == pre.task_entries()[
                                    kt as int
                                ].owner && pre.task_entries()[w].index == pre.task_entries()[
                                    kt as int
                                ].index));
                            } else {
                                assert(pre.task_entries()[w + 1] == post.task_entries()[w]);
                                assert(!(pre.task_entries()[kt as int].owner
                                    == pre.task_entries()[w + 1].owner && pre.task_entries()[
                                    kt as int
                                ].index == pre.task_entries()[w + 1].index));
                            }
                        }
                    }
                    assert forall|o: Identity, i: u8| !(o == caller && i == index) implies (
                    post.has_task(o, i) <==> pre.has_task(o, i)) by {
                        if pre.has_task(o, i) {
                            let w = pre.task_index(o, i);
                            pre.lemma_task_at(o, i, w);
                            if w < kt {
                                assert(post.task_entries()[w] == pre.task_entries()[w]);
                                assert(post.has_task(o, i));
                            } else {
                                assert(w > kt);
                                assert(post.task_entries()[w - 1] == pre.task_entries()[w]);
                                assert(post.has_task(o, i));
                            }
                        }
                        if post.has_task(o, i) {
                            let w = post.task_index(o, i);
                            assert(0 <= w < post.task_entries().len());
                            assert(post.task_entries()[w].owner == o);
                            if w < kt {
                                assert(pre.task_entries()[w] == post.task_entries()[w]);
                                assert(pre.has_task(o, i));
                            } else {
                                assert(pre.task_entries()[w + 1] == post.task_entries()[w]);
                                assert(pre.has_task(o, i));
                            }
                        }
                    }
                    assert forall|o: Identity, i: u8|
                        !(o == caller && i == index) && pre.has_task(o, i) implies post.task_at(
                        o,
                        i,
                    ) == pre.task_at(o, i) by {
                        let w = pre.task_index(o, i);
                        pre.lemma_task_at(o, i, w);
                        if w < kt {
                            assert(post.task_entries()[w] == pre.task_entries()[w]);
                            post.lemma_task_at(o, i, w);
                        } else {
                            assert(w > kt);
                            assert(post.task_entries()[w - 1] == pre.task_entries()[w]);
                            post.lemma_task_at(o, i, w - 1);
                        }
                    }
                }
                Ok(())
            },
        }
    }

    /// The invariant survives deleting a task: the record is removed and
    /// its owner's profile slot is recounted. Helper for `delete_task`.
    proof fn lemma_wf_after_delete(self, pre: TodoStore, kp: int, kt: int)
        requires
            pre.wf(),
            0 <= kt < pre.task_entries().len(),
            0 <= kp < pre.profile_entries().len(),
            pre.profile_entries()[kp].profile.owner == pre.task_entries()[kt].owner,
            self.task_entries() == pre.task_entries().remove(kt),
            self.profile_entries() == pre.profile_entries().update(
                kp,
                self.profile_entries()[kp],
            ),
            self.profile_entries()[kp].profile.owner == pre.profile_entries()[kp].profile.owner,
            self.profile_entries()[kp].profile.total_created == pre.profile_entries()[kp].profile.total_created,
            self.profile_entries()[kp].profile.active_count == pre.profile_entries()[kp].profile.active_count
                - 1,
            self.profile_entries()[kp].rented_bytes == pre.profile_entries()[kp].rented_bytes
                - TASK_RECORD_SPACE,
        ensures
            self.wf(),
    {
        let owner = pre.task_entries()[kt].owner;
        assert(PROFILE_RECORD_SPACE == 44);
        assert(TASK_RECORD_SPACE == 302);
        lemma_count_owned_remove(pre.task_entries(), kt, owner);
        assert(pre.profile_entry_wf(kp));
        assert forall|a: int, b: int|
            0 <= a < b < self.profile_entries().len() implies (
        #[trigger] self.profile_entries()[a]).profile.owner != (
        #[trigger] self.profile_entries()[b]).profile.owner by {
            assert(pre.profile_entries()[a].profile.owner
                != pre.profile_entries()[b].profile.owner);
        }
        assert forall|a: int, b: int|
            0 <= a < b < self.task_entries().len() implies !((
        #[trigger] self.task_entries()[a]).owner == (#[trigger] self.task_entries()[b]).owner
            && self.task_entries()[a].index == self.task_entries()[b].index) by {
            let a2 = if a < kt {
                a
            } else {
                a + 1
            };
            let b2 = if b < kt {
                b
            } else {
                b + 1
            };
            assert(self.task_entries()[a] == pre.task_entries()[a2]);
            assert(self.task_entries()[b] == pre.task_entries()[b2]);
            assert(!(pre.task_entries()[a2].owner == pre.task_entries()[b2].owner
                && pre.task_entries()[a2].index == pre.task_entries()[b2].index));
        }
        assert forall|k: int|
            0 <= k < self.profile_entries().len() implies #[trigger] self.profile_entry_wf(k) by {
            assert(pre.profile_entry_wf(k));
            let o = self.profile_entries()[k].profile.owner;
            lemma_count_owned_remove(pre.task_entries(), kt, o);
            if k != kp {
                assert(self.profile_entries()[k] == pre.profile_entries()[k]);
                if k < kp {
                    assert(pre.profile_entries()[k].profile.owner
                        != pre.profile_entries()[kp].profile.owner);
                } else {
                    assert(pre.profile_entries()[kp].profile.owner
                        != pre.profile_entries()[k].profile.owner);
                }
            }
        }
        assert forall|k: int|
            0 <= k < self.task_entries().len() implies #[trigger] self.task_entry_wf(k) by {
            let k2 = if k < kt {
                k
            } else {
                k + 1
            };
            assert(self.task_entries()[k] == pre.task_entries()[k2]);
            assert(pre.task_entry_wf(k2));
            let o = pre.task_entries()[k2].owner;
            let w = pre.profile_index(o);
            pre.lemma_profile_at(o, w);
            assert(self.profile_entries()[w].profile.owner == o);
            self.lemma_profile_at_raw(o, w);
            if w != kp {
                assert(self.profile_entries()[w] == pre.profile_entries()[w]);
            }
        }
    }

    /// Law: the index the next creation would assign — the owner's current
    /// creation counter — is held by no live task, so a fresh creation can
    /// never collide with an existing record, even after deletions.
    pub proof fn lemma_next_index_fresh(self, owner: Identity)
        requires
            self.wf(),
            self.has_profile(owner),
            self.profile_at(owner).total_created < TASK_INDEX_SPAN,
        ensures
            !self.has_task(owner, self.profile_at(owner).total_created as u8),
    {
        let index = self.profile_at(owner).total_created as u8;
        if self.has_task(owner, index) {
            let w = self.task_index(owner, index);
            self.lemma_task_at(owner, index, w);
            assert(self.task_entry_wf(w));
        }
    }

    /// Variant of `lemma_profile_at` usable while proving `self.wf()`: only
    /// profile-owner uniqueness is needed.
    proof fn lemma_profile_at_raw(self, owner: Identity, k: int)
        requires
            forall|a: int, b: int|
                0 <= a < b < self.profile_entries().len() ==> (
                #[trigger] self.profile_entries()[a]).profile.owner != (
                #[trigger] self.profile_entries()[b]).profile.owner,
            0 <= k < self.profile_entries().len(),
            self.profile_entries()[k].profile.owner == owner,
        ensures
            self.has_profile(owner),
            self.profile_index(owner) == k,
            self.profile_at(owner) == self.profile_entries()[k].profile,
    {
        assert(self.has_profile(owner));
        let j = self.profile_index(owner);
        if j != k {
            if j < k {
                assert(self.profile_entries()[j].profile.owner
                    != self.profile_entries()[k].profile.owner);
            } else {
                assert(self.profile_entries()[k].profile.owner
                    != self.profile_entries()[j].profile.owner);
            }
        }
    }
}

} // verus!
