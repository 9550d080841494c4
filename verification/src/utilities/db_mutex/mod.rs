use crate::constants::MUTEX_EXPIRATION;
use crate::types::dates::datetime::{is_timestamp_millis, MILLIS_PER_SECOND};
use crate::types::dates::DBDateTime;
use crate::types::uuid::DBUuid;
use crate::utilities::db_mutex::key_set::{distinct_keys, key_set, position, KeySet};
use crate::utilities::db_mutex::query::{
    key_views, MutexCondition, MutexConditionView, MutexQuery, MutexQueryView, MutexReturn,
    MutexSource, MutexSourceView, MutexUpdate, MutexUpdateView,
};
use vstd::prelude::*;

pub mod acquire;
pub mod errors;
pub mod key_set;
pub mod model;
pub mod query;

verus! {

/// Milliseconds for which a claimed or renewed mutex stays valid.
pub open spec fn mutex_lifetime_millis() -> int {
    MUTEX_EXPIRATION * MILLIS_PER_SECOND
}

/// Whether a mutex claimed or renewed at `now` can be given its expiration.
pub open spec fn can_expire_after(now: int) -> bool {
    is_timestamp_millis(now + mutex_lifetime_millis())
}

/// The local record of the documents that one claim holds locked.
///
/// A guard knows the node it locks for, the change flag that its claim wrote
/// into every document, the keys it still believes locked, and whether its
/// keep-alive job is still due. It never talks to the store: each operation
/// changes the record and hands back the query, if any, that the caller is to
/// run.
#[derive(Debug)]
pub struct DBMutexGuard {
    node_id: String,
    elements: KeySet,
    change_flag: DBUuid,
    alive_job: bool,
}

/// A guard as mathematical values.
pub struct DBMutexGuardView {
    /// The node that the guard locks for.
    pub node_id: Seq<char>,
    /// The keys of the documents that the guard believes locked.
    pub elements: Set<Seq<char>>,
    /// The change flag shared by every mutex of the claim.
    pub change_flag: Seq<char>,
    /// Whether the keep-alive job is still due, which is also whether the
    /// guard has not been released yet.
    pub alive_job: bool,
}

impl DBMutexGuardView {
    /// The guard after giving up `keys`: the rest stays, and the keep-alive
    /// job ends as soon as nothing is left.
    pub open spec fn without(self, keys: Set<Seq<char>>) -> DBMutexGuardView {
        let elements = self.elements.difference(keys);
        DBMutexGuardView {
            node_id: self.node_id,
            elements,
            change_flag: self.change_flag,
            alive_job: self.alive_job && !(elements =~= Set::empty()),
        }
    }

    /// The guard that takes over those of `keys` that this one holds: same
    /// node, same change flag, and a keep-alive job of its own.
    pub open spec fn popped(self, keys: Set<Seq<char>>) -> DBMutexGuardView {
        DBMutexGuardView {
            node_id: self.node_id,
            elements: self.elements.intersect(keys),
            change_flag: self.change_flag,
            alive_job: true,
        }
    }

    /// The guard with its keep-alive job ended.
    pub open spec fn stopped(self) -> DBMutexGuardView {
        DBMutexGuardView {
            node_id: self.node_id,
            elements: self.elements,
            change_flag: self.change_flag,
            alive_job: false,
        }
    }

    /// Whether there is anything to ask the store for: the guard has not been
    /// released and still holds a key.
    pub open spec fn is_active(self) -> bool {
        self.alive_job && !(self.elements =~= Set::empty())
    }

    /// Whether `query` visits exactly the documents of the guard, each once,
    /// touches those whose mutex still carries the guard's node and change
    /// flag, writes `update` into them and returns their keys.
    pub open spec fn asks(self, query: MutexQueryView, update: MutexUpdateView) -> bool {
        &&& query.source matches MutexSourceView::Keys(keys)
        &&& keys.no_duplicates()
        &&& keys.to_set() == self.elements
        &&& query.condition == (MutexConditionView::Held {
            node: self.node_id,
            change_flag: self.change_flag,
        })
        &&& query.update == update
        &&& query.returns == MutexReturn::Key
    }

    /// The guard after a keep-alive round trip. `renewed` holds the keys whose
    /// mutex the store renewed, or nothing where the query failed. A failed
    /// query or no renewed key at all ends the keep-alive job and leaves the
    /// keys as they were; otherwise the renewed keys are the new keys.
    pub open spec fn kept_alive(self, renewed: Option<Set<Seq<char>>>) -> DBMutexGuardView {
        if !self.alive_job {
            self
        } else {
            match renewed {
                Some(keys) if !(keys =~= Set::empty()) => DBMutexGuardView {
                    node_id: self.node_id,
                    elements: keys,
                    change_flag: self.change_flag,
                    alive_job: true,
                },
                _ => self.stopped(),
            }
        }
    }
}

impl View for DBMutexGuard {
    type V = DBMutexGuardView;

    closed spec fn view(&self) -> DBMutexGuardView {
        DBMutexGuardView {
            node_id: self.node_id@,
            elements: self.elements@,
            change_flag: self.change_flag@,
            alive_job: self.alive_job,
        }
    }
}

/// The keys of `keys` seen as the sequence and the set that queries speak of.
pub proof fn lemma_key_views(keys: Seq<DBUuid>)
    ensures
        key_views(keys).to_set() == key_set(keys),
        distinct_keys(keys) ==> key_views(keys).no_duplicates(),
{
    let views = key_views(keys);
    assert forall|k: Seq<char>| views.to_set().contains(k) == key_set(keys).contains(k) by {
        if views.to_set().contains(k) {
            let i = choose|i: int| 0 <= i < views.len() && views[i] == k;
            assert(keys[i]@ == k);
        }
        if key_set(keys).contains(k) {
            let i = choose|i: int| 0 <= i < keys.len() && (#[trigger] keys[i])@ == k;
            assert(views[i] == k);
        }
    }
    assert(views.to_set() =~= key_set(keys));
    if distinct_keys(keys) {
        assert forall|i: int, j: int|
            0 <= i < views.len() && 0 <= j < views.len() && i != j implies views[i]
            != views[j] by {
            if i < j {
                assert(keys[i]@ != keys[j]@);
            } else {
                assert(keys[j]@ != keys[i]@);
            }
        }
    }
}

impl DBMutexGuard {
    // CONSTRUCTORS -----------------------------------------------------------

    /// The guard of a claim that holds the single document `key` for
    /// `node_id` under `change_flag`, with its keep-alive job due.
    pub fn new(key: &DBUuid, node_id: &String, change_flag: DBUuid) -> (r: DBMutexGuard)
        ensures
            r@ == (DBMutexGuardView {
                node_id: node_id@,
                elements: Set::<Seq<char>>::empty().insert(key@),
                change_flag: change_flag@,
                alive_job: true,
            }),
    {
        let mut elements = KeySet::new();
        elements.insert(key.clone());
        DBMutexGuard { node_id: node_id.clone(), elements, change_flag, alive_job: true }
    }

    // GETTERS ----------------------------------------------------------------

    /// Whether the guard is locking no document at all.
    pub fn is_empty(&self) -> (r: bool)
        ensures
            r == (self@.elements == Set::<Seq<char>>::empty()),
    {
        self.elements.is_empty()
    }

    /// Whether the keep-alive job of the guard is still due. Once it is not,
    /// the caller cancels the job if it runs.
    pub fn is_alive(&self) -> (r: bool)
        ensures
            r == self@.alive_job,
    {
        self.alive_job
    }

    /// The node that the guard locks for.
    pub fn node_id(&self) -> (r: &String)
        ensures
            r@ == self@.node_id,
    {
        &self.node_id
    }

    /// The change flag that the claim wrote into every document.
    pub fn change_flag(&self) -> (r: &DBUuid)
        ensures
            r@ == self@.change_flag,
    {
        &self.change_flag
    }

    /// The keys that the guard believes locked, each once.
    pub fn keys(&self) -> (r: Vec<DBUuid>)
        ensures
            key_set(r@) == self@.elements,
            distinct_keys(r@),
    {
        self.elements.to_vec()
    }

    // METHODS ----------------------------------------------------------------

    /// Checks whether the guard is locking the document `key`.
    pub fn contains_key(&self, key: &DBUuid) -> (r: bool)
        ensures
            r == self@.elements.contains(key@),
    {
        self.elements.contains(key)
    }

    /// Forgets `keys` without unlocking them in the store. This is for
    /// documents that were removed while locked; a document that still exists
    /// stays locked until its mutex expires.
    pub fn remove_keys(&mut self, keys: &[DBUuid])
        ensures
            final(self)@ == old(self)@.without(key_set(keys@)),
    {
        let n = keys.len();
        let mut i: usize = 0;
        while i < n
            invariant
                n == keys@.len(),
                i <= n,
                self.node_id == old(self).node_id,
                self.change_flag == old(self).change_flag,
                self.alive_job == old(self).alive_job,
                self.elements@ == old(self).elements@.difference(key_set(keys@.take(i as int))),
            decreases n - i,
        {
            self.elements.remove(&keys[i]);
            proof {
                let before = keys@.take(i as int);
                let after = keys@.take(i + 1);
                assert forall|k: Seq<char>| key_set(after).contains(k) == (key_set(
                    before,
                ).contains(k) || k == keys@[i as int]@) by {
                    if key_set(after).contains(k) {
                        let j = choose|j: int| 0 <= j < after.len() && (#[trigger] after[j])@ == k;
                        if j < i {
                            assert(before[j]@ == k);
                        }
                    }
                    if key_set(before).contains(k) {
                        let j = choose|j: int|
                            0 <= j < before.len() && (#[trigger] before[j])@ == k;
                        assert(after[j]@ == k);
                    }
                    if k == keys@[i as int]@ {
                        assert(after[i as int]@ == k);
                    }
                }
                assert(self.elements@ =~= old(self).elements@.difference(key_set(after)));
            }
            i += 1;
        }
        assert(keys@.take(n as int) == keys@);
        // The keep-alive job has nothing left to do for an empty guard.
        if self.elements.is_empty() {
            self.alive_job = false;
        }
    }

    /// Forgets every key without unlocking anything in the store, and ends
    /// the keep-alive job.
    pub fn clear_keys(&mut self)
        ensures
            final(self)@ == old(self)@.without(old(self)@.elements).stopped(),
            final(self)@.elements == Set::<Seq<char>>::empty(),
    {
        self.elements.clear();
        self.alive_job = false;
        assert(self@.elements =~= old(self)@.elements.difference(old(self)@.elements));
    }

    /// Moves those of `keys` that the guard holds into a guard of their own,
    /// which carries the same node and change flag and has its own keep-alive
    /// job. Keys that the guard does not hold are passed over.
    pub fn pop(&mut self, keys: &[DBUuid]) -> (r: Option<DBMutexGuard>)
        ensures
            r matches Some(guard) && guard@ == old(self)@.popped(key_set(keys@)),
            final(self)@ == old(self)@.without(key_set(keys@)),
    {
        let n = keys.len();
        let mut new_elements = KeySet::new();
        let mut i: usize = 0;
        while i < n
            invariant
                n == keys@.len(),
                i <= n,
                self.node_id == old(self).node_id,
                self.change_flag == old(self).change_flag,
                self.alive_job == old(self).alive_job,
                self.elements@ == old(self).elements@.difference(key_set(keys@.take(i as int))),
                new_elements@ == old(self).elements@.intersect(key_set(keys@.take(i as int))),
            decreases n - i,
        {
            if self.elements.remove(&keys[i]) {
                new_elements.insert(keys[i].clone());
            }
            proof {
                let before = keys@.take(i as int);
                let after = keys@.take(i + 1);
                assert forall|k: Seq<char>| key_set(after).contains(k) == (key_set(
                    before,
                ).contains(k) || k == keys@[i as int]@) by {
                    if key_set(after).contains(k) {
                        let j = choose|j: int| 0 <= j < after.len() && (#[trigger] after[j])@ == k;
                        if j < i {
                            assert(before[j]@ == k);
                        }
                    }
                    if key_set(before).contains(k) {
                        let j = choose|j: int|
                            0 <= j < before.len() && (#[trigger] before[j])@ == k;
                        assert(after[j]@ == k);
                    }
                    if k == keys@[i as int]@ {
                        assert(after[i as int]@ == k);
                    }
                }
                assert(self.elements@ =~= old(self).elements@.difference(key_set(after)));
                assert(new_elements@ =~= old(self).elements@.intersect(key_set(after)));
            }
            i += 1;
        }
        assert(keys@.take(n as int) == keys@);
        // The keep-alive job has nothing left to do for an empty guard.
        if self.elements.is_empty() {
            self.alive_job = false;
        }
        Some(
            DBMutexGuard {
                node_id: self.node_id.clone(),
                elements: new_elements,
                change_flag: self.change_flag.clone(),
                alive_job: true,
            },
        )
    }

    /// The query that renews or unlocks the documents of the guard.
    fn query_for(&self, update: MutexUpdate) -> (r: MutexQuery)
        ensures
            self@.asks(r@, update@),
    {
        let keys = self.elements.to_vec();
        proof {
            lemma_key_views(keys@);
        }
        MutexQuery {
            source: MutexSource::Keys(keys),
            condition: MutexCondition::Held {
                node: self.node_id.clone(),
                change_flag: self.change_flag.clone(),
            },
            update,
            returns: MutexReturn::Key,
        }
    }

    /// Releases the guard: ends the keep-alive job and hands back the query
    /// that empties the mutex of every document still held under the guard's
    /// node and change flag. There is no query where the guard was released
    /// before or holds nothing.
    pub fn release(self) -> (r: Option<MutexQuery>)
        ensures
            match r {
                Some(query) => self@.is_active() && self@.asks(query@, MutexUpdateView::Unlock),
                None => !self@.is_active(),
            },
    {
        let mut guard = self;
        guard.release_action()
    }

    /// One keep-alive step, taken every `MUTEX_ALIVE_INTERVAL` seconds: the
    /// query that pushes the expiration of every document still held under the
    /// guard's node and change flag to `MUTEX_EXPIRATION` seconds after `now`.
    /// There is no query, and the job is over, where the guard was released or
    /// holds nothing.
    pub fn alive_action(&self, now: &DBDateTime) -> (r: Option<MutexQuery>)
        requires
            can_expire_after(now@),
        ensures
            match r {
                Some(query) => self@.is_active() && self@.asks(
                    query@,
                    MutexUpdateView::Renew { expiration: now@ + mutex_lifetime_millis() },
                ),
                None => !self@.is_active(),
            },
    {
        if !self.alive_job {
            return None;
        }
        // Avoid doing unnecessary requests.

        if self.elements.is_empty() {
            return None;
        }
        let expiration = now.after_seconds(MUTEX_EXPIRATION);
        Some(self.query_for(MutexUpdate::Renew { expiration }))
    }

    /// Takes in what the store answered to the query of `alive_action`: the
    /// keys it renewed, or nothing where the query failed. Tells whether the
    /// keep-alive job goes on.
    pub fn alive_result(&mut self, renewed: Option<&[DBUuid]>) -> (r: bool)
        ensures
            final(self)@ == old(self)@.kept_alive(
                match renewed {
                    Some(keys) => Some(key_set(keys@)),
                    None => None,
                },
            ),
            r == (old(self)@.alive_job && final(self)@.alive_job),
    {
        if !self.alive_job {
            return false;
        }
        match renewed {
            None => {
                self.alive_job = false;
                false
            },
            Some(keys) => {
                let result = KeySet::from_slice(keys);
                if result.is_empty() {
                    self.alive_job = false;
                    false
                } else {
                    self.elements = result;
                    true
                }
            },
        }
    }

    /// The release itself, which runs at most once for a guard: ends the
    /// keep-alive job and hands back the query that empties the mutex of
    /// every document still held under the guard's node and change flag.
    /// There is no query where the guard was released before or holds nothing.
    pub fn release_action(&mut self) -> (r: Option<MutexQuery>)
        ensures
            final(self)@ == old(self)@.stopped(),
            match r {
                Some(query) => old(self)@.is_active() && old(self)@.asks(
                    query@,
                    MutexUpdateView::Unlock,
                ),
                None => !old(self)@.is_active(),
            },
    {
        if !self.alive_job {
            // The guard has been already released.
            return None;
        }
        // End the keep-alive job.

        self.alive_job = false;

        // Avoid doing unnecessary requests.
        if self.elements.is_empty() {
            return None;
        }
        Some(self.query_for(MutexUpdate::Unlock))
    }

    /// The keys that a release left locked: those that the guard holds and
    /// that are not among the keys `released` that the store reports to have
    /// unlocked. Each of them is an anomaly to report, not an error.
    pub fn release_failures(&self, released: &[DBUuid]) -> (r: Vec<DBUuid>)
        ensures
            key_set(r@) == self@.elements.difference(key_set(released@)),
            distinct_keys(r@),
    {
        let keys = self.elements.to_vec();
        let n = keys.len();
        let mut failures: Vec<DBUuid> = Vec::new();
        let mut i: usize = 0;
        while i < n
            invariant
                n == keys@.len(),
                i <= n,
                distinct_keys(keys@),
                distinct_keys(failures@),
                key_set(failures@) == key_set(keys@.take(i as int)).difference(
                    key_set(released@),
                ),
            decreases n - i,
        {
            let ghost old_failures = failures@;
            if position(released, &keys[i]).is_none() {
                failures.push(keys[i].clone());
            }
            proof {
                let before = keys@.take(i as int);
                let after = keys@.take(i + 1);
                let key = keys@[i as int]@;
                assert forall|k: Seq<char>| key_set(after).contains(k) == (key_set(
                    before,
                ).contains(k) || k == key) by {
                    if key_set(after).contains(k) {
                        let j = choose|j: int| 0 <= j < after.len() && (#[trigger] after[j])@ == k;
                        if j < i {
                            assert(before[j]@ == k);
                        }
                    }
                    if key_set(before).contains(k) {
                        let j = choose|j: int|
                            0 <= j < before.len() && (#[trigger] before[j])@ == k;
                        assert(after[j]@ == k);
                    }
                    if k == key {
                        assert(after[i as int]@ == k);
                    }
                }
                assert(!key_set(before).contains(key)) by {
                    if key_set(before).contains(key) {
                        let j = choose|j: int|
                            0 <= j < before.len() && (#[trigger] before[j])@ == key;
                        assert(keys@[j]@ != keys@[i as int]@);
                    }
                }
                assert forall|k: Seq<char>| key_set(failures@).contains(k) == key_set(
                    after,
                ).difference(key_set(released@)).contains(k) by {
                    if key_set(failures@).contains(k) {
                        let j = choose|j: int|
                            0 <= j < failures@.len() && (#[trigger] failures@[j])@ == k;
                        if j < old_failures.len() {
                            assert(old_failures[j]@ == k);
                            assert(key_set(old_failures).contains(k));
                        }
                    }
                    if key_set(after).difference(key_set(released@)).contains(k) {
                        if k == key {
                            assert(failures@[old_failures.len() as int]@ == k);
                        } else {
                            assert(key_set(old_failures).contains(k));
                            let j = choose|j: int|
                                0 <= j < old_failures.len() && (#[trigger] old_failures[j])@ == k;
                            assert(failures@[j]@ == k);
                        }
                    }
                }
                assert(key_set(failures@) =~= key_set(after).difference(key_set(released@)));
                assert forall|a: int, b: int| 0 <= a < b < failures@.len() implies (
                #[trigger] failures@[a])@ != (#[trigger] failures@[b])@ by {
                    if b == old_failures.len() {
                        assert(old_failures[a]@ == failures@[a]@);
                        assert(key_set(old_failures).contains(failures@[a]@));
                    } else {
                        assert(old_failures[a]@ != old_failures[b]@);
                    }
                }
            }
            i += 1;
        }
        assert(keys@.take(n as int) == keys@);
        failures
    }

    /// The query that empties every mutex that `node_id` holds in the
    /// collection, whatever its change flag: the sweep that follows the crash
    /// of a node.
    pub fn release_all_mutexes(node_id: &str) -> (r: MutexQuery)
        ensures
            r@ == (MutexQueryView {
                source: MutexSourceView::Collection { filter: None, sort: None, limits: None },
                condition: MutexConditionView::HeldByNode { node: node_id@ },
                update: MutexUpdateView::Unlock,
                returns: MutexReturn::Nothing,
            }),
    {
        MutexQuery {
            source: MutexSource::Collection { filter: None, sort: None, limits: None },
            condition: MutexCondition::HeldByNode { node: node_id.to_owned() },
            update: MutexUpdate::Unlock,
            returns: MutexReturn::Nothing,
        }
    }
}

} // verus!
