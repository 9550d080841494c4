use crate::aql::{AqlLimit, AqlSort};
use crate::constants::{
    MUTEX_ACQUIRE_MAX_INTERVAL, MUTEX_ACQUIRE_MIN_INTERVAL, MUTEX_EXPIRATION,
};
use crate::traits::document::{key_view, DBDocument};
use crate::traits::document_synchronized::DBSynchronizedDocument;
use crate::types::dates::datetime::{is_timestamp_millis, MAX_SPAN_SECONDS, MILLIS_PER_SECOND};
use crate::types::dates::DBDateTime;
use crate::types::mutex::{DBMutex, DBMutexView};
use crate::types::nullable_option::NullableOption;
use crate::types::uuid::DBUuid;
use crate::utilities::db_mutex::errors::DBMutexError;
use crate::utilities::db_mutex::key_set::KeySet;
use crate::utilities::db_mutex::query::{
    key_views, sort_views, MutexCondition, MutexConditionView, MutexQuery, MutexQueryView,
    MutexReturn, MutexSource, MutexSourceView, MutexUpdate, MutexUpdateView,
};
use crate::utilities::db_mutex::{
    can_expire_after, mutex_lifetime_millis, DBMutexGuard, DBMutexGuardView,
};
use rand::Rng;
use vstd::prelude::*;

verus! {

/// The mutex that a claim made at `now` by `node` under `change_flag` writes.
pub open spec fn claimed_mutex(node: Seq<char>, now: int, change_flag: Seq<char>) -> DBMutexView {
    DBMutexView { node, change_flag, expiration: now + mutex_lifetime_millis() }
}

/// The query that claims, for `node` and under `change_flag`, every document
/// of `source` whose mutex is absent, emptied or expired at `now`, and that
/// returns the documents it claimed as they are afterwards.
pub open spec fn claim_query(
    source: MutexSourceView,
    node: Seq<char>,
    now: int,
    change_flag: Seq<char>,
) -> MutexQueryView {
    MutexQueryView {
        source,
        condition: MutexConditionView::Expired { now },
        update: MutexUpdateView::Lock(claimed_mutex(node, now, change_flag)),
        returns: MutexReturn::Updated,
    }
}

/// The documents among `results`, in order, without the empty places.
pub open spec fn present<T>(results: Seq<Option<T>>) -> Seq<T>
    decreases results.len(),
{
    if results.len() == 0 {
        Seq::empty()
    } else {
        let rest = present(results.drop_last());
        match results.last() {
            Some(document) => rest.push(document),
            None => rest,
        }
    }
}

/// The keys of the documents of `pool` that have one.
pub open spec fn document_keys<T: DBDocument>(pool: Seq<T>) -> Set<Seq<char>> {
    Set::new(
        |k: Seq<char>| exists|j: int| 0 <= j < pool.len() && key_view(#[trigger] pool[j]) == Some(k),
    )
}

/// Whether `pool[j]` is the first document of `pool` stored under `key`.
pub open spec fn is_first_with_key<T: DBDocument>(pool: Seq<T>, key: Seq<char>, j: int) -> bool {
    &&& 0 <= j < pool.len()
    &&& key_view(pool[j]) == Some(key)
    &&& forall|i: int| 0 <= i < j ==> key_view(#[trigger] pool[i]) != Some(key)
}

/// The place of the first document of `pool` stored under `key`, or the
/// length of `pool` where there is none.
pub open spec fn first_with_key<T: DBDocument>(pool: Seq<T>, key: Seq<char>) -> int {
    if exists|j: int| is_first_with_key(pool, key, j) {
        choose|j: int| is_first_with_key(pool, key, j)
    } else {
        pool.len() as int
    }
}

/// The documents of `pool` laid out along `keys`: each key, from the first
/// on, takes the first document stored under it that no earlier key took, and
/// stays empty where there is none.
pub open spec fn aligned<T: DBDocument>(keys: Seq<Seq<char>>, pool: Seq<T>) -> Seq<Option<T>>
    decreases keys.len(),
{
    if keys.len() == 0 {
        Seq::empty()
    } else {
        let j = first_with_key(pool, keys[0]);
        if j < pool.len() {
            seq![Some(pool[j])] + aligned(keys.drop_first(), pool.remove(j))
        } else {
            seq![None] + aligned(keys.drop_first(), pool)
        }
    }
}

/// `first_with_key` finds the first document stored under the key, and only that.
pub proof fn lemma_first_with_key<T: DBDocument>(pool: Seq<T>, key: Seq<char>)
    ensures
        0 <= first_with_key(pool, key) <= pool.len(),
        first_with_key(pool, key) < pool.len() ==> is_first_with_key(
            pool,
            key,
            first_with_key(pool, key),
        ),
        first_with_key(pool, key) == pool.len() ==> forall|i: int|
            0 <= i < pool.len() ==> key_view(#[trigger] pool[i]) != Some(key),
        forall|j: int| is_first_with_key(pool, key, j) ==> first_with_key(pool, key) == j,
{
    if exists|j: int| is_first_with_key(pool, key, j) {
        let c = choose|j: int| is_first_with_key(pool, key, j);
        assert forall|j: int| is_first_with_key(pool, key, j) implies c == j by {
            if j < c {
                assert(key_view(pool[j]) != Some(key));
            }
            if c < j {
                assert(key_view(pool[c]) != Some(key));
            }
        }
    } else {
        assert forall|i: int| 0 <= i < pool.len() implies key_view(#[trigger] pool[i]) != Some(
            key,
        ) by {
            if key_view(pool[i]) == Some(key) {
                lemma_some_first(pool, key, i);
            }
        }
    }
}

/// Where some document up to place `i` is stored under `key`, one of them is the first.
proof fn lemma_some_first<T: DBDocument>(pool: Seq<T>, key: Seq<char>, i: int)
    requires
        0 <= i < pool.len(),
        key_view(pool[i]) == Some(key),
    ensures
        exists|j: int| is_first_with_key(pool, key, j),
    decreases i,
{
    if exists|h: int| 0 <= h < i && key_view(#[trigger] pool[h]) == Some(key) {
        let h = choose|h: int| 0 <= h < i && key_view(#[trigger] pool[h]) == Some(key);
        lemma_some_first(pool, key, h);
    } else {
        assert(is_first_with_key(pool, key, i));
    }
}

/// What `aligned` promises of every place: the layout is as long as the keys,
/// a document stands only under its own key, and it comes from the pool.
pub proof fn lemma_aligned<T: DBDocument>(keys: Seq<Seq<char>>, pool: Seq<T>)
    ensures
        aligned(keys, pool).len() == keys.len(),
        forall|i: int|
            0 <= i < keys.len() ==> match #[trigger] aligned(keys, pool)[i] {
                Some(document) => key_view(document) == Some(keys[i]) && pool.contains(document),
                None => true,
            },
    decreases keys.len(),
{
    if keys.len() > 0 {
        let j = first_with_key(pool, keys[0]);
        lemma_first_with_key(pool, keys[0]);
        let rest_pool = if j < pool.len() {
            pool.remove(j)
        } else {
            pool
        };
        let rest = aligned(keys.drop_first(), rest_pool);
        lemma_aligned(keys.drop_first(), rest_pool);
        assert forall|i: int| 0 <= i < keys.len() implies match #[trigger] aligned(keys, pool)[i] {
            Some(document) => key_view(document) == Some(keys[i]) && pool.contains(document),
            None => true,
        } by {
            if i > 0 {
                assert(aligned(keys, pool)[i] == rest[i - 1]);
                assert(keys.drop_first()[i - 1] == keys[i]);
                if let Some(document) = rest[i - 1] {
                    assert(rest_pool.contains(document));
                    let h = choose|h: int| 0 <= h < rest_pool.len() && rest_pool[h] == document;
                    if j < pool.len() {
                        assert(pool[if h < j {
                            h
                        } else {
                            h + 1
                        }] == document);
                    }
                }
            } else {
                if j < pool.len() {
                    assert(pool[j] == pool[j]);
                }
            }
        }
    }
}

/// Copies `keys`.
fn clone_keys(keys: &[DBUuid]) -> (r: Vec<DBUuid>)
    ensures
        key_views(r@) == key_views(keys@),
{
    let n = keys.len();
    let mut r: Vec<DBUuid> = Vec::new();
    let mut i: usize = 0;
    while i < n
        invariant
            n == keys@.len(),
            i <= n,
            r@.len() == i,
            forall|j: int| 0 <= j < i ==> (#[trigger] r@[j])@ == keys@[j]@,
        decreases n - i,
    {
        r.push(keys[i].clone());
        i += 1;
    }
    assert(key_views(r@) =~= key_views(keys@));
    r
}

/// The place of the first document of `pool` stored under `key`.
fn find_with_key<T: DBDocument>(pool: &Vec<T>, key: &DBUuid) -> (r: Option<usize>)
    ensures
        match r {
            Some(j) => j == first_with_key(pool@, key@) && j < pool@.len(),
            None => first_with_key(pool@, key@) == pool@.len(),
        },
{
    let n = pool.len();
    let mut j: usize = 0;
    while j < n
        invariant
            n == pool@.len(),
            j <= n,
            forall|i: int| 0 <= i < j ==> key_view(#[trigger] pool@[i]) != Some(key@),
        decreases n - j,
    {
        let found = match pool[j].db_key() {
            Some(k) => *k == *key,
            None => false,
        };
        if found {
            proof {
                assert(is_first_with_key(pool@, key@, j as int));
                lemma_first_with_key(pool@, key@);
            }
            return Some(j);
        }
        j += 1;
    }
    proof {
        lemma_first_with_key(pool@, key@);
        let f = first_with_key(pool@, key@);
        if f < pool@.len() {
            assert(key_view(pool@[f]) != Some(key@));
        }
    }
    None
}

/// The mutex that a claim made at `now` writes.
fn claim(node_id: &String, now: &DBDateTime, change_flag: &DBUuid) -> (r: DBMutex)
    requires
        can_expire_after(now@),
    ensures
        r@ == claimed_mutex(node_id@, now@, change_flag@),
{
    DBMutex {
        node: node_id.clone(),
        change_flag: change_flag.clone(),
        expiration: now.after_seconds(MUTEX_EXPIRATION),
    }
}

impl DBMutexGuard {
    /// The query that locks the documents `keys` for `node_id`: each of them
    /// that exists and whose mutex is absent, emptied or expired at `now` gets
    /// a mutex of `node_id` under `change_flag`, valid for `MUTEX_EXPIRATION`
    /// seconds, and is returned as it is afterwards. There is nothing to ask
    /// for where `keys` is empty.
    pub fn acquire_list_query(
        keys: &[DBUuid],
        node_id: &String,
        now: &DBDateTime,
        change_flag: &DBUuid,
    ) -> (r: Option<MutexQuery>)
        requires
            can_expire_after(now@),
        ensures
            match r {
                Some(query) => keys@.len() > 0 && query@ == claim_query(
                    MutexSourceView::Keys(key_views(keys@)),
                    node_id@,
                    now@,
                    change_flag@,
                ),
                None => keys@.len() == 0,
            },
    {
        // Shortcut for empty sets.
        if keys.len() == 0 {
            return None;
        }
        Some(
            MutexQuery {
                source: MutexSource::Keys(clone_keys(keys)),
                condition: MutexCondition::Expired { now: now.clone() },
                update: MutexUpdate::Lock(claim(node_id, now, change_flag)),
                returns: MutexReturn::Updated,
            },
        )
    }

    /// Takes in what the store answered to the query of `acquire_list_query`
    /// and makes the guard of the claim.
    ///
    /// The guard holds the key of every document that came back. The
    /// documents are laid out along `keys`: each place holds the document
    /// locked under the key of that place, or nothing where that document was
    /// not locked, whether the store left places empty, left them out or sent
    /// the documents in another order. For no keys at all the result is empty
    /// and so is the guard.
    pub fn acquire_list<T: DBDocument>(
        keys: &[DBUuid],
        node_id: &String,
        change_flag: DBUuid,
        results: Vec<Option<T>>,
    ) -> (r: (Vec<Option<T>>, DBMutexGuard))
        ensures
            r.0@ == aligned(key_views(keys@), present(results@)),
            r.0@.len() == keys@.len(),
            forall|i: int|
                0 <= i < keys@.len() ==> match #[trigger] r.0@[i] {
                    Some(document) => key_view(document) == Some(keys@[i]@) && present(
                        results@,
                    ).contains(document),
                    None => true,
                },
            r.1@ == (DBMutexGuardView {
                node_id: node_id@,
                elements: if keys@.len() == 0 {
                    Set::<Seq<char>>::empty()
                } else {
                    document_keys(present(results@))
                },
                change_flag: change_flag@,
                alive_job: true,
            }),
    {
        proof {
            lemma_aligned(key_views(keys@), present(results@));
        }
        let n = keys.len();
        // Shortcut for empty sets.
        if n == 0 {
            let guard = DBMutexGuard {
                node_id: node_id.clone(),
                elements: KeySet::new(),
                change_flag,
                alive_job: true,
            };
            return (Vec::new(), guard);
        }
        let (mut pool, elements) = collect_present(results);

        // Adjust the result list to contain every element in its position.
        let ghost pool0 = pool@;
        let ghost views = key_views(keys@);
        let mut list: Vec<Option<T>> = Vec::new();
        let mut i: usize = 0;
        proof {
            assert(views.skip(0) =~= views);
            assert(list@ + aligned(views, pool0) =~= aligned(views, pool0));
        }
        while i < n
            invariant
                n == keys@.len(),
                i <= n,
                views == key_views(keys@),
                list@.len() == i,
                aligned(views, pool0) == list@ + aligned(views.skip(i as int), pool@),
            decreases n - i,
        {
            let ghost rest = views.skip(i as int);
            let ghost before = pool@;
            proof {
                assert(rest[0] == keys@[i as int]@);
                assert(rest.drop_first() =~= views.skip(i + 1));
            }
            match find_with_key(&pool, &keys[i]) {
                Some(j) => {
                    let document = pool.remove(j);
                    proof {
                        assert(pool@ == before.remove(j as int));
                        assert(aligned(rest, before) == seq![Some(document)] + aligned(
                            views.skip(i + 1),
                            pool@,
                        ));
                        assert(list@.push(Some(document)) + aligned(views.skip(i + 1), pool@)
                            =~= list@ + aligned(rest, before));
                    }
                    list.push(Some(document));
                },
                None => {
                    proof {
                        assert(aligned(rest, before) == seq![None::<T>] + aligned(
                            views.skip(i + 1),
                            pool@,
                        ));
                        assert(list@.push(None::<T>) + aligned(views.skip(i + 1), pool@)
                            =~= list@ + aligned(rest, before));
                    }
                    list.push(None);
                },
            }
            i += 1;
        }
        proof {
            assert(views.skip(n as int).len() == 0);
            assert(list@ + aligned(views.skip(n as int), pool@) =~= list@);
        }
        let guard = DBMutexGuard { node_id: node_id.clone(), elements, change_flag, alive_job: true };
        (list, guard)
    }
}

/// Gathers the documents among `results`, in order, and the keys they have.
fn collect_present<T: DBDocument>(results: Vec<Option<T>>) -> (r: (Vec<T>, KeySet))
    ensures
        r.0@ == present(results@),
        r.1@ == document_keys(present(results@)),
{
    let ghost all = results@;
    let mut results = results;
    // Turn the list over, so that its first place is taken out first.
    let mut stack: Vec<Option<T>> = Vec::new();
    while results.len() > 0
        invariant
            results@.len() + stack@.len() == all.len(),
            results@ == all.take(results@.len() as int),
            forall|j: int| 0 <= j < stack@.len() ==> stack@[j] == all[all.len() - 1 - j],
        decreases results@.len(),
    {
        match results.pop() {
            Some(place) => {
                stack.push(place);
                assert(results@ =~= all.take(results@.len() as int));
            },
            None => {},
        }
    }
    let mut pool: Vec<T> = Vec::new();
    let mut elements = KeySet::new();
    proof {
        assert(all.take(0).len() == 0);
        assert(document_keys(pool@) =~= Set::<Seq<char>>::empty());
    }
    while stack.len() > 0
        invariant
            stack@.len() <= all.len(),
            forall|j: int| 0 <= j < stack@.len() ==> stack@[j] == all[all.len() - 1 - j],
            pool@ == present(all.take(all.len() - stack@.len())),
            elements@ == document_keys(pool@),
        decreases stack@.len(),
    {
        let ghost done = all.len() - stack@.len();
        let ghost old_pool = pool@;
        proof {
            assert(all.take(done + 1).drop_last() =~= all.take(done));
            assert(all.take(done + 1).last() == all[done]);
        }
        match stack.pop() {
            Some(Some(document)) => {
                match document.db_key() {
                    Some(key) => {
                        elements.insert(key.clone());
                    },
                    None => {},
                }
                pool.push(document);
                proof {
                    assert(pool@ == old_pool.push(document));
                    assert forall|k: Seq<char>| document_keys(pool@).contains(k) == (
                    document_keys(old_pool).contains(k) || key_view(document) == Some(k)) by {
                        if document_keys(pool@).contains(k) {
                            let j = choose|j: int|
                                0 <= j < pool@.len() && key_view(#[trigger] pool@[j]) == Some(k);
                            if j < old_pool.len() {
                                assert(key_view(old_pool[j]) == Some(k));
                            }
                        }
                        if document_keys(old_pool).contains(k) {
                            let j = choose|j: int|
                                0 <= j < old_pool.len() && key_view(#[trigger] old_pool[j])
                                    == Some(k);
                            assert(key_view(pool@[j]) == Some(k));
                        }
                        if key_view(document) == Some(k) {
                            assert(key_view(pool@[old_pool.len() as int]) == Some(k));
                        }
                    }
                    assert(elements@ =~= document_keys(pool@));
                }
            },
            Some(None) => {},
            None => {},
        }
    }
    proof {
        assert(all.take(all.len() as int) =~= all);
    }
    (pool, elements)
}

impl DBMutexGuard {
    /// The query that locks documents picked by the store rather than by key:
    /// of the documents of the collection that pass `filter`, ordered by
    /// `sort` and cut down to `limits`, each one whose mutex is absent,
    /// emptied or expired at `now` gets a mutex of `node_id` under
    /// `change_flag`, valid for `MUTEX_EXPIRATION` seconds, and is returned as
    /// it is afterwards.
    pub fn acquire_aql_query(
        filter: Option<&str>,
        sort: Option<Vec<AqlSort>>,
        limits: Option<AqlLimit>,
        node_id: &String,
        now: &DBDateTime,
        change_flag: &DBUuid,
    ) -> (r: MutexQuery)
        requires
            can_expire_after(now@),
        ensures
            r@ == claim_query(
                MutexSourceView::Collection {
                    filter: match filter {
                        Some(f) => Some(f@),
                        None => None,
                    },
                    sort: match sort {
                        Some(s) => Some(sort_views(s@)),
                        None => None,
                    },
                    limits,
                },
                node_id@,
                now@,
                change_flag@,
            ),
    {
        let filter = match filter {
            Some(f) => Some(f.to_owned()),
            None => None,
        };
        MutexQuery {
            source: MutexSource::Collection { filter, sort, limits },
            condition: MutexCondition::Expired { now: now.clone() },
            update: MutexUpdate::Lock(claim(node_id, now, change_flag)),
            returns: MutexReturn::Updated,
        }
    }

    /// Takes in the documents that the store locked for the query of
    /// `acquire_aql_query` and makes the guard of the claim, which holds the
    /// key of each of them. The documents are handed back as they came.
    pub fn acquire_aql<T: DBDocument>(
        node_id: &String,
        change_flag: DBUuid,
        results: Vec<T>,
    ) -> (r: (Vec<T>, DBMutexGuard))
        requires
            forall|i: int| 0 <= i < results@.len() ==> (#[trigger] results@[i]).key() is Some,
        ensures
            r.0@ == results@,
            r.1@ == (DBMutexGuardView {
                node_id: node_id@,
                elements: document_keys(results@),
                change_flag: change_flag@,
                alive_job: true,
            }),
    {
        let n = results.len();
        let mut elements = KeySet::new();
        let mut i: usize = 0;
        proof {
            assert(document_keys(results@.take(0)) =~= Set::<Seq<char>>::empty());
        }
        while i < n
            invariant
                n == results@.len(),
                i <= n,
                forall|i: int| 0 <= i < results@.len() ==> (#[trigger] results@[i]).key() is Some,
                elements@ == document_keys(results@.take(i as int)),
            decreases n - i,
        {
            match results[i].db_key() {
                Some(key) => {
                    elements.insert(key.clone());
                },
                None => {},
            }
            proof {
                let before = results@.take(i as int);
                let after = results@.take(i + 1);
                let document = results@[i as int];
                assert forall|k: Seq<char>| document_keys(after).contains(k) == (document_keys(
                    before,
                ).contains(k) || key_view(document) == Some(k)) by {
                    if document_keys(after).contains(k) {
                        let j = choose|j: int|
                            0 <= j < after.len() && key_view(#[trigger] after[j]) == Some(k);
                        if j < i {
                            assert(key_view(before[j]) == Some(k));
                        }
                    }
                    if document_keys(before).contains(k) {
                        let j = choose|j: int|
                            0 <= j < before.len() && key_view(#[trigger] before[j]) == Some(k);
                        assert(key_view(after[j]) == Some(k));
                    }
                    if key_view(document) == Some(k) {
                        assert(key_view(after[i as int]) == Some(k));
                    }
                }
                assert(elements@ =~= document_keys(after));
            }
            i += 1;
        }
        assert(results@.take(n as int) =~= results@);
        let guard = DBMutexGuard { node_id: node_id.clone(), elements, change_flag, alive_job: true };
        (results, guard)
    }
}

/// Draws the pause before the next attempt with `rand::Rng::gen_range` on
/// `rand::thread_rng()`. The draw cannot be predicted; rand promises a value
/// of the half-open range, and rejects an empty range.
#[verifier::external_body]
fn rand_gen_range(low: u64, high: u64) -> (r: u64)
    requires
        low < high,
    ensures
        low <= r < high,
{
    rand::thread_rng().gen_range(low..high)
}

/// Where the attempts to lock one document stand.
#[derive(Debug)]
pub struct DocumentAcquisition {
    time_out: Option<DBDateTime>,
    checked_doc_exists: bool,
}

/// A `DocumentAcquisition` as mathematical values.
pub struct DocumentAcquisitionView {
    /// The instant from which on no further attempt is made, if there is one.
    pub time_out: Option<int>,
    /// Whether the store has confirmed that the document exists.
    pub checked_doc_exists: bool,
}

impl View for DocumentAcquisition {
    type V = DocumentAcquisitionView;

    closed spec fn view(&self) -> DocumentAcquisitionView {
        DocumentAcquisitionView {
            time_out: match self.time_out {
                Some(t) => Some(t@),
                None => None,
            },
            checked_doc_exists: self.checked_doc_exists,
        }
    }
}

impl DocumentAcquisitionView {
    /// Whether the deadline, if there is one, has come at `now`.
    pub open spec fn is_timed_out(self, now: int) -> bool {
        match self.time_out {
            Some(t) => t <= now,
            None => false,
        }
    }
}

/// What happened since the last step of an acquisition of a document of
/// type `T` under a guard of type `G`.
pub enum AcquireEvent<T, G> {
    /// A round begins: the acquisition starts, or a pause is over.
    Round,
    /// The store answered the claim of the document: the list that
    /// `acquire_list` made of the answer, and the guard of the claim.
    Claimed(Vec<Option<T>>, G),
    /// The store told whether the document exists.
    Exists(bool),
}

/// What the caller does next for an acquisition.
pub enum AcquireAction<T, G> {
    /// Claim the document: run the query of `acquire_list_query` for its key
    /// and come back with `AcquireEvent::Claimed`.
    Claim,
    /// Ask the store whether the document exists and come back with
    /// `AcquireEvent::Exists`.
    CheckExists,
    /// Pause for this many milliseconds and come back with `AcquireEvent::Round`.
    Sleep(u64),
    /// The acquisition is over: the locked document with its guard, or the
    /// reason why there is none.
    Done(Result<(T, G), DBMutexError>),
}

/// Whether `pause` is a pause that may stand between two attempts.
pub open spec fn is_acquire_pause(pause: u64) -> bool {
    MUTEX_ACQUIRE_MIN_INTERVAL <= pause < MUTEX_ACQUIRE_MAX_INTERVAL
}

/// Whether an acquisition in the state `state` answers `event`, which comes
/// in at `now`, with `action` and goes on in the state `next`.
pub open spec fn acquire_document_step<T, G>(
    state: DocumentAcquisitionView,
    event: AcquireEvent<T, G>,
    now: int,
    next: DocumentAcquisitionView,
    action: AcquireAction<T, G>,
) -> bool {
    match event {
        AcquireEvent::Round => {
            &&& next == state
            &&& if state.is_timed_out(now) {
                action == AcquireAction::<T, G>::Done(Err(DBMutexError::Timeout))
            } else {
                action is Claim
            }
        },
        AcquireEvent::Claimed(list, mutex) => {
            &&& next == state
            &&& match list@.last() {
                Some(document) => action == AcquireAction::Done(Ok((document, mutex))),
                None => if state.checked_doc_exists {
                    action matches AcquireAction::Sleep(pause) && is_acquire_pause(pause)
                } else {
                    action is CheckExists
                },
            }
        },
        AcquireEvent::Exists(exists_in_db) => if exists_in_db {
            &&& next == (DocumentAcquisitionView {
                time_out: state.time_out,
                checked_doc_exists: true,
            })
            &&& action matches AcquireAction::Sleep(pause) && is_acquire_pause(pause)
        } else {
            &&& next == state
            &&& action == AcquireAction::<T, G>::Done(Err(DBMutexError::NotFound))
        },
    }
}

/// The state in which an acquisition starts at `now` with the given timeout
/// in seconds.
pub open spec fn acquisition_start(timeout: Option<u64>, now: int) -> DocumentAcquisitionView {
    DocumentAcquisitionView {
        time_out: match timeout {
            Some(seconds) => Some(now + seconds * MILLIS_PER_SECOND),
            None => None,
        },
        checked_doc_exists: false,
    }
}

impl DocumentAcquisition {
    /// The acquisition that starts at `now` and gives up `timeout` seconds
    /// later, or never where there is no timeout.
    pub fn new(timeout: Option<u64>, now: &DBDateTime) -> (r: DocumentAcquisition)
        requires
            timeout matches Some(seconds) ==> seconds <= MAX_SPAN_SECONDS && is_timestamp_millis(
                now@ + seconds * MILLIS_PER_SECOND,
            ),
        ensures
            r@ == acquisition_start(timeout, now@),
    {
        let time_out = match timeout {
            Some(seconds) => Some(now.after_seconds(seconds)),
            None => None,
        };
        DocumentAcquisition { time_out, checked_doc_exists: false }
    }

    /// The pause before the next attempt.
    fn retry<T, G>() -> (r: AcquireAction<T, G>)
        ensures
            r matches AcquireAction::Sleep(pause) && is_acquire_pause(pause),
    {
        AcquireAction::Sleep(rand_gen_range(MUTEX_ACQUIRE_MIN_INTERVAL, MUTEX_ACQUIRE_MAX_INTERVAL))
    }
}

impl DBMutexGuard {
    /// One step of locking a single document, optionally with a timeout.
    ///
    /// Each round first checks the deadline and ends with `Timeout` once it
    /// has come; otherwise it claims the document. A claim that locked the
    /// document ends the acquisition with the document and its guard. After
    /// the first claim that did not, the store is asked whether the document
    /// exists at all, and the acquisition ends with `NotFound` at once if it
    /// does not, whatever the timeout. In every other case the next round
    /// follows a pause of at least `MUTEX_ACQUIRE_MIN_INTERVAL` and less than
    /// `MUTEX_ACQUIRE_MAX_INTERVAL` milliseconds.
    pub fn acquire_document<T, G>(
        state: &mut DocumentAcquisition,
        event: AcquireEvent<T, G>,
        now: &DBDateTime,
    ) -> (r: AcquireAction<T, G>)
        requires
            event matches AcquireEvent::Claimed(list, _) ==> list@.len() > 0,
        ensures
            acquire_document_step(old(state)@, event, now@, final(state)@, r),
    {
        match event {
            AcquireEvent::Round => {
                // Check timeout.
                let timed_out = match &state.time_out {
                    Some(t) => t.is_expired_at(now),
                    None => false,
                };
                if timed_out {
                    AcquireAction::Done(Err(DBMutexError::Timeout))
                } else {
                    AcquireAction::Claim
                }
            },
            AcquireEvent::Claimed(list, mutex) => {
                let mut list = list;
                let value = list.pop().unwrap();
                match value {
                    Some(v) => AcquireAction::Done(Ok((v, mutex))),
                    None => {
                        if !state.checked_doc_exists {
                            // Check the document exists and exit if not.
                            // This prevents waiting until timeout when the document
                            // is not present in the store.
                            AcquireAction::CheckExists
                        } else {
                            // Sleep for a while to retry later.
                            DocumentAcquisition::retry()
                        }
                    },
                }
            },
            AcquireEvent::Exists(exists_in_db) => {
                if !exists_in_db {
                    AcquireAction::Done(Err(DBMutexError::NotFound))
                } else {
                    state.checked_doc_exists = true;
                    // Sleep for a while to retry later.
                    DocumentAcquisition::retry()
                }
            },
        }
    }
}

/// How locking a document that may not exist yet went on.
pub enum AcquireOrCreate<T, G> {
    /// The document existed and is locked now.
    Acquired(T, G),
    /// The document does not exist: this one, which carries the mutex of the
    /// claim, is to be inserted without overwriting. The guard of the claim
    /// is `DBMutexGuard::new` of the key under which the store put it.
    Create(T),
}

impl DBMutexGuard {
    /// Decides how to go on once `acquire_document` is over for a document
    /// that is to be created where it does not exist.
    ///
    /// A locked document is handed on. For `NotFound`, `default` makes the
    /// document, which gets a mutex of `node_id` under `change_flag`, valid
    /// for `MUTEX_EXPIRATION` seconds from `now`. Every other error is handed
    /// on unchanged.
    pub fn acquire_or_create_document<'a, T: DBSynchronizedDocument<'a>, G, F: FnOnce() -> T>(
        acquired: Result<(T, G), DBMutexError>,
        node_id: &String,
        now: &DBDateTime,
        change_flag: &DBUuid,
        default: F,
    ) -> (r: Result<AcquireOrCreate<T, G>, DBMutexError>)
        requires
            can_expire_after(now@),
            default.requires(()),
        ensures
            match acquired {
                Ok((document, mutex)) => r == Ok::<AcquireOrCreate<T, G>, DBMutexError>(
                    AcquireOrCreate::Acquired(document, mutex),
                ),
                Err(DBMutexError::NotFound) => {
                    &&& r matches Ok(AcquireOrCreate::Create(document))
                    &&& document.mutex()@ == NullableOption::Value(
                        claimed_mutex(node_id@, now@, change_flag@),
                    )
                    &&& exists|made: T| #[trigger]
                        default.ensures((), made) && document.key() == made.key()
                },
                Err(e) => r == Err::<AcquireOrCreate<T, G>, DBMutexError>(e),
            },
    {
        match acquired {
            Ok((document, mutex)) => Ok(AcquireOrCreate::Acquired(document, mutex)),
            Err(e) => match e {
                DBMutexError::NotFound => {
                    // Persist document with mutex.
                    let mut document = default();
                    let ghost made = document;
                    document.set_mutex(NullableOption::Value(claim(node_id, now, change_flag)));
                    assert(default.ensures((), made) && document.key() == made.key());
                    Ok(AcquireOrCreate::Create(document))
                },
                DBMutexError::Timeout => Err(DBMutexError::Timeout),
                DBMutexError::Other(e) => Err(DBMutexError::Other(e)),
            },
        }
    }
}

} // verus!
