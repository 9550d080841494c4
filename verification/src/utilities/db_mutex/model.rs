//! What the store is expected to do with the queries of a guard, and what
//! follows from it for the nodes that share the store.

use crate::traits::document::{key_view, DBDocument};
use crate::types::dates::datetime::MILLIS_PER_SECOND;
use crate::types::mutex::DBMutexView;
use crate::types::nullable_option::NullableOption;
use crate::utilities::db_mutex::acquire::{
    acquire_document_step, acquisition_start, aligned, claim_query, claimed_mutex,
    document_keys, first_with_key, is_acquire_pause, is_first_with_key, lemma_aligned,
    lemma_first_with_key, AcquireAction, AcquireEvent, DocumentAcquisitionView,
};
use crate::utilities::db_mutex::errors::DBMutexError;
use crate::utilities::db_mutex::query::{
    MutexConditionView, MutexQueryView, MutexSourceView, MutexUpdateView,
};
use crate::utilities::db_mutex::{mutex_lifetime_millis, DBMutexGuardView};
use vstd::prelude::*;

verus! {

/// What a query over keys leaves behind.
pub struct MutexOutcome {
    /// The mutex field of every document of the collection, by key.
    pub fields: Map<Seq<char>, NullableOption<DBMutexView>>,
    /// The keys of the documents that the query touched, in the order in
    /// which it visited them: what the store returns, as keys.
    pub touched: Seq<Seq<char>>,
}

impl MutexQueryView {
    /// Runs the query over `keys`, one after the other, in a collection whose
    /// documents have the mutex fields `fields`. A key without a document is
    /// passed over, and so is a document that does not meet the condition;
    /// every other document is updated on the spot and reported.
    pub open spec fn run_on_keys(
        self,
        fields: Map<Seq<char>, NullableOption<DBMutexView>>,
        keys: Seq<Seq<char>>,
    ) -> MutexOutcome
        decreases keys.len(),
    {
        if keys.len() == 0 {
            MutexOutcome { fields, touched: Seq::empty() }
        } else {
            let key = keys[0];
            if fields.dom().contains(key) && self.condition.holds(fields[key]) {
                let rest = self.run_on_keys(
                    fields.insert(key, self.update.apply(fields[key])),
                    keys.drop_first(),
                );
                MutexOutcome { fields: rest.fields, touched: seq![key] + rest.touched }
            } else {
                self.run_on_keys(fields, keys.drop_first())
            }
        }
    }
}

/// Whether a claim at `now` can take the document stored under `key`: the
/// document exists and its mutex is absent, emptied or expired.
pub open spec fn is_free(
    fields: Map<Seq<char>, NullableOption<DBMutexView>>,
    key: Seq<char>,
    now: int,
) -> bool {
    fields.dom().contains(key) && (MutexConditionView::Expired { now }).holds(fields[key])
}

/// Whether a claim of `keys` at `now` locks the document at place `i`: the
/// document is free and no earlier place names it.
pub open spec fn is_claimed_at(
    fields: Map<Seq<char>, NullableOption<DBMutexView>>,
    keys: Seq<Seq<char>>,
    i: int,
    now: int,
) -> bool {
    &&& is_free(fields, keys[i], now)
    &&& forall|h: int| 0 <= h < i ==> #[trigger] keys[h] != keys[i]
}

/// Whether `pool` holds exactly the documents that the store reports for
/// `touched`: one document for each key, in the same order.
pub open spec fn reports<T: DBDocument>(pool: Seq<T>, touched: Seq<Seq<char>>) -> bool {
    &&& pool.len() == touched.len()
    &&& forall|j: int| 0 <= j < pool.len() ==> key_view(#[trigger] pool[j]) == Some(touched[j])
}

/// A claim touches free documents only, and changes nothing but the mutex of
/// the documents it touches, which becomes the mutex of the claim.
pub proof fn lemma_claim_outcome(
    fields: Map<Seq<char>, NullableOption<DBMutexView>>,
    keys: Seq<Seq<char>>,
    node: Seq<char>,
    now: int,
    change_flag: Seq<char>,
)
    ensures
        ({
            let query = claim_query(MutexSourceView::Keys(keys), node, now, change_flag);
            let outcome = query.run_on_keys(fields, keys);
            &&& outcome.fields.dom() == fields.dom()
            &&& forall|j: int|
                0 <= j < outcome.touched.len() ==> is_free(fields, #[trigger] outcome.touched[j], now)
                    && keys.contains(outcome.touched[j])
            &&& forall|k: Seq<char>| #[trigger]
                fields.dom().contains(k) ==> outcome.fields[k] == if outcome.touched.contains(k) {
                    NullableOption::Value(claimed_mutex(node, now, change_flag))
                } else {
                    fields[k]
                }
        }),
    decreases keys.len(),
{
    let query = claim_query(MutexSourceView::Keys(keys), node, now, change_flag);
    let outcome = query.run_on_keys(fields, keys);
    if keys.len() > 0 {
        let key = keys[0];
        let rest_keys = keys.drop_first();
        let rest_query = claim_query(MutexSourceView::Keys(rest_keys), node, now, change_flag);
        assert(rest_query.condition == query.condition && rest_query.update == query.update);
        if is_free(fields, key, now) {
            let claimed = NullableOption::Value(claimed_mutex(node, now, change_flag));
            let next = fields.insert(key, claimed);
            lemma_claim_outcome(next, rest_keys, node, now, change_flag);
            let rest = rest_query.run_on_keys(next, rest_keys);
            assert(rest == query.run_on_keys(next, rest_keys)) by {
                lemma_run_ignores_source(rest_query, query, next, rest_keys);
            }
            assert(outcome.touched == seq![key] + rest.touched);
            assert(next.dom() =~= fields.dom());
            assert(!is_free(next, key, now));
            assert forall|j: int| 0 <= j < outcome.touched.len() implies is_free(
                fields,
                #[trigger] outcome.touched[j],
                now,
            ) && keys.contains(outcome.touched[j]) by {
                if j > 0 {
                    assert(outcome.touched[j] == rest.touched[j - 1]);
                    assert(is_free(next, rest.touched[j - 1], now));
                    lemma_rest_key(keys, rest.touched[j - 1]);
                } else {
                    assert(keys[0] == outcome.touched[0]);
                }
            }
            assert forall|k: Seq<char>| #[trigger] fields.dom().contains(k) implies outcome.fields[k]
                == if outcome.touched.contains(k) {
                claimed
            } else {
                fields[k]
            } by {
                assert(next.dom().contains(k));
                if k == key {
                    assert(outcome.touched[0] == key);
                }
                if rest.touched.contains(k) {
                    let j = choose|j: int| 0 <= j < rest.touched.len() && rest.touched[j] == k;
                    assert(outcome.touched[j + 1] == k);
                }
                if outcome.touched.contains(k) && k != key {
                    let j = choose|j: int|
                        0 <= j < outcome.touched.len() && outcome.touched[j] == k;
                    assert(rest.touched[j - 1] == k);
                }
            }
        } else {
            lemma_claim_outcome(fields, rest_keys, node, now, change_flag);
            lemma_run_ignores_source(rest_query, query, fields, rest_keys);
            assert forall|j: int| 0 <= j < outcome.touched.len() implies keys.contains(
                #[trigger] outcome.touched[j],
            ) by {
                lemma_rest_key(keys, outcome.touched[j]);
            }
        }
    } else {
        assert(outcome.fields.dom() =~= fields.dom());
    }
}

/// A key that occurs after the first place of `keys` occurs in `keys`.
proof fn lemma_rest_key(keys: Seq<Seq<char>>, key: Seq<char>)
    requires
        keys.len() > 0,
        keys.drop_first().contains(key),
    ensures
        keys.contains(key),
{
    let rest = keys.drop_first();
    let j = choose|j: int| 0 <= j < rest.len() && rest[j] == key;
    assert(keys[j + 1] == key);
}

/// Over given keys, two queries with the same condition and update do the same.
pub proof fn lemma_run_ignores_source(
    a: MutexQueryView,
    b: MutexQueryView,
    fields: Map<Seq<char>, NullableOption<DBMutexView>>,
    keys: Seq<Seq<char>>,
)
    requires
        a.condition == b.condition,
        a.update == b.update,
    ensures
        a.run_on_keys(fields, keys) == b.run_on_keys(fields, keys),
    decreases keys.len(),
{
    if keys.len() > 0 {
        let key = keys[0];
        if fields.dom().contains(key) && a.condition.holds(fields[key]) {
            lemma_run_ignores_source(
                a,
                b,
                fields.insert(key, a.update.apply(fields[key])),
                keys.drop_first(),
            );
        } else {
            lemma_run_ignores_source(a, b, fields, keys.drop_first());
        }
    }
}

/// A node that claims a document nobody holds gets it: the store reports the
/// document, its mutex then names the node and expires after `now`, and
/// `acquire_list` hands the reported document back in the only place of its
/// list and puts its key under the guard.
pub proof fn theorem_free_document_is_locked<T: DBDocument>(
    fields: Map<Seq<char>, NullableOption<DBMutexView>>,
    key: Seq<char>,
    node: Seq<char>,
    now: int,
    change_flag: Seq<char>,
    pool: Seq<T>,
)
    requires
        is_free(fields, key, now),
        reports(
            pool,
            claim_query(MutexSourceView::Keys(seq![key]), node, now, change_flag).run_on_keys(
                fields,
                seq![key],
            ).touched,
        ),
    ensures
        pool.len() == 1,
        aligned(seq![key], pool) == seq![Some(pool[0])],
        document_keys(pool) == Set::<Seq<char>>::empty().insert(key),
        ({
            let query = claim_query(MutexSourceView::Keys(seq![key]), node, now, change_flag);
            let outcome = query.run_on_keys(fields, seq![key]);
            &&& outcome.touched == seq![key]
            &&& outcome.fields == fields.insert(
                key,
                NullableOption::Value(claimed_mutex(node, now, change_flag)),
            )
            &&& outcome.fields[key] matches NullableOption::Value(mutex)
            &&& mutex.node == node
            &&& mutex.change_flag == change_flag
            &&& mutex.expiration > now
        }),
{
    let keys = seq![key];
    let query = claim_query(MutexSourceView::Keys(keys), node, now, change_flag);
    let next = fields.insert(key, query.update.apply(fields[key]));
    assert(keys.drop_first().len() == 0);
    assert(query.run_on_keys(next, keys.drop_first()).touched =~= Seq::empty());
    assert(query.run_on_keys(fields, keys).touched =~= seq![key]);
    theorem_acquire_list_answers_in_place(fields, keys, node, now, change_flag, pool);
    let list = aligned(keys, pool);
    assert(list[0] is Some) by {
        assert(is_claimed_at(fields, keys, 0, now));
    }
    assert(pool.contains(list[0]->0));
    assert(list =~= seq![Some(pool[0])]);
    assert(document_keys(pool) =~= Set::<Seq<char>>::empty().insert(key)) by {
        assert(keys[0] == key);
        assert forall|k: Seq<char>| keys.contains(k) implies k == key by {}
    }
}

/// A node that claims a document whose mutex has not expired gets nothing,
/// whoever holds the mutex, and the store stays as it was: holder, change
/// flag and expiration of the mutex are untouched. The list of `acquire_list`
/// holds nothing in its only place, and the guard holds no key.
pub proof fn theorem_locked_document_is_left_alone<T: DBDocument>(
    fields: Map<Seq<char>, NullableOption<DBMutexView>>,
    key: Seq<char>,
    node: Seq<char>,
    now: int,
    change_flag: Seq<char>,
    pool: Seq<T>,
)
    requires
        fields.dom().contains(key),
        fields[key] matches NullableOption::Value(mutex) && mutex.expiration > now,
        reports(
            pool,
            claim_query(MutexSourceView::Keys(seq![key]), node, now, change_flag).run_on_keys(
                fields,
                seq![key],
            ).touched,
        ),
    ensures
        pool.len() == 0,
        aligned(seq![key], pool) == seq![None::<T>],
        document_keys(pool) == Set::<Seq<char>>::empty(),
        ({
            let query = claim_query(MutexSourceView::Keys(seq![key]), node, now, change_flag);
            let outcome = query.run_on_keys(fields, seq![key]);
            &&& outcome.touched == Seq::<Seq<char>>::empty()
            &&& outcome.fields == fields
        }),
{
    let keys = seq![key];
    let query = claim_query(MutexSourceView::Keys(keys), node, now, change_flag);
    assert(keys.drop_first().len() == 0);
    assert(query.run_on_keys(fields, keys.drop_first()).touched =~= Seq::empty());
    theorem_acquire_list_answers_in_place(fields, keys, node, now, change_flag, pool);
    assert(aligned(keys, pool) =~= seq![None::<T>]) by {
        assert(!is_claimed_at(fields, keys, 0, now));
    }
    assert(document_keys(pool) =~= Set::<Seq<char>>::empty());
}

/// A claim of a missing document gets nothing and changes nothing. The list
/// of `acquire_list` holds nothing in its only place, and the guard holds no key.
pub proof fn theorem_missing_document_is_passed_over<T: DBDocument>(
    fields: Map<Seq<char>, NullableOption<DBMutexView>>,
    key: Seq<char>,
    node: Seq<char>,
    now: int,
    change_flag: Seq<char>,
    pool: Seq<T>,
)
    requires
        !fields.dom().contains(key),
        reports(
            pool,
            claim_query(MutexSourceView::Keys(seq![key]), node, now, change_flag).run_on_keys(
                fields,
                seq![key],
            ).touched,
        ),
    ensures
        pool.len() == 0,
        aligned(seq![key], pool) == seq![None::<T>],
        document_keys(pool) == Set::<Seq<char>>::empty(),
        ({
            let query = claim_query(MutexSourceView::Keys(seq![key]), node, now, change_flag);
            let outcome = query.run_on_keys(fields, seq![key]);
            &&& outcome.touched == Seq::<Seq<char>>::empty()
            &&& outcome.fields == fields
        }),
{
    let keys = seq![key];
    let query = claim_query(MutexSourceView::Keys(keys), node, now, change_flag);
    assert(keys.drop_first().len() == 0);
    assert(query.run_on_keys(fields, keys.drop_first()).touched =~= Seq::empty());
    theorem_acquire_list_answers_in_place(fields, keys, node, now, change_flag, pool);
    assert(aligned(keys, pool) =~= seq![None::<T>]) by {
        assert(!is_claimed_at(fields, keys, 0, now));
    }
    assert(document_keys(pool) =~= Set::<Seq<char>>::empty());
}

/// Locking a list of documents answers place by place. Whatever mix of free,
/// locked and missing documents `keys` names, the list that `acquire_list`
/// makes of the documents that the store reports is as long as `keys`; a
/// place holds the document stored under its key exactly where that document
/// was free and no earlier place names it, and nothing otherwise. In the
/// store, the documents at the places that hold one carry the mutex of the
/// claim, and every other document is as it was. The guard of the claim holds
/// the keys of the free documents that `keys` names, and no other.
pub proof fn theorem_acquire_list_answers_in_place<T: DBDocument>(
    fields: Map<Seq<char>, NullableOption<DBMutexView>>,
    keys: Seq<Seq<char>>,
    node: Seq<char>,
    now: int,
    change_flag: Seq<char>,
    pool: Seq<T>,
)
    requires
        reports(
            pool,
            claim_query(MutexSourceView::Keys(keys), node, now, change_flag).run_on_keys(
                fields,
                keys,
            ).touched,
        ),
    ensures
        aligned(keys, pool).len() == keys.len(),
        forall|i: int|
            0 <= i < keys.len() ==> match #[trigger] aligned(keys, pool)[i] {
                Some(document) => is_claimed_at(fields, keys, i, now) && key_view(document)
                    == Some(keys[i]) && pool.contains(document),
                None => !is_claimed_at(fields, keys, i, now),
            },
        ({
            let outcome = claim_query(
                MutexSourceView::Keys(keys),
                node,
                now,
                change_flag,
            ).run_on_keys(fields, keys);
            forall|i: int|
                0 <= i < keys.len() && fields.dom().contains(#[trigger] keys[i])
                    ==> outcome.fields[keys[i]] == if is_free(fields, keys[i], now) {
                    NullableOption::Value(claimed_mutex(node, now, change_flag))
                } else {
                    fields[keys[i]]
                }
        }),
        forall|k: Seq<char>| #[trigger]
            document_keys(pool).contains(k) <==> keys.contains(k) && is_free(fields, k, now),
{
    assert forall|k: Seq<char>| #[trigger]
        document_keys(pool).contains(k) <==> keys.contains(k) && is_free(fields, k, now) by {
        lemma_claim_outcome(fields, keys, node, now, change_flag);
        let touched = claim_query(MutexSourceView::Keys(keys), node, now, change_flag).run_on_keys(
            fields,
            keys,
        ).touched;
        if document_keys(pool).contains(k) {
            let j = choose|j: int| 0 <= j < pool.len() && key_view(#[trigger] pool[j]) == Some(k);
            assert(touched[j] == k);
        }
        if keys.contains(k) && is_free(fields, k, now) {
            let i = choose|i: int| 0 <= i < keys.len() && keys[i] == k;
            lemma_free_key_is_touched(fields, keys, node, now, change_flag, i);
            let j = choose|j: int| 0 <= j < touched.len() && touched[j] == k;
            assert(key_view(pool[j]) == Some(k));
        }
    }
    lemma_aligned(keys, pool);
    lemma_places(fields, keys, node, now, change_flag, pool);
    lemma_claim_outcome(fields, keys, node, now, change_flag);
    let outcome = claim_query(MutexSourceView::Keys(keys), node, now, change_flag).run_on_keys(
        fields,
        keys,
    );
    assert forall|i: int|
        0 <= i < keys.len() && fields.dom().contains(
            #[trigger] keys[i],
        ) implies outcome.fields[keys[i]] == if is_free(fields, keys[i], now) {
        NullableOption::Value(claimed_mutex(node, now, change_flag))
    } else {
        fields[keys[i]]
    } by {
        let k = keys[i];
        if is_free(fields, k, now) {
            lemma_free_key_is_touched(fields, keys, node, now, change_flag, i);
        } else {
            if outcome.touched.contains(k) {
                let j = choose|j: int| 0 <= j < outcome.touched.len() && outcome.touched[j] == k;
                assert(is_free(fields, outcome.touched[j], now));
            }
        }
    }
}

/// A claim touches every free document that its keys name.
proof fn lemma_free_key_is_touched(
    fields: Map<Seq<char>, NullableOption<DBMutexView>>,
    keys: Seq<Seq<char>>,
    node: Seq<char>,
    now: int,
    change_flag: Seq<char>,
    i: int,
)
    requires
        0 <= i < keys.len(),
        is_free(fields, keys[i], now),
    ensures
        claim_query(MutexSourceView::Keys(keys), node, now, change_flag).run_on_keys(
            fields,
            keys,
        ).touched.contains(keys[i]),
    decreases keys.len(),
{
    let query = claim_query(MutexSourceView::Keys(keys), node, now, change_flag);
    let outcome = query.run_on_keys(fields, keys);
    let key = keys[0];
    let rest_keys = keys.drop_first();
    let rest_query = claim_query(MutexSourceView::Keys(rest_keys), node, now, change_flag);
    if is_free(fields, key, now) {
        let next = fields.insert(
            key,
            NullableOption::Value(claimed_mutex(node, now, change_flag)),
        );
        let rest = query.run_on_keys(next, rest_keys);
        assert(outcome.touched == seq![key] + rest.touched);
        if keys[i] == key {
            assert(outcome.touched[0] == key);
        } else {
            assert(rest_keys[i - 1] == keys[i]);
            lemma_free_key_is_touched(next, rest_keys, node, now, change_flag, i - 1);
            lemma_run_ignores_source(rest_query, query, next, rest_keys);
            let j = choose|j: int| 0 <= j < rest.touched.len() && rest.touched[j] == keys[i];
            assert(outcome.touched[j + 1] == keys[i]);
        }
    } else {
        assert(i > 0);
        assert(rest_keys[i - 1] == keys[i]);
        lemma_free_key_is_touched(fields, rest_keys, node, now, change_flag, i - 1);
        lemma_run_ignores_source(rest_query, query, fields, rest_keys);
    }
}

/// The places of the documents that a claim reports, key by key.
proof fn lemma_places<T: DBDocument>(
    fields: Map<Seq<char>, NullableOption<DBMutexView>>,
    keys: Seq<Seq<char>>,
    node: Seq<char>,
    now: int,
    change_flag: Seq<char>,
    pool: Seq<T>,
)
    requires
        reports(
            pool,
            claim_query(MutexSourceView::Keys(keys), node, now, change_flag).run_on_keys(
                fields,
                keys,
            ).touched,
        ),
    ensures
        forall|i: int|
            0 <= i < keys.len() ==> ((#[trigger] aligned(keys, pool)[i]) is Some <==> is_claimed_at(
                fields,
                keys,
                i,
                now,
            )),
    decreases keys.len(),
{
    if keys.len() > 0 {
        let query = claim_query(MutexSourceView::Keys(keys), node, now, change_flag);
        let outcome = query.run_on_keys(fields, keys);
        let key = keys[0];
        let rest_keys = keys.drop_first();
        let rest_query = claim_query(MutexSourceView::Keys(rest_keys), node, now, change_flag);
        lemma_first_with_key(pool, key);
        lemma_aligned(keys, pool);
        if is_free(fields, key, now) {
            let next = fields.insert(
                key,
                NullableOption::Value(claimed_mutex(node, now, change_flag)),
            );
            let rest = query.run_on_keys(next, rest_keys);
            lemma_run_ignores_source(rest_query, query, next, rest_keys);
            assert(outcome.touched == seq![key] + rest.touched);
            assert(outcome.touched[0] == key);
            assert(is_first_with_key(pool, key, 0));
            assert(first_with_key(pool, key) == 0);
            let rest_pool = pool.remove(0);
            assert(next.dom() =~= fields.dom());
            assert(pool.len() == outcome.touched.len());
            assert(rest_pool.len() == pool.len() - 1);
            assert(rest.touched.len() == outcome.touched.len() - 1);
            assert forall|j: int| 0 <= j < rest_pool.len() implies key_view(
                #[trigger] rest_pool[j],
            ) == Some(rest.touched[j]) by {
                assert(rest_pool[j] == pool[j + 1]);
                assert(outcome.touched[j + 1] == rest.touched[j]);
            }
            lemma_places(next, rest_keys, node, now, change_flag, rest_pool);
            lemma_aligned(rest_keys, rest_pool);
            assert forall|i: int| 0 <= i < keys.len() implies ((#[trigger] aligned(keys, pool)[i])
                is Some <==> is_claimed_at(fields, keys, i, now)) by {
                if i > 0 {
                    assert(aligned(keys, pool)[i] == aligned(rest_keys, rest_pool)[i - 1]);
                    assert(rest_keys[i - 1] == keys[i]);
                    lemma_shifted_place(fields, next, keys, now, i);
                }
            }
        } else {
            lemma_claim_outcome(fields, rest_keys, node, now, change_flag);
            lemma_run_ignores_source(rest_query, query, fields, rest_keys);
            let rest = query.run_on_keys(fields, rest_keys);
            assert(outcome.touched == rest.touched);
            assert(first_with_key(pool, key) == pool.len()) by {
                let f = first_with_key(pool, key);
                if f < pool.len() {
                    assert(key_view(pool[f]) == Some(outcome.touched[f]));
                    assert(is_free(fields, outcome.touched[f], now));
                }
            }
            lemma_places(fields, rest_keys, node, now, change_flag, pool);
            lemma_aligned(rest_keys, pool);
            assert forall|i: int| 0 <= i < keys.len() implies ((#[trigger] aligned(keys, pool)[i])
                is Some <==> is_claimed_at(fields, keys, i, now)) by {
                if i > 0 {
                    assert(aligned(keys, pool)[i] == aligned(rest_keys, pool)[i - 1]);
                    assert(rest_keys[i - 1] == keys[i]);
                    lemma_shifted_place(fields, fields, keys, now, i);
                }
            }
        }
    }
}

/// Whether a place after the first is claimed, seen from the second place
/// on, once the first place has been dealt with.
proof fn lemma_shifted_place(
    fields: Map<Seq<char>, NullableOption<DBMutexView>>,
    next: Map<Seq<char>, NullableOption<DBMutexView>>,
    keys: Seq<Seq<char>>,
    now: int,
    i: int,
)
    requires
        0 < i < keys.len(),
        next.dom() == fields.dom(),
        forall|k: Seq<char>| k != keys[0] && fields.dom().contains(k) ==> next[k] == fields[k],
        !is_free(next, keys[0], now),
        next == fields || is_free(fields, keys[0], now),
    ensures
        is_claimed_at(next, keys.drop_first(), i - 1, now) <==> is_claimed_at(fields, keys, i, now),
{
    let rest_keys = keys.drop_first();
    assert(rest_keys[i - 1] == keys[i]);
    if is_claimed_at(fields, keys, i, now) {
        assert(keys[0] != keys[i]);
        assert forall|h: int| 0 <= h < i - 1 implies #[trigger] rest_keys[h] != rest_keys[i - 1] by {
            assert(rest_keys[h] == keys[h + 1]);
        }
    }
    if is_claimed_at(next, rest_keys, i - 1, now) {
        assert(keys[i] != keys[0]);
        assert forall|h: int| 0 <= h < i implies #[trigger] keys[h] != keys[i] by {
            if h > 0 {
                assert(rest_keys[h - 1] == keys[h]);
            }
        }
    }
}

/// Locking a document that does not exist fails at once, whatever the
/// timeout: the first round claims the document, the claim that comes back
/// empty makes the acquisition ask whether the document exists, and the
/// answer that it does not ends the acquisition with `NotFound`. No pause is
/// taken on the way, and it does not matter how late the answers come in.
/// Only a timeout of no time at all ends the acquisition before its first claim.
pub proof fn theorem_missing_document_is_not_waited_for<T, G>(
    timeout: Option<u64>,
    started_at: int,
    after_round: DocumentAcquisitionView,
    first: AcquireAction<T, G>,
    claimed: AcquireEvent<T, G>,
    claimed_at: int,
    after_claim: DocumentAcquisitionView,
    second: AcquireAction<T, G>,
    answered_at: int,
    after_answer: DocumentAcquisitionView,
    third: AcquireAction<T, G>,
)
    requires
        timeout != Some(0u64),
        claimed matches AcquireEvent::Claimed(list, _) && list@.len() > 0 && list@.last() is None,
        acquire_document_step(
            acquisition_start(timeout, started_at),
            AcquireEvent::<T, G>::Round,
            started_at,
            after_round,
            first,
        ),
        acquire_document_step(after_round, claimed, claimed_at, after_claim, second),
        acquire_document_step(
            after_claim,
            AcquireEvent::<T, G>::Exists(false),
            answered_at,
            after_answer,
            third,
        ),
    ensures
        first is Claim,
        second is CheckExists,
        third == AcquireAction::<T, G>::Done(Err(DBMutexError::NotFound)),
{
    assert(timeout matches Some(seconds) ==> seconds * MILLIS_PER_SECOND > 0);
}

/// An acquisition with a timeout gives up in the first round that begins at
/// or after its deadline, and in no round before: with pauses shorter than
/// `MUTEX_ACQUIRE_MAX_INTERVAL` milliseconds, about `timeout` seconds after
/// it started.
pub proof fn theorem_timeout_comes_at_the_deadline<T, G>(
    timeout: u64,
    started_at: int,
    state: DocumentAcquisitionView,
    now: int,
    next: DocumentAcquisitionView,
    action: AcquireAction<T, G>,
)
    requires
        state.time_out == acquisition_start(Some(timeout), started_at).time_out,
        acquire_document_step(state, AcquireEvent::<T, G>::Round, now, next, action),
    ensures
        now >= started_at + timeout * MILLIS_PER_SECOND ==> action == AcquireAction::<
            T,
            G,
        >::Done(Err(DBMutexError::Timeout)),
        now < started_at + timeout * MILLIS_PER_SECOND ==> action is Claim,
        next == state,
{
}

/// Every step of an acquisition keeps its deadline, and every pause it asks
/// for is at least `MUTEX_ACQUIRE_MIN_INTERVAL` and less than
/// `MUTEX_ACQUIRE_MAX_INTERVAL` milliseconds long.
pub proof fn theorem_steps_keep_the_deadline<T, G>(
    state: DocumentAcquisitionView,
    event: AcquireEvent<T, G>,
    now: int,
    next: DocumentAcquisitionView,
    action: AcquireAction<T, G>,
)
    requires
        acquire_document_step(state, event, now, next, action),
    ensures
        next.time_out == state.time_out,
        state.checked_doc_exists ==> next.checked_doc_exists,
        action matches AcquireAction::Sleep(pause) ==> is_acquire_pause(pause),
{
}

/// A renewal that finds a document still held under the guard's node and
/// change flag pushes its expiration to `MUTEX_EXPIRATION` seconds after the
/// renewal: strictly later than the expiration granted by any earlier claim or
/// renewal, with the same holder and the same change flag.
pub proof fn theorem_renewal_extends_the_mutex(
    guard: DBMutexGuardView,
    query: MutexQueryView,
    mutex: DBMutexView,
    granted_at: int,
    now: int,
)
    requires
        guard.asks(query, MutexUpdateView::Renew { expiration: now + mutex_lifetime_millis() }),
        mutex == claimed_mutex(guard.node_id, granted_at, guard.change_flag),
        granted_at < now,
    ensures
        query.field_after(NullableOption::Value(mutex)) matches NullableOption::Value(renewed)
            && renewed.node == mutex.node && renewed.change_flag == mutex.change_flag
            && renewed.expiration > mutex.expiration,
{
}

/// A renewal or a release passes over every document that is not held under
/// the guard's node and change flag: a mutex that another claim has taken over
/// meanwhile is neither extended nor emptied.
pub proof fn theorem_foreign_mutex_is_left_alone(
    guard: DBMutexGuardView,
    query: MutexQueryView,
    update: MutexUpdateView,
    field: NullableOption<DBMutexView>,
)
    requires
        guard.asks(query, update),
        !(field matches NullableOption::Value(mutex) && mutex.node == guard.node_id
            && mutex.change_flag == guard.change_flag),
    ensures
        query.field_after(field) == field,
{
}

/// A release empties the mutex of every document still held under the
/// guard's node and change flag: the field holds no mutex any more.
pub proof fn theorem_release_empties_the_mutex(
    guard: DBMutexGuardView,
    query: MutexQueryView,
    mutex: DBMutexView,
)
    requires
        guard.asks(query, MutexUpdateView::Unlock),
        mutex.node == guard.node_id,
        mutex.change_flag == guard.change_flag,
    ensures
        query.field_after(NullableOption::Value(mutex)) == NullableOption::<DBMutexView>::Null,
{
}

/// Whether the document stored under `key` exists and carries a mutex of
/// `node` under `change_flag`.
pub open spec fn is_held(
    fields: Map<Seq<char>, NullableOption<DBMutexView>>,
    key: Seq<char>,
    node: Seq<char>,
    change_flag: Seq<char>,
) -> bool {
    fields.dom().contains(key) && (MutexConditionView::Held { node, change_flag }).holds(
        fields[key],
    )
}

/// A query over keys that are all different deals with every document on
/// its own: it touches exactly the existing documents that meet its condition,
/// each once, writes its update into them and leaves every other document as
/// it was.
pub proof fn lemma_run_on_distinct_keys(
    query: MutexQueryView,
    fields: Map<Seq<char>, NullableOption<DBMutexView>>,
    keys: Seq<Seq<char>>,
)
    requires
        keys.no_duplicates(),
    ensures
        ({
            let outcome = query.run_on_keys(fields, keys);
            &&& outcome.fields.dom() == fields.dom()
            &&& outcome.touched.no_duplicates()
            &&& forall|k: Seq<char>| #[trigger]
                outcome.touched.contains(k) <==> keys.contains(k) && fields.dom().contains(k)
                    && query.condition.holds(fields[k])
            &&& forall|k: Seq<char>| #[trigger]
                fields.dom().contains(k) ==> outcome.fields[k] == if outcome.touched.contains(k) {
                    query.update.apply(fields[k])
                } else {
                    fields[k]
                }
        }),
    decreases keys.len(),
{
    let outcome = query.run_on_keys(fields, keys);
    if keys.len() == 0 {
        assert(outcome.fields.dom() =~= fields.dom());
    } else {
        let key = keys[0];
        let rest_keys = keys.drop_first();
        assert(rest_keys.no_duplicates()) by {
            assert forall|i: int, j: int|
                0 <= i < rest_keys.len() && 0 <= j < rest_keys.len() && i != j implies rest_keys[i]
                != rest_keys[j] by {
                assert(rest_keys[i] == keys[i + 1] && rest_keys[j] == keys[j + 1]);
            }
        }
        assert(!rest_keys.contains(key)) by {
            if rest_keys.contains(key) {
                let j = choose|j: int| 0 <= j < rest_keys.len() && rest_keys[j] == key;
                assert(keys[j + 1] == key);
            }
        }
        assert forall|k: Seq<char>| keys.contains(k) <==> k == key || rest_keys.contains(k) by {
            if keys.contains(k) {
                let j = choose|j: int| 0 <= j < keys.len() && keys[j] == k;
                if j > 0 {
                    assert(rest_keys[j - 1] == k);
                }
            }
            if rest_keys.contains(k) {
                lemma_rest_key(keys, k);
            }
            if k == key {
                assert(keys[0] == k);
            }
        }
        let met = fields.dom().contains(key) && query.condition.holds(fields[key]);
        let next = if met {
            fields.insert(key, query.update.apply(fields[key]))
        } else {
            fields
        };
        let rest = query.run_on_keys(next, rest_keys);
        lemma_run_on_distinct_keys(query, next, rest_keys);
        assert(next.dom() =~= fields.dom());
        assert(!rest.touched.contains(key));
        if met {
            assert(outcome.touched == seq![key] + rest.touched);
            assert(outcome.touched[0] == key);
            assert forall|k: Seq<char>| outcome.touched.contains(k) <==> k == key
                || rest.touched.contains(k) by {
                if outcome.touched.contains(k) {
                    let j = choose|j: int|
                        0 <= j < outcome.touched.len() && outcome.touched[j] == k;
                    if j > 0 {
                        assert(rest.touched[j - 1] == k);
                    }
                }
                if rest.touched.contains(k) {
                    let j = choose|j: int| 0 <= j < rest.touched.len() && rest.touched[j] == k;
                    assert(outcome.touched[j + 1] == k);
                }
            }
            assert forall|i: int, j: int|
                0 <= i < outcome.touched.len() && 0 <= j < outcome.touched.len() && i
                    != j implies outcome.touched[i] != outcome.touched[j] by {
                if i > 0 {
                    assert(outcome.touched[i] == rest.touched[i - 1]);
                    assert(rest.touched.contains(outcome.touched[i]));
                }
                if j > 0 {
                    assert(outcome.touched[j] == rest.touched[j - 1]);
                    assert(rest.touched.contains(outcome.touched[j]));
                }
            }
        }
        assert forall|k: Seq<char>| #[trigger]
            outcome.touched.contains(k) <==> keys.contains(k) && fields.dom().contains(k)
                && query.condition.holds(fields[k]) by {
            if k != key {
                assert(next.dom().contains(k) ==> next[k] == fields[k]);
            }
        }
        assert forall|k: Seq<char>| #[trigger] fields.dom().contains(k) implies outcome.fields[k]
            == if outcome.touched.contains(k) {
            query.update.apply(fields[k])
        } else {
            fields[k]
        } by {
            assert(next.dom().contains(k));
            if k != key {
                assert(next[k] == fields[k]);
            }
        }
    }
}

/// While a mutex is valid, nobody else gets the document: a claim that
/// comes before the expiration that an earlier claim granted touches nothing,
/// whichever node makes it.
pub proof fn theorem_one_holder_at_a_time(
    fields: Map<Seq<char>, NullableOption<DBMutexView>>,
    key: Seq<char>,
    first_node: Seq<char>,
    first_now: int,
    first_flag: Seq<char>,
    second_node: Seq<char>,
    second_now: int,
    second_flag: Seq<char>,
)
    requires
        is_free(fields, key, first_now),
        second_now < first_now + mutex_lifetime_millis(),
    ensures
        ({
            let first = claim_query(
                MutexSourceView::Keys(seq![key]),
                first_node,
                first_now,
                first_flag,
            ).run_on_keys(fields, seq![key]);
            let second = claim_query(
                MutexSourceView::Keys(seq![key]),
                second_node,
                second_now,
                second_flag,
            ).run_on_keys(first.fields, seq![key]);
            &&& first.touched == seq![key]
            &&& second.touched == Seq::<Seq<char>>::empty()
            &&& second.fields == first.fields
            &&& second.fields[key] == NullableOption::Value(
                claimed_mutex(first_node, first_now, first_flag),
            )
        }),
{
    let keys = seq![key];
    let query = claim_query(MutexSourceView::Keys(keys), first_node, first_now, first_flag);
    let next = fields.insert(key, query.update.apply(fields[key]));
    assert(keys.drop_first().len() == 0);
    assert(query.run_on_keys(next, keys.drop_first()).touched =~= Seq::empty());
    assert(query.run_on_keys(fields, keys).touched =~= seq![key]);
    let then = claim_query(MutexSourceView::Keys(keys), second_node, second_now, second_flag);
    assert(then.run_on_keys(next, keys.drop_first()).touched =~= Seq::empty());
}

/// One round of the keep-alive job, seen from the store. Of the documents of
/// the guard, exactly those that still carry a mutex of the guard's node
/// under its change flag are renewed and reported: they expire
/// `MUTEX_EXPIRATION` seconds after `now` and keep holder and change flag.
/// Every other document is as it was. The guard goes on with the reported
/// keys, or stops, keeping its keys, where there is none.
pub proof fn theorem_keep_alive_keeps_what_is_held(
    guard: DBMutexGuardView,
    query: MutexQueryView,
    now: int,
    fields: Map<Seq<char>, NullableOption<DBMutexView>>,
)
    requires
        guard.alive_job,
        guard.asks(query, MutexUpdateView::Renew { expiration: now + mutex_lifetime_millis() }),
    ensures
        ({
            let outcome = query.run_on_keys(fields, query.source->Keys_0);
            let renewed = outcome.touched.to_set();
            let next = guard.kept_alive(Some(renewed));
            &&& forall|k: Seq<char>| #[trigger]
                renewed.contains(k) <==> guard.elements.contains(k) && is_held(
                    fields,
                    k,
                    guard.node_id,
                    guard.change_flag,
                )
            &&& forall|k: Seq<char>| #[trigger]
                fields.dom().contains(k) ==> outcome.fields[k] == if renewed.contains(k) {
                    NullableOption::Value(
                        DBMutexView {
                            node: guard.node_id,
                            change_flag: guard.change_flag,
                            expiration: now + mutex_lifetime_millis(),
                        },
                    )
                } else {
                    fields[k]
                }
            &&& next.node_id == guard.node_id && next.change_flag == guard.change_flag
            &&& if renewed =~= Set::empty() {
                !next.alive_job && next.elements == guard.elements
            } else {
                next.alive_job && next.elements == renewed
            }
        }),
{
    let keys = query.source->Keys_0;
    lemma_run_on_distinct_keys(query, fields, keys);
    let outcome = query.run_on_keys(fields, keys);
    assert forall|k: Seq<char>| #[trigger]
        fields.dom().contains(k) implies outcome.fields[k] == if outcome.touched.to_set().contains(
        k,
    ) {
        NullableOption::Value(
            DBMutexView {
                node: guard.node_id,
                change_flag: guard.change_flag,
                expiration: now + mutex_lifetime_millis(),
            },
        )
    } else {
        fields[k]
    } by {
        assert(outcome.touched.to_set().contains(k) == outcome.touched.contains(k));
    }
    assert forall|k: Seq<char>| #[trigger]
        outcome.touched.to_set().contains(k) <==> guard.elements.contains(k) && is_held(
            fields,
            k,
            guard.node_id,
            guard.change_flag,
        ) by {
        assert(outcome.touched.to_set().contains(k) == outcome.touched.contains(k));
        assert(keys.to_set().contains(k) == keys.contains(k));
    }
}

/// A release, seen from the store. Of the documents of the guard, exactly
/// those that still carry a mutex of the guard's node under its change flag
/// are emptied and reported; every other document is as it was, and the keys
/// of the guard that are not reported are the failures of the release.
pub proof fn theorem_release_unlocks_what_is_held(
    guard: DBMutexGuardView,
    query: MutexQueryView,
    fields: Map<Seq<char>, NullableOption<DBMutexView>>,
)
    requires
        guard.asks(query, MutexUpdateView::Unlock),
    ensures
        ({
            let outcome = query.run_on_keys(fields, query.source->Keys_0);
            let released = outcome.touched.to_set();
            &&& outcome.touched.no_duplicates()
            &&& forall|k: Seq<char>| #[trigger]
                released.contains(k) <==> guard.elements.contains(k) && is_held(
                    fields,
                    k,
                    guard.node_id,
                    guard.change_flag,
                )
            &&& forall|k: Seq<char>| #[trigger]
                guard.elements.difference(released).contains(k) <==> guard.elements.contains(k)
                    && !is_held(fields, k, guard.node_id, guard.change_flag)
            &&& forall|k: Seq<char>| #[trigger]
                fields.dom().contains(k) ==> outcome.fields[k] == if released.contains(k) {
                    NullableOption::<DBMutexView>::Null
                } else {
                    fields[k]
                }
        }),
{
    let keys = query.source->Keys_0;
    lemma_run_on_distinct_keys(query, fields, keys);
    let outcome = query.run_on_keys(fields, keys);
    assert forall|k: Seq<char>| #[trigger]
        outcome.touched.to_set().contains(k) <==> guard.elements.contains(k) && is_held(
            fields,
            k,
            guard.node_id,
            guard.change_flag,
        ) by {
        assert(outcome.touched.to_set().contains(k) == outcome.touched.contains(k));
        assert(keys.to_set().contains(k) == keys.contains(k));
    }
    assert forall|k: Seq<char>| #[trigger]
        fields.dom().contains(k) implies outcome.fields[k] == if outcome.touched.to_set().contains(
        k,
    ) {
        NullableOption::<DBMutexView>::Null
    } else {
        fields[k]
    } by {
        assert(outcome.touched.to_set().contains(k) == outcome.touched.contains(k));
    }
}

/// Releasing both guards after `pop` hands back everything, each document
/// once. Whatever keys were popped, the two releases together empty the mutex
/// of every document of the first guard that is still held under its node and
/// change flag; no document is reported by both, so none is released twice;
/// and no other document changes.
pub proof fn theorem_pop_then_release_unlocks_everything_once(
    guard: DBMutexGuardView,
    keys: Set<Seq<char>>,
    kept_query: MutexQueryView,
    moved_query: MutexQueryView,
    fields: Map<Seq<char>, NullableOption<DBMutexView>>,
)
    requires
        guard.without(keys).asks(kept_query, MutexUpdateView::Unlock),
        guard.popped(keys).asks(moved_query, MutexUpdateView::Unlock),
    ensures
        ({
            let first = kept_query.run_on_keys(fields, kept_query.source->Keys_0);
            let second = moved_query.run_on_keys(first.fields, moved_query.source->Keys_0);
            &&& first.touched.to_set().disjoint(second.touched.to_set())
            &&& forall|k: Seq<char>| #[trigger]
                first.touched.to_set().union(second.touched.to_set()).contains(k)
                    <==> guard.elements.contains(k) && is_held(
                    fields,
                    k,
                    guard.node_id,
                    guard.change_flag,
                )
            &&& forall|k: Seq<char>| #[trigger]
                fields.dom().contains(k) ==> second.fields[k] == if guard.elements.contains(k)
                    && is_held(fields, k, guard.node_id, guard.change_flag) {
                    NullableOption::<DBMutexView>::Null
                } else {
                    fields[k]
                }
        }),
{
    let kept = guard.without(keys);
    let moved = guard.popped(keys);
    theorem_release_unlocks_what_is_held(kept, kept_query, fields);
    let first = kept_query.run_on_keys(fields, kept_query.source->Keys_0);
    lemma_run_on_distinct_keys(kept_query, fields, kept_query.source->Keys_0);
    theorem_release_unlocks_what_is_held(moved, moved_query, first.fields);
    let second = moved_query.run_on_keys(first.fields, moved_query.source->Keys_0);
    lemma_run_on_distinct_keys(moved_query, first.fields, moved_query.source->Keys_0);
    assert forall|k: Seq<char>|
        moved.elements.contains(k) implies (is_held(first.fields, k, guard.node_id, guard.change_flag)
        <==> is_held(fields, k, guard.node_id, guard.change_flag)) by {
        assert(!kept.elements.contains(k));
        assert(!first.touched.to_set().contains(k));
        if fields.dom().contains(k) {
            assert(first.fields[k] == fields[k]);
        }
    }
    assert forall|k: Seq<char>| #[trigger]
        first.touched.to_set().union(second.touched.to_set()).contains(k)
            <==> guard.elements.contains(k) && is_held(
            fields,
            k,
            guard.node_id,
            guard.change_flag,
        ) by {
        if guard.elements.contains(k) {
            assert(kept.elements.contains(k) || moved.elements.contains(k));
        }
    }
    assert forall|k: Seq<char>| #[trigger] fields.dom().contains(k) implies second.fields[k]
        == if guard.elements.contains(k) && is_held(fields, k, guard.node_id, guard.change_flag) {
        NullableOption::<DBMutexView>::Null
    } else {
        fields[k]
    } by {
        assert(first.fields.dom().contains(k));
        if guard.elements.contains(k) {
            assert(kept.elements.contains(k) || moved.elements.contains(k));
        }
    }
}

/// The keys that a release of `guard` asks the store to unlock.
pub open spec fn release_targets(guard: DBMutexGuardView) -> Set<Seq<char>> {
    if guard.is_active() {
        guard.elements
    } else {
        Set::empty()
    }
}

/// After `pop`, the two guards share out the keys that the first one held:
/// every key is with exactly one of them. Releasing both asks the store to
/// unlock every one of those keys, each once, and a guard that has been
/// released asks for nothing when released again.
pub proof fn theorem_pop_shares_out_the_keys(guard: DBMutexGuardView, keys: Set<Seq<char>>)
    requires
        guard.alive_job,
    ensures
        ({
            let kept = guard.without(keys);
            let moved = guard.popped(keys);
            &&& kept.elements.disjoint(moved.elements)
            &&& kept.elements.union(moved.elements) == guard.elements
            &&& release_targets(kept).disjoint(release_targets(moved))
            &&& release_targets(kept).union(release_targets(moved)) == guard.elements
            &&& release_targets(kept.stopped()) == Set::<Seq<char>>::empty()
            &&& release_targets(moved.stopped()) == Set::<Seq<char>>::empty()
            &&& moved.node_id == guard.node_id
            &&& moved.change_flag == guard.change_flag
        }),
{
    let kept = guard.without(keys);
    let moved = guard.popped(keys);
    assert(kept.elements.union(moved.elements) =~= guard.elements);
    assert(release_targets(kept).union(release_targets(moved)) =~= guard.elements);
}

} // verus!
