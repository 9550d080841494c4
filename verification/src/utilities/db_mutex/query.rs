use crate::aql::{AqlLimit, AqlSort};
use crate::types::dates::DBDateTime;
use crate::types::mutex::{DBMutex, DBMutexView};
use crate::types::nullable_option::NullableOption;
use crate::types::uuid::DBUuid;
use vstd::prelude::*;

verus! {

/// The characters of each key of `keys`, in order.
pub open spec fn key_views(keys: Seq<DBUuid>) -> Seq<Seq<char>> {
    Seq::new(keys.len(), |i: int| keys[i]@)
}

/// The criteria of a sort step as mathematical values, in order.
pub open spec fn sort_views(sort: Seq<AqlSort>) -> Seq<(Seq<char>, bool)> {
    Seq::new(sort.len(), |i: int| sort[i]@)
}

/// Which documents a query visits.
#[derive(Debug)]
pub enum MutexSource {
    /// The documents stored under these keys, one after the other.
    Keys(Vec<DBUuid>),
    /// The documents of the collection that pass `filter`, ordered by `sort`
    /// and cut down to `limits`.
    Collection { filter: Option<String>, sort: Option<Vec<AqlSort>>, limits: Option<AqlLimit> },
}

/// A `MutexSource` as mathematical values.
pub enum MutexSourceView {
    Keys(Seq<Seq<char>>),
    Collection {
        filter: Option<Seq<char>>,
        sort: Option<Seq<(Seq<char>, bool)>>,
        limits: Option<AqlLimit>,
    },
}

impl View for MutexSource {
    type V = MutexSourceView;

    open spec fn view(&self) -> MutexSourceView {
        match self {
            MutexSource::Keys(keys) => MutexSourceView::Keys(key_views(keys@)),
            MutexSource::Collection { filter, sort, limits } => MutexSourceView::Collection {
                filter: match filter {
                    Some(f) => Some(f@),
                    None => None,
                },
                sort: match sort {
                    Some(s) => Some(sort_views(s@)),
                    None => None,
                },
                limits: *limits,
            },
        }
    }
}

/// What the mutex of a visited document must look like for the query to touch it.
#[derive(Debug)]
pub enum MutexCondition {
    /// No mutex, an emptied one, or one whose expiration is not after `now`.
    Expired { now: DBDateTime },
    /// A mutex held by `node` under `change_flag`.
    Held { node: String, change_flag: DBUuid },
    /// A mutex held by `node`, whatever its change flag.
    HeldByNode { node: String },
}

/// A `MutexCondition` as mathematical values.
pub enum MutexConditionView {
    Expired { now: int },
    Held { node: Seq<char>, change_flag: Seq<char> },
    HeldByNode { node: Seq<char> },
}

impl View for MutexCondition {
    type V = MutexConditionView;

    open spec fn view(&self) -> MutexConditionView {
        match self {
            MutexCondition::Expired { now } => MutexConditionView::Expired { now: now@ },
            MutexCondition::Held { node, change_flag } => MutexConditionView::Held {
                node: node@,
                change_flag: change_flag@,
            },
            MutexCondition::HeldByNode { node } => MutexConditionView::HeldByNode { node: node@ },
        }
    }
}

impl MutexConditionView {
    /// Whether a document whose mutex field is `mutex` meets the condition.
    pub open spec fn holds(self, mutex: NullableOption<DBMutexView>) -> bool {
        match self {
            MutexConditionView::Expired { now } => match mutex {
                NullableOption::Value(m) => m.expiration <= now,
                _ => true,
            },
            MutexConditionView::Held { node, change_flag } => match mutex {
                NullableOption::Value(m) => m.node == node && m.change_flag == change_flag,
                _ => false,
            },
            MutexConditionView::HeldByNode { node } => match mutex {
                NullableOption::Value(m) => m.node == node,
                _ => false,
            },
        }
    }
}

impl MutexCondition {
    /// Whether a document whose mutex field is `mutex` meets the condition.
    pub fn holds(&self, mutex: &NullableOption<DBMutex>) -> (r: bool)
        ensures
            r == self@.holds(mutex@),
    {
        match self {
            MutexCondition::Expired { now } => match mutex {
                NullableOption::Value(m) => m.expiration.is_expired_at(now),
                _ => true,
            },
            MutexCondition::Held { node, change_flag } => match mutex {
                NullableOption::Value(m) => m.node == *node && m.change_flag == *change_flag,
                _ => false,
            },
            MutexCondition::HeldByNode { node } => match mutex {
                NullableOption::Value(m) => m.node == *node,
                _ => false,
            },
        }
    }
}

/// What a query writes into the mutex field of each document it touches.
#[derive(Debug)]
pub enum MutexUpdate {
    /// The field becomes this mutex.
    Lock(DBMutex),
    /// The mutex keeps its holder and its change flag and lapses at `expiration`.
    Renew { expiration: DBDateTime },
    /// The field is emptied.
    Unlock,
}

/// A `MutexUpdate` as mathematical values.
pub enum MutexUpdateView {
    Lock(DBMutexView),
    Renew { expiration: int },
    Unlock,
}

impl View for MutexUpdate {
    type V = MutexUpdateView;

    open spec fn view(&self) -> MutexUpdateView {
        match self {
            MutexUpdate::Lock(m) => MutexUpdateView::Lock(m@),
            MutexUpdate::Renew { expiration } => MutexUpdateView::Renew { expiration: expiration@ },
            MutexUpdate::Unlock => MutexUpdateView::Unlock,
        }
    }
}

impl MutexUpdateView {
    /// The mutex field after the update of a document whose field was `mutex`.
    /// A renewal leaves a field without a mutex as it was.
    pub open spec fn apply(self, mutex: NullableOption<DBMutexView>) -> NullableOption<
        DBMutexView,
    > {
        match self {
            MutexUpdateView::Lock(m) => NullableOption::Value(m),
            MutexUpdateView::Renew { expiration } => match mutex {
                NullableOption::Value(m) => NullableOption::Value(
                    DBMutexView { node: m.node, change_flag: m.change_flag, expiration },
                ),
                other => other,
            },
            MutexUpdateView::Unlock => NullableOption::Null,
        }
    }
}

impl MutexUpdate {
    /// The mutex field after the update of a document whose field was `mutex`.
    pub fn apply(&self, mutex: &NullableOption<DBMutex>) -> (r: NullableOption<DBMutex>)
        ensures
            r@ == self@.apply(mutex@),
    {
        match self {
            MutexUpdate::Lock(m) => NullableOption::Value(m.clone()),
            MutexUpdate::Renew { expiration } => match mutex {
                NullableOption::Value(m) => NullableOption::Value(
                    DBMutex {
                        node: m.node.clone(),
                        change_flag: m.change_flag.clone(),
                        expiration: expiration.clone(),
                    },
                ),
                NullableOption::Null => NullableOption::Null,
                NullableOption::Missing => NullableOption::Missing,
            },
            MutexUpdate::Unlock => NullableOption::Null,
        }
    }
}

/// What a query hands back for each document it touched.
#[derive(Debug, Clone, Copy, PartialEq, Eq, Structural)]
pub enum MutexReturn {
    /// The document as it is after the update.
    Updated,
    /// The key of the document.
    Key,
    /// Nothing at all.
    Nothing,
}

/// A conditional update of mutexes, to be run by the store atomically for each document.
///
/// The store visits the documents of `source` in order. Where a document
/// exists and its mutex field meets `condition`, it writes `update` into the
/// field, ignoring a failure of the write for that document, and returns what
/// `returns` names.
#[derive(Debug)]
pub struct MutexQuery {
    pub source: MutexSource,
    pub condition: MutexCondition,
    pub update: MutexUpdate,
    pub returns: MutexReturn,
}

/// A `MutexQuery` as mathematical values.
pub struct MutexQueryView {
    pub source: MutexSourceView,
    pub condition: MutexConditionView,
    pub update: MutexUpdateView,
    pub returns: MutexReturn,
}

impl View for MutexQuery {
    type V = MutexQueryView;

    open spec fn view(&self) -> MutexQueryView {
        MutexQueryView {
            source: self.source@,
            condition: self.condition@,
            update: self.update@,
            returns: self.returns,
        }
    }
}

impl MutexQueryView {
    /// The mutex field that the query leaves in a visited document whose field was `mutex`.
    pub open spec fn field_after(self, mutex: NullableOption<DBMutexView>) -> NullableOption<
        DBMutexView,
    > {
        if self.condition.holds(mutex) {
            self.update.apply(mutex)
        } else {
            mutex
        }
    }
}

impl MutexQuery {
    /// What the query does to a visited document whose mutex field is `mutex`:
    /// the new field where the document meets the condition, `None` where the
    /// query passes it by.
    pub fn update_document(&self, mutex: &NullableOption<DBMutex>) -> (r: Option<
        NullableOption<DBMutex>,
    >)
        ensures
            match r {
                Some(field) => self@.condition.holds(mutex@) && field@ == self@.update.apply(
                    mutex@,
                ),
                None => !self@.condition.holds(mutex@),
            },
    {
        if self.condition.holds(mutex) {
            Some(self.update.apply(mutex))
        } else {
            None
        }
    }
}

} // verus!
