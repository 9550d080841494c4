use vstd::prelude::*;
use vstd::string::StringExecFns;
use vstd::string::StrSliceExecFns;

verus! {

/// The identity of a document across collections: its key and the collection that holds it.
#[derive(Debug, Clone, Eq, PartialEq, Hash)]
pub struct DBId<K, C> {
    key: K,
    collection: C,
}

impl<K, C> DBId<K, C> {
    /// The key of the document inside its collection.
    pub closed spec fn spec_key(&self) -> K {
        self.key
    }

    /// The collection that holds the document.
    pub closed spec fn spec_collection(&self) -> C {
        self.collection
    }

    // CONSTRUCTORS -----------------------------------------------------------

    pub fn new(key: K, collection: C) -> (r: Self)
        ensures
            r.spec_key() == key,
            r.spec_collection() == collection,
    {
        DBId { key, collection }
    }

    // GETTERS ----------------------------------------------------------------

    pub fn key(&self) -> (r: &K)
        ensures
            *r == self.spec_key(),
    {
        &self.key
    }

    pub fn collection(&self) -> (r: &C)
        ensures
            *r == self.spec_collection(),
    {
        &self.collection
    }
}

/// Whether the only slash of `s` stands at place `p`.
pub open spec fn is_split_at(s: Seq<char>, p: int) -> bool {
    &&& 0 <= p < s.len()
    &&& s[p] == '/'
    &&& forall|q: int| 0 <= q < s.len() && q != p ==> #[trigger] s[q] != '/'
}

impl DBId<String, String> {
    /// The identity in the form in which the store writes it: the collection,
    /// a slash and the key.
    pub fn to_id(&self) -> (r: String)
        ensures
            r@ == self.spec_collection()@ + seq!['/'] + self.spec_key()@,
    {
        proof {
            reveal_strlit("/");
        }
        let r = self.collection.clone().concat("/").concat(self.key.as_str());
        assert("/"@ =~= seq!['/']);
        r
    }

    /// Reads an identity in the form in which the store writes it. There is
    /// one exactly where `v` holds exactly one slash: what stands before the
    /// slash is the collection, what stands after it the key.
    pub fn from_id(v: &str) -> (r: Option<DBId<String, String>>)
        ensures
            match r {
                Some(id) => exists|p: int|
                    #![trigger is_split_at(v@, p)]
                    is_split_at(v@, p) && id.spec_collection()@ == v@.subrange(0, p)
                        && id.spec_key()@ == v@.subrange(p + 1, v@.len() as int),
                None => forall|p: int| !is_split_at(v@, p),
            },
    {
        let n = v.unicode_len();
        let mut slash: Option<usize> = None;
        let mut i: usize = 0;
        while i < n
            invariant
                n == v@.len(),
                i <= n,
                match slash {
                    Some(p) => p < i && v@[p as int] == '/' && forall|q: int|
                        0 <= q < i && q != p ==> #[trigger] v@[q] != '/',
                    None => forall|q: int| 0 <= q < i ==> #[trigger] v@[q] != '/',
                },
            decreases n - i,
        {
            if v.get_char(i) == '/' {
                match slash {
                    Some(p) => {
                        // Too many values.
                        assert forall|x: int| !is_split_at(v@, x) by {
                            if is_split_at(v@, x) {
                                if x == p {
                                    assert(v@[i as int] != '/');
                                } else {
                                    assert(v@[p as int] != '/');
                                }
                            }
                        }
                        return None;
                    },
                    None => {
                        slash = Some(i);
                    },
                }
            }
            i += 1;
        }
        match slash {
            Some(p) => {
                let collection = v.substring_char(0, p).to_owned();
                let key = v.substring_char(p + 1, n).to_owned();
                assert(is_split_at(v@, p as int));
                Some(DBId { key, collection })
            },
            None => {
                assert forall|x: int| !is_split_at(v@, x) by {
                    if is_split_at(v@, x) {
                        assert(v@[x] != '/');
                    }
                }
                None
            },
        }
    }
}

} // verus!
