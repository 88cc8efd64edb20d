//! A map from strings to values, which remembers the order in which its keys came.

use crate::strings;
use crate::text;
use vstd::hash_map::StringHashMap;
use vstd::prelude::*;

verus! {

broadcast use strings::lemma_texts_push;

/// A map with strings as keys. The map itself cannot be walked, so the keys are kept beside it.
#[verifier::reject_recursive_types(V)]
pub struct TextMap<V> {
    keys: Vec<String>,
    values: StringHashMap<V>,
}

impl<V> View for TextMap<V> {
    type V = Map<Seq<char>, V>;

    closed spec fn view(&self) -> Map<Seq<char>, V> {
        self.values@
    }
}

proof fn lemma_push_key(keys: Seq<Seq<char>>, k: Seq<char>)
    requires
        keys.no_duplicates(),
        !keys.contains(k),
    ensures
        keys.push(k).no_duplicates(),
        forall|x: Seq<char>| #[trigger] keys.push(k).contains(x) <==> keys.contains(x) || x == k,
{
    let grown = keys.push(k);
    assert forall|x: Seq<char>| #[trigger] grown.contains(x) <==> keys.contains(x) || x == k by {
        if keys.contains(x) {
            let i = choose|i: int| 0 <= i < keys.len() && keys[i] == x;
            assert(grown[i] == x);
        }
        assert(grown[keys.len() as int] == k);
    }
}

impl<V> TextMap<V> {
    #[verifier::type_invariant]
    spec fn in_step(self) -> bool {
        &&& strings::texts(self.keys@).no_duplicates()
        &&& forall|k: Seq<char>|
            self.values@.contains_key(k) <==> #[trigger] strings::texts(self.keys@).contains(k)
    }

    /// The keys, in the order in which they came.
    pub closed spec fn key_texts(self) -> Seq<Seq<char>> {
        strings::texts(self.keys@)
    }

    /// A map with nothing in it.
    pub fn new() -> (r: Self)
        ensures
            r@ == Map::<Seq<char>, V>::empty(),
            r.key_texts() == Seq::<Seq<char>>::empty(),
    {
        let keys: Vec<String> = Vec::new();
        assert(strings::texts(keys@) =~= Seq::empty());
        TextMap { keys, values: StringHashMap::new() }
    }

    /// The value that a key has.
    pub fn get(&self, k: &str) -> (r: Option<&V>)
        ensures
            match r {
                Some(v) => self@.contains_key(k@) && self@[k@] == *v,
                None => !self@.contains_key(k@),
            },
    {
        self.values.get(k)
    }

    /// Whether a key has a value.
    pub fn contains_key(&self, k: &str) -> (r: bool)
        ensures
            r == self@.contains_key(k@),
    {
        self.values.contains_key(k)
    }

    /// Gives a key a value, in the place of the one that it had.
    pub fn insert(&mut self, k: String, v: V)
        ensures
            final(self)@ == old(self)@.insert(k@, v),
            final(self).key_texts() == (if old(self)@.contains_key(k@) {
                old(self).key_texts()
            } else {
                old(self).key_texts().push(k@)
            }),
    {
        proof {
            use_type_invariant(&*self);
        }
        let mut fresh: TextMap<V> = TextMap::new();
        std::mem::swap(self, &mut fresh);
        let TextMap { keys: mut keys, values: mut values } = fresh;
        let ghost before = strings::texts(keys@);
        if !values.contains_key(&k) {
            proof {
                lemma_push_key(before, k@);
            }
            keys.push(k.clone());
        }
        values.insert(k, v);
        *self = TextMap { keys, values };
    }

    /// Whether there is no key.
    pub fn is_empty(&self) -> (r: bool)
        ensures
            r == (self@ == Map::<Seq<char>, V>::empty()),
            r == (self.key_texts().len() == 0),
    {
        proof {
            use_type_invariant(self);
            let keys = self.key_texts();
            if keys.len() == 0 {
                assert forall|k: Seq<char>| !self@.contains_key(k) by {
                    assert(!keys.contains(k));
                }
                assert(self@ =~= Map::empty());
            } else {
                assert(keys.contains(keys[0]));
                assert(self@.contains_key(keys[0]));
            }
        }
        self.keys.len() == 0
    }

    /// How many keys there are.
    pub fn len(&self) -> (r: usize)
        ensures
            r == self@.dom().len(),
            r == self.key_texts().len(),
            self.key_texts().no_duplicates(),
            forall|k: Seq<char>|
                self@.contains_key(k) <==> #[trigger] self.key_texts().contains(k),
    {
        proof {
            use_type_invariant(self);
            let keys = self.key_texts();
            keys.unique_seq_to_set();
            assert forall|k: Seq<char>| self@.dom().contains(k) <==> keys.to_set().contains(k) by {
                assert(self@.contains_key(k) <==> keys.contains(k));
            }
            assert(self@.dom() =~= keys.to_set());
        }
        self.keys.len()
    }

    /// The key at a place in the order in which they came, and its value.
    pub fn entry(&self, i: usize) -> (r: (&str, &V))
        requires
            i < self.key_texts().len(),
        ensures
            r.0@ == self.key_texts()[i as int],
            self@.contains_key(r.0@),
            self@[r.0@] == *r.1,
    {
        proof {
            use_type_invariant(self);
            assert(self.key_texts().contains(self.key_texts()[i as int]));
        }
        let key = self.keys[i].as_str();
        assert(key@ == self.key_texts()[i as int]);
        let value = self.values.get(key);
        (key, value.unwrap())
    }

    /// The keys, each once, in the order in which they came.
    pub fn keys(&self) -> (r: Vec<String>)
        ensures
            strings::texts(r@) == self.key_texts(),
            self.key_texts().no_duplicates(),
            forall|k: Seq<char>|
                self@.contains_key(k) <==> #[trigger] self.key_texts().contains(k),
    {
        proof {
            use_type_invariant(self);
        }
        text::copy_list(&self.keys)
    }
}

} // verus!
