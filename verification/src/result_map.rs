//! The map that a source hands back: normalized keys, each bound to one value.

use crate::value::{Value, ValueView};
use vstd::prelude::*;
use vstd::string::*;

verus! {

/// The map that a list of bindings denotes when each binding in turn is
/// written over what came before it.
pub open spec fn bindings_map(s: Seq<(String, Value)>) -> Map<Seq<char>, ValueView>
    decreases s.len(),
{
    if s.len() == 0 {
        Map::empty()
    } else {
        bindings_map(s.drop_last()).insert(s.last().0@, s.last().1@)
    }
}

/// Whether no key occurs twice in a list of bindings.
pub open spec fn distinct_keys(s: Seq<(String, Value)>) -> bool {
    forall|i: int, j: int| 0 <= i < j < s.len() ==> (#[trigger] s[i]).0@ != (#[trigger] s[j]).0@
}

/// A key is bound in the denoted map exactly when some binding carries it.
pub proof fn lemma_bindings_domain(s: Seq<(String, Value)>, k: Seq<char>)
    ensures
        bindings_map(s).dom().contains(k) <==> exists|i: int|
            0 <= i < s.len() && (#[trigger] s[i]).0@ == k,
    decreases s.len(),
{
    if s.len() > 0 {
        let front = s.drop_last();
        lemma_bindings_domain(front, k);
        if bindings_map(s).dom().contains(k) {
            if s.last().0@ == k {
                assert(s[s.len() - 1].0@ == k);
            } else {
                let i = choose|i: int| 0 <= i < front.len() && (#[trigger] front[i]).0@ == k;
                assert(s[i].0@ == k);
            }
        }
        if exists|i: int| 0 <= i < s.len() && (#[trigger] s[i]).0@ == k {
            let i = choose|i: int| 0 <= i < s.len() && (#[trigger] s[i]).0@ == k;
            if i < s.len() - 1 {
                assert(front[i].0@ == k);
            }
        }
    }
}

/// With distinct keys, every binding is found in the denoted map under its key.
pub proof fn lemma_bindings_lookup(s: Seq<(String, Value)>, i: int)
    requires
        distinct_keys(s),
        0 <= i < s.len(),
    ensures
        bindings_map(s).dom().contains(s[i].0@),
        bindings_map(s)[s[i].0@] == s[i].1@,
    decreases s.len(),
{
    let front = s.drop_last();
    if i < s.len() - 1 {
        assert(distinct_keys(front)) by {
            assert forall|a: int, b: int| 0 <= a < b < front.len() implies (#[trigger] front[a]).0@
                != (#[trigger] front[b]).0@ by {
                assert(front[a] == s[a] && front[b] == s[b]);
            }
        }
        lemma_bindings_lookup(front, i);
        assert(front[i] == s[i]);
        assert(s[i].0@ != s[s.len() - 1].0@);
    }
}

/// With distinct keys, the denoted map has as many keys as there are bindings.
pub proof fn lemma_bindings_count(s: Seq<(String, Value)>)
    requires
        distinct_keys(s),
    ensures
        bindings_map(s).dom().finite(),
        bindings_map(s).dom().len() == s.len(),
    decreases s.len(),
{
    if s.len() > 0 {
        let front = s.drop_last();
        assert(distinct_keys(front)) by {
            assert forall|a: int, b: int| 0 <= a < b < front.len() implies (#[trigger] front[a]).0@
                != (#[trigger] front[b]).0@ by {
                assert(front[a] == s[a] && front[b] == s[b]);
            }
        }
        lemma_bindings_count(front);
        lemma_bindings_domain(front, s.last().0@);
        if bindings_map(front).dom().contains(s.last().0@) {
            let i = choose|i: int| 0 <= i < front.len() && (#[trigger] front[i]).0@ == s.last().0@;
            assert(front[i] == s[i]);
            assert(s[i].0@ != s[s.len() - 1].0@);
        }
        assert(bindings_map(s).dom() =~= bindings_map(front).dom().insert(s.last().0@));
    }
}

/// Writing a new value over the binding at `i` is writing it into the map.
pub proof fn lemma_bindings_overwrite(s: Seq<(String, Value)>, i: int, b: (String, Value))
    requires
        0 <= i < s.len(),
        distinct_keys(s),
        s[i].0@ == b.0@,
    ensures
        distinct_keys(s.update(i, b)),
        bindings_map(s.update(i, b)) == bindings_map(s).insert(b.0@, b.1@),
    decreases s.len(),
{
    let t = s.update(i, b);
    assert(distinct_keys(t)) by {
        assert forall|x: int, y: int| 0 <= x < y < t.len() implies (#[trigger] t[x]).0@ != (
        #[trigger] t[y]).0@ by {
            assert(t[x].0@ == s[x].0@ && t[y].0@ == s[y].0@);
        }
    }
    let front = s.drop_last();
    if i == s.len() - 1 {
        assert(t.drop_last() =~= front);
        assert(bindings_map(t) =~= bindings_map(s).insert(b.0@, b.1@));
    } else {
        assert(distinct_keys(front)) by {
            assert forall|x: int, y: int| 0 <= x < y < front.len() implies (#[trigger] front[x]).0@
                != (#[trigger] front[y]).0@ by {
                assert(front[x] == s[x] && front[y] == s[y]);
            }
        }
        assert(front[i] == s[i]);
        lemma_bindings_overwrite(front, i, b);
        assert(t.drop_last() =~= front.update(i, b));
        assert(t.last() == s.last());
        assert(s[i].0@ != s[s.len() - 1].0@);
        assert(bindings_map(t) =~= bindings_map(s).insert(b.0@, b.1@));
    }
}

/// A map from keys to values in which every key is bound once.
#[derive(Debug)]
pub struct ResultMap {
    bindings: Vec<(String, Value)>,
}

impl View for ResultMap {
    type V = Map<Seq<char>, ValueView>;

    closed spec fn view(&self) -> Map<Seq<char>, ValueView> {
        bindings_map(self.bindings@)
    }
}

impl ResultMap {
    /// The invariant of the map: no key is held twice.
    #[verifier::type_invariant]
    spec fn distinct(&self) -> bool {
        distinct_keys(self.bindings@)
    }

    /// The empty map.
    pub fn new() -> (r: ResultMap)
        ensures
            r@ == Map::<Seq<char>, ValueView>::empty(),
    {
        ResultMap { bindings: Vec::new() }
    }

    /// The number of keys that are bound.
    pub fn len(&self) -> (r: usize)
        ensures
            self@.dom().finite(),
            r == self@.dom().len(),
    {
        proof {
            use_type_invariant(self);
            lemma_bindings_count(self.bindings@);
        }
        self.bindings.len()
    }

    /// Whether no key is bound.
    pub fn is_empty(&self) -> (r: bool)
        ensures
            r == (self@ == Map::<Seq<char>, ValueView>::empty()),
    {
        proof {
            use_type_invariant(self);
            lemma_bindings_count(self.bindings@);
            if self.bindings@.len() == 0 {
            } else {
                assert(self@.dom().len() > 0);
                assert(Map::<Seq<char>, ValueView>::empty().dom().len() == 0);
            }
        }
        self.bindings.len() == 0
    }

    /// The place of `key` among the bindings, if it is bound.
    fn position(&self, key: &str) -> (r: Option<usize>)
        ensures
            r is Some <==> self@.dom().contains(key@),
            r is Some ==> r->0 < self.bindings@.len() && self.bindings@[r->0 as int].0@ == key@,
    {
        let probe = String::from_str(key);
        let mut i: usize = 0;
        while i < self.bindings.len()
            invariant
                i <= self.bindings@.len(),
                probe@ == key@,
                forall|j: int| 0 <= j < i ==> (#[trigger] self.bindings@[j]).0@ != key@,
            decreases self.bindings@.len() - i,
        {
            if self.bindings[i].0 == probe {
                proof {
                    lemma_bindings_domain(self.bindings@, key@);
                }
                return Some(i);
            }
            i += 1;
        }
        proof {
            lemma_bindings_domain(self.bindings@, key@);
        }
        None
    }

    /// Whether `key` is bound.
    pub fn contains_key(&self, key: &str) -> (r: bool)
        ensures
            r == self@.dom().contains(key@),
    {
        self.position(key).is_some()
    }

    /// The value that `key` is bound to, if it is bound.
    pub fn get(&self, key: &str) -> (r: Option<&Value>)
        ensures
            r is Some <==> self@.dom().contains(key@),
            r is Some ==> r->0@ == self@[key@],
    {
        match self.position(key) {
            Some(i) => {
                proof {
                    use_type_invariant(self);
                    lemma_bindings_lookup(self.bindings@, i as int);
                }
                Some(&self.bindings[i].1)
            },
            None => None,
        }
    }

    /// Binds `key` to `value`, in place of what `key` was bound to before.
    pub fn insert(&mut self, key: String, value: Value)
        ensures
            final(self)@ == old(self)@.insert(key@, value@),
    {
        proof {
            use_type_invariant(&*self);
        }
        let place = self.position(key.as_str());
        let mut held: Vec<(String, Value)> = Vec::new();
        core::mem::swap(&mut self.bindings, &mut held);
        match place {
            Some(i) => {
                proof {
                    lemma_bindings_overwrite(held@, i as int, (key, value));
                }
                held.set(i, (key, value));
            },
            None => {
                proof {
                    lemma_bindings_domain(held@, key@);
                    let s = held@.push((key, value));
                    assert(s.drop_last() =~= held@);
                    assert(distinct_keys(s)) by {
                        assert forall|x: int, y: int| 0 <= x < y < s.len() implies (
                        #[trigger] s[x]).0@ != (#[trigger] s[y]).0@ by {
                            if y == s.len() - 1 {
                                assert(held@[x].0@ != key@);
                            } else {
                                assert(held@[x].0@ != held@[y].0@);
                            }
                        }
                    }
                }
                held.push((key, value));
            },
        }
        core::mem::swap(&mut self.bindings, &mut held);
    }

    /// Gives up the map for its bindings, each key once, in no stated order.
    pub fn into_bindings(self) -> (r: Vec<(String, Value)>)
        ensures
            distinct_keys(r@),
            bindings_map(r@) == self@,
    {
        proof {
            use_type_invariant(&self);
        }
        self.bindings
    }
}

} // verus!
