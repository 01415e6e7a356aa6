//! A small map keyed by identifier strings, kept as a list in which no
//! identifier occurs twice.

use vstd::prelude::*;
use vstd::string::*;

verus! {

/// One identifier with what is stored under it.
struct Entry<V> {
    id: String,
    value: V,
}

/// A map from identifier strings to values.
pub struct IdMap<V> {
    entries: Vec<Entry<V>>,
}

spec fn distinct_ids<V>(es: Seq<Entry<V>>) -> bool {
    forall|i: int, j: int|
        0 <= i < j < es.len() ==> (#[trigger] es[i]).id@ != (#[trigger] es[j]).id@
}

spec fn has_id<V>(es: Seq<Entry<V>>, k: Seq<char>) -> bool {
    exists|i: int| 0 <= i < es.len() && (#[trigger] es[i]).id@ == k
}

spec fn index_of<V>(es: Seq<Entry<V>>, k: Seq<char>) -> int {
    choose|i: int| 0 <= i < es.len() && (#[trigger] es[i]).id@ == k
}

spec fn model<V>(es: Seq<Entry<V>>) -> Map<Seq<char>, V> {
    Map::new(|k: Seq<char>| has_id(es, k), |k: Seq<char>| es[index_of(es, k)].value)
}

proof fn lemma_index<V>(es: Seq<Entry<V>>, i: int)
    requires
        distinct_ids(es),
        0 <= i < es.len(),
    ensures
        has_id(es, es[i].id@),
        index_of(es, es[i].id@) == i,
{
    let k = es[i].id@;
    let j = index_of(es, k);
    assert(0 <= j < es.len() && es[j].id@ == k);
}

proof fn lemma_push<V>(es: Seq<Entry<V>>, e: Entry<V>)
    requires
        distinct_ids(es),
        !has_id(es, e.id@),
    ensures
        distinct_ids(es.push(e)),
        model(es.push(e)) == model(es).insert(e.id@, e.value),
{
    let after = es.push(e);
    assert forall|i: int, j: int| 0 <= i < j < after.len() implies (#[trigger] after[i]).id@ != (
    #[trigger] after[j]).id@ by {
        if j == es.len() {
            assert(es[i].id@ != e.id@);
        } else {
            assert(es[i].id@ != es[j].id@);
        }
    }
    assert forall|k: Seq<char>| has_id(after, k) <==> (k == e.id@ || has_id(es, k)) by {
        if has_id(after, k) {
            let i = index_of(after, k);
            if i < es.len() {
                assert(es[i].id@ == k);
            }
        }
        if k == e.id@ {
            assert(after[es.len() as int].id@ == k);
        }
        if has_id(es, k) {
            let i = index_of(es, k);
            assert(after[i].id@ == k);
        }
    }
    assert forall|k: Seq<char>| has_id(after, k) implies #[trigger] model(after)[k] == model(
        es,
    ).insert(e.id@, e.value)[k] by {
        let i = index_of(after, k);
        lemma_index(after, i);
        if i < es.len() {
            assert(es[i].id@ == k);
            lemma_index(es, i);
        }
    }
    assert(model(after) =~= model(es).insert(e.id@, e.value));
}

proof fn lemma_remove<V>(es: Seq<Entry<V>>, at: int)
    requires
        distinct_ids(es),
        0 <= at < es.len(),
    ensures
        distinct_ids(es.remove(at)),
        !has_id(es.remove(at), es[at].id@),
        model(es.remove(at)) == model(es).remove(es[at].id@),
{
    let after = es.remove(at);
    let gone = es[at].id@;
    assert forall|i: int| 0 <= i < after.len() implies #[trigger] after[i] == es[if i < at {
        i
    } else {
        i + 1
    }] by {}
    assert forall|i: int, j: int| 0 <= i < j < after.len() implies (#[trigger] after[i]).id@ != (
    #[trigger] after[j]).id@ by {
        let a = if i < at {
            i
        } else {
            i + 1
        };
        let b = if j < at {
            j
        } else {
            j + 1
        };
        assert(es[a].id@ != es[b].id@);
    }
    assert forall|k: Seq<char>| has_id(after, k) <==> (k != gone && has_id(es, k)) by {
        if has_id(after, k) {
            let i = index_of(after, k);
            let a = if i < at {
                i
            } else {
                i + 1
            };
            assert(es[a].id@ == k);
            if a < at {
                assert(es[a].id@ != es[at].id@);
            } else {
                assert(es[at].id@ != es[a].id@);
            }
        }
        if k != gone && has_id(es, k) {
            let a = index_of(es, k);
            let i = if a < at {
                a
            } else {
                a - 1
            };
            assert(after[i].id@ == k);
        }
    }
    assert forall|k: Seq<char>| has_id(after, k) implies #[trigger] model(after)[k] == model(
        es,
    ).remove(gone)[k] by {
        let i = index_of(after, k);
        lemma_index(after, i);
        let a = if i < at {
            i
        } else {
            i + 1
        };
        assert(es[a].id@ == k);
        lemma_index(es, a);
    }
    assert(model(after) =~= model(es).remove(gone));
}

impl<V> View for IdMap<V> {
    type V = Map<Seq<char>, V>;

    closed spec fn view(&self) -> Map<Seq<char>, V> {
        model(self.entries@)
    }
}

impl<V> IdMap<V> {
    #[verifier::type_invariant]
    spec fn well_formed(&self) -> bool {
        distinct_ids(self.entries@)
    }

    /// A map that holds nothing.
    pub fn new() -> (m: Self)
        ensures
            m@ == Map::<Seq<char>, V>::empty(),
    {
        let m = IdMap { entries: Vec::new() };
        assert(m@ =~= Map::<Seq<char>, V>::empty());
        m
    }

    fn position(&self, id: &str) -> (r: Option<usize>)
        ensures
            match r {
                Some(i) => i < self.entries.len() && self.entries[i as int].id@ == id@,
                None => !has_id(self.entries@, id@),
            },
    {
        let key = id.to_owned();
        let n: usize = self.entries.len();
        let mut i: usize = 0;
        while i < n
            invariant
                n == self.entries.len(),
                i <= n,
                key@ == id@,
                forall|j: int| 0 <= j < i ==> (#[trigger] self.entries[j]).id@ != id@,
            decreases n - i,
        {
            if self.entries[i].id == key {
                return Some(i);
            }
            i = i + 1;
        }
        None
    }

    /// Whether something is stored under `id`.
    pub fn contains_key(&self, id: &str) -> (b: bool)
        ensures
            b == self@.dom().contains(id@),
    {
        match self.position(id) {
            Some(i) => {
                assert(self.entries@[i as int].id@ == id@);
                true
            },
            None => false,
        }
    }

    /// What is stored under `id`.
    pub fn get(&self, id: &str) -> (r: Option<&V>)
        ensures
            match r {
                Some(v) => self@.dom().contains(id@) && *v == self@[id@],
                None => !self@.dom().contains(id@),
            },
    {
        proof {
            use_type_invariant(self);
        }
        match self.position(id) {
            Some(i) => {
                proof {
                    lemma_index(self.entries@, i as int);
                }
                Some(&self.entries[i].value)
            },
            None => None,
        }
    }

    /// Stores `value` under `id` and hands back what was stored there
    /// before.
    pub fn insert(&mut self, id: String, value: V) -> (previous: Option<V>)
        ensures
            final(self)@ == old(self)@.insert(id@, value),
            previous == if old(self)@.dom().contains(id@) {
                Some(old(self)@[id@])
            } else {
                None::<V>
            },
    {
        proof {
            use_type_invariant(&*self);
        }
        let found = self.position(id.as_str());
        let mut entries: Vec<Entry<V>> = Vec::new();
        std::mem::swap(&mut entries, &mut self.entries);
        let ghost before = entries@;
        let previous = match found {
            Some(i) => {
                proof {
                    lemma_index(before, i as int);
                    lemma_remove(before, i as int);
                }
                let e = entries.remove(i);
                Some(e.value)
            },
            None => None,
        };
        let ghost middle = entries@;
        let entry = Entry { id, value };
        proof {
            lemma_push(middle, entry);
            assert(model(before).remove(id@).insert(id@, value) =~= model(before).insert(
                id@,
                value,
            ));
            if found is None {
                assert(model(before).remove(id@) =~= model(before));
            }
        }
        entries.push(entry);
        self.entries = entries;
        previous
    }

    /// Removes what is stored under `id` and hands it back.
    pub fn remove(&mut self, id: &str) -> (removed: Option<V>)
        ensures
            final(self)@ == old(self)@.remove(id@),
            removed == if old(self)@.dom().contains(id@) {
                Some(old(self)@[id@])
            } else {
                None::<V>
            },
    {
        proof {
            use_type_invariant(&*self);
        }
        match self.position(id) {
            Some(i) => {
                let mut entries: Vec<Entry<V>> = Vec::new();
                std::mem::swap(&mut entries, &mut self.entries);
                proof {
                    lemma_index(entries@, i as int);
                    lemma_remove(entries@, i as int);
                }
                let e = entries.remove(i);
                self.entries = entries;
                Some(e.value)
            },
            None => {
                assert(self@.remove(id@) =~= self@);
                None
            },
        }
    }

    /// The identifiers in use, each once.
    pub fn keys(&self) -> (out: Vec<String>)
        ensures
            forall|k: Seq<char>|
                self@.dom().contains(k) <==> exists|i: int|
                    0 <= i < out.len() && (#[trigger] out[i])@ == k,
            forall|i: int, j: int| 0 <= i < j < out.len() ==> out[i]@ != out[j]@,
    {
        proof {
            use_type_invariant(self);
        }
        let n: usize = self.entries.len();
        let mut out: Vec<String> = Vec::new();
        let mut i: usize = 0;
        while i < n
            invariant
                n == self.entries.len(),
                i <= n,
                out.len() == i,
                forall|j: int| 0 <= j < i ==> (#[trigger] out[j])@ == self.entries[j].id@,
            decreases n - i,
        {
            out.push(self.entries[i].id.clone());
            i = i + 1;
        }
        proof {
            assert forall|k: Seq<char>| self@.dom().contains(k) <==> exists|i: int|
                0 <= i < out.len() && (#[trigger] out[i])@ == k by {
                if self@.dom().contains(k) {
                    let a = index_of(self.entries@, k);
                    assert(out[a]@ == k);
                }
                if exists|i: int| 0 <= i < out.len() && (#[trigger] out[i])@ == k {
                    let a = choose|i: int| 0 <= i < out.len() && (#[trigger] out[i])@ == k;
                    assert(self.entries@[a].id@ == k);
                }
            }
            assert forall|i: int, j: int| 0 <= i < j < out.len() implies out[i]@ != out[j]@ by {
                assert(self.entries@[i].id@ != self.entries@[j].id@);
            }
        }
        out
    }
}

} // verus!
