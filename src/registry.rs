use vstd::prelude::*;
use crate::schema::{find_key, keys_unique, lookup};
use crate::text::text_eq;

verus! {

/// The map that an entry list with unique keys stands for.
pub open spec fn entries_map<V>(s: Seq<(String, V)>) -> Map<Seq<char>, V> {
    Map::new(|k: Seq<char>| lookup(s, k) is Some, |k: Seq<char>| lookup(s, k)->0)
}

proof fn lemma_lookup_at<V>(s: Seq<(String, V)>, k: Seq<char>, i: int)
    requires
        keys_unique(s),
        0 <= i < s.len(),
        s[i].0@ == k,
    ensures
        lookup(s, k) == Some(s[i].1),
    decreases s.len(),
{
    if i > 0 {
        assert(s[0].0@ != s[i].0@);
        let t = s.drop_first();
        assert(t[i - 1] == s[i]);
        assert forall|a: int, b: int| 0 <= a < b < t.len() implies t[a].0@ != t[b].0@ by {
            assert(t[a] == s[a + 1] && t[b] == s[b + 1]);
        }
        lemma_lookup_at(t, k, i - 1);
    }
}

proof fn lemma_lookup_absent<V>(s: Seq<(String, V)>, k: Seq<char>)
    requires
        forall|j: int| 0 <= j < s.len() ==> (#[trigger] s[j]).0@ != k,
    ensures
        lookup(s, k) is None,
    decreases s.len(),
{
    if s.len() > 0 {
        let t = s.drop_first();
        assert forall|j: int| 0 <= j < t.len() implies (#[trigger] t[j]).0@ != k by {
            assert(t[j] == s[j + 1]);
        }
        lemma_lookup_absent(t, k);
    }
}

proof fn lemma_lookup_some<V>(s: Seq<(String, V)>, k: Seq<char>) -> (i: int)
    requires
        lookup(s, k) is Some,
    ensures
        0 <= i < s.len(),
        s[i].0@ == k,
        lookup(s, k) == Some(s[i].1),
    decreases s.len(),
{
    if s[0].0@ == k {
        0
    } else {
        let t = s.drop_first();
        let j = lemma_lookup_some(t, k);
        assert(t[j] == s[j + 1]);
        j + 1
    }
}

/// Changing the value of one entry, its key kept, changes the map at that key only.
proof fn lemma_update_value<V>(s0: Seq<(String, V)>, s1: Seq<(String, V)>, i: int, v: V)
    requires
        keys_unique(s0),
        0 <= i < s0.len(),
        s1.len() == s0.len(),
        forall|j: int| 0 <= j < s0.len() && j != i ==> s1[j] == s0[j],
        s1[i].0@ == s0[i].0@,
        s1[i].1 == v,
    ensures
        keys_unique(s1),
        entries_map(s1) == entries_map(s0).insert(s0[i].0@, v),
{
    let addr = s0[i].0@;
    assert forall|a: int, b: int| 0 <= a < b < s1.len() implies s1[a].0@ != s1[b].0@ by {
        assert(s1[a].0@ == s0[a].0@ && s1[b].0@ == s0[b].0@);
    }
    assert forall|k: Seq<char>| #[trigger] lookup(s1, k) == (if k == addr {
        Some(v)
    } else {
        lookup(s0, k)
    }) by {
        if k == addr {
            lemma_lookup_at(s1, k, i);
        } else if lookup(s0, k) is Some {
            let j = lemma_lookup_some(s0, k);
            lemma_lookup_at(s1, k, j);
        } else {
            assert forall|j: int| 0 <= j < s1.len() implies (#[trigger] s1[j]).0@ != k by {
                if s0[j].0@ == k {
                    lemma_lookup_at(s0, k, j);
                }
            }
            lemma_lookup_absent(s1, k);
        }
    }
    assert(entries_map(s1) =~= entries_map(s0).insert(addr, v));
}

/// The live instances, one per contract address.
pub struct Registry<T> {
    entries: Vec<(String, T)>,
}

impl<T> View for Registry<T> {
    type V = Map<Seq<char>, T>;

    closed spec fn view(&self) -> Map<Seq<char>, T> {
        entries_map(self.entries@)
    }
}

impl<T> Registry<T> {
    /// No address holds two instances.
    pub closed spec fn wf(&self) -> bool {
        keys_unique(self.entries@)
    }

    /// An empty registry.
    pub fn new() -> (r: Registry<T>)
        ensures
            r.wf(),
            r@ == Map::<Seq<char>, T>::empty(),
    {
        let r = Registry { entries: Vec::new() };
        assert(r@ =~= Map::<Seq<char>, T>::empty());
        r
    }

    /// Whether an instance is registered under `addr`.
    pub fn contains(&self, addr: &str) -> (r: bool)
        ensures
            r == self@.contains_key(addr@),
    {
        find_key(&self.entries, addr).is_some()
    }

    /// The instance registered under `addr`.
    pub fn get(&self, addr: &str) -> (r: Option<&T>)
        ensures
            match r {
                Some(v) => self@.contains_key(addr@) && self@[addr@] == *v,
                None => !self@.contains_key(addr@),
            },
    {
        match find_key(&self.entries, addr) {
            Some(i) => Some(&self.entries[i].1),
            None => None,
        }
    }

    /// The instance registered under `addr`, for a call that changes it.
    pub fn get_mut(&mut self, addr: &str) -> (r: Option<&mut T>)
        requires
            old(self).wf(),
        ensures
            match r {
                Some(v) => old(self)@.contains_key(addr@) && *v == old(self)@[addr@]
                    && final(self).wf() && final(self)@ == old(self)@.insert(addr@, *final(v)),
                None => !old(self)@.contains_key(addr@) && final(self).wf() && final(self)@
                    == old(self)@,
            },
    {
        match find_key(&self.entries, addr) {
            Some(i) => {
                let ghost s0 = self.entries@;
                proof {
                    lemma_lookup_at(s0, addr@, i as int);
                    assert forall|v: T| #[trigger] keys_unique(s0.update(i as int, (s0[i as int].0, v)))
                        && entries_map(s0.update(i as int, (s0[i as int].0, v))) == entries_map(
                        s0,
                    ).insert(addr@, v) by {
                        lemma_update_value(s0, s0.update(i as int, (s0[i as int].0, v)), i as int, v);
                    }
                }
                let entry = &mut self.entries[i];
                Some(&mut entry.1)
            },
            None => None,
        }
    }

    /// Whether two or more contracts are registered.
    pub fn has_several(&self) -> (r: bool)
        requires
            self.wf(),
        ensures
            r == (exists|a: Seq<char>, b: Seq<char>|
                a != b && self@.contains_key(a) && self@.contains_key(b)),
    {
        let r = self.entries.len() > 1;
        proof {
            let s = self.entries@;
            if r {
                lemma_lookup_at(s, s[0].0@, 0);
                lemma_lookup_at(s, s[1].0@, 1);
                assert(self@.contains_key(s[0].0@) && self@.contains_key(s[1].0@));
            } else {
                assert forall|a: Seq<char>, b: Seq<char>|
                    self@.contains_key(a) && self@.contains_key(b) implies a == b by {
                    let i = lemma_lookup_some(s, a);
                    let j = lemma_lookup_some(s, b);
                }
            }
        }
        r
    }

    /// The registered addresses, each once.
    pub fn addresses(&self) -> (r: Vec<String>)
        requires
            self.wf(),
        ensures
            forall|k: Seq<char>| self@.contains_key(k) <==> exists|i: int|
                0 <= i < r@.len() && (#[trigger] r@[i])@ == k,
            forall|i: int, j: int| 0 <= i < j < r@.len() ==> r@[i]@ != r@[j]@,
    {
        let mut r: Vec<String> = Vec::new();
        let mut i: usize = 0;
        while i < self.entries.len()
            invariant
                i <= self.entries@.len(),
                r@.len() == i,
                forall|j: int| 0 <= j < i ==> (#[trigger] r@[j])@ == self.entries@[j].0@,
            decreases self.entries@.len() - i,
        {
            r.push(self.entries[i].0.clone());
            i = i + 1;
        }
        proof {
            let s = self.entries@;
            assert forall|k: Seq<char>| self@.contains_key(k) implies exists|i: int|
                0 <= i < r@.len() && (#[trigger] r@[i])@ == k by {
                let i = lemma_lookup_some(s, k);
                assert(r@[i]@ == k);
            }
            assert forall|k: Seq<char>| (exists|i: int| 0 <= i < r@.len() && (#[trigger] r@[i])@ == k)
                implies self@.contains_key(k) by {
                let i = choose|i: int| 0 <= i < r@.len() && (#[trigger] r@[i])@ == k;
                lemma_lookup_at(s, k, i);
            }
        }
        r
    }

    /// Registers `inst` under `addr`, replacing whole any instance already there.
    pub fn upsert(&mut self, addr: &str, inst: T)
        requires
            old(self).wf(),
        ensures
            final(self).wf(),
            final(self)@ == old(self)@.insert(addr@, inst),
    {
        let ghost s0 = self.entries@;
        match find_key(&self.entries, addr) {
            Some(i) => {
                self.entries.set(i, (String::from_str(addr), inst));
                proof {
                    let s1 = self.entries@;
                    assert forall|a: int, b: int| 0 <= a < b < s1.len() implies s1[a].0@ != s1[b].0@ by {
                        assert(s1[a].0@ == s0[a].0@ && s1[b].0@ == s0[b].0@);
                    }
                    assert forall|k: Seq<char>| #[trigger] lookup(s1, k) == (if k == addr@ {
                        Some(inst)
                    } else {
                        lookup(s0, k)
                    }) by {
                        if k == addr@ {
                            lemma_lookup_at(s1, k, i as int);
                        } else if lookup(s0, k) is Some {
                            let j = lemma_lookup_some(s0, k);
                            lemma_lookup_at(s1, k, j);
                        } else {
                            assert forall|j: int| 0 <= j < s1.len() implies (#[trigger] s1[j]).0@ != k by {
                                if s0[j].0@ == k {
                                    lemma_lookup_at(s0, k, j);
                                }
                            }
                            lemma_lookup_absent(s1, k);
                        }
                    }
                    assert(self@ =~= old(self)@.insert(addr@, inst));
                }
            },
            None => {
                self.entries.push((String::from_str(addr), inst));
                proof {
                    let s1 = self.entries@;
                    assert forall|j: int| 0 <= j < s0.len() implies (#[trigger] s0[j]).0@ != addr@ by {
                        if s0[j].0@ == addr@ {
                            lemma_lookup_at(s0, addr@, j);
                        }
                    }
                    assert forall|a: int, b: int| 0 <= a < b < s1.len() implies s1[a].0@ != s1[b].0@ by {
                        assert(s1[a] == s0[a] || a == s0.len());
                    }
                    assert forall|k: Seq<char>| #[trigger] lookup(s1, k) == (if k == addr@ {
                        Some(inst)
                    } else {
                        lookup(s0, k)
                    }) by {
                        if k == addr@ {
                            lemma_lookup_at(s1, k, s0.len() as int);
                        } else if lookup(s0, k) is Some {
                            let j = lemma_lookup_some(s0, k);
                            lemma_lookup_at(s1, k, j);
                        } else {
                            assert forall|j: int| 0 <= j < s1.len() implies (#[trigger] s1[j]).0@ != k by {
                                if j < s0.len() && s0[j].0@ == k {
                                    lemma_lookup_at(s0, k, j);
                                }
                            }
                            lemma_lookup_absent(s1, k);
                        }
                    }
                    assert(self@ =~= old(self)@.insert(addr@, inst));
                }
            },
        }
    }

    /// Installs the outcome of building an instance for `addr`: a built instance
    /// replaces whole whatever was there; a failed build leaves the registry as it
    /// was, so an address that had a usable instance keeps it, and hands the error back.
    pub fn install<E>(&mut self, addr: &str, built: Result<T, E>) -> (r: Result<(), E>)
        requires
            old(self).wf(),
        ensures
            final(self).wf(),
            match built {
                Ok(inst) => r is Ok && final(self)@ == old(self)@.insert(addr@, inst),
                Err(e) => r == Err::<(), E>(e) && final(self)@ == old(self)@,
            },
    {
        match built {
            Ok(inst) => {
                self.upsert(addr, inst);
                Ok(())
            },
            Err(e) => Err(e),
        }
    }
}

} // verus!
