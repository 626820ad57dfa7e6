use vstd::prelude::*;
use crate::registry::Registry;

verus! {

/// The last modification time seen for each tracked artifact, by position in the
/// artifact list; none before the first sighting.
pub struct WatchState {
    pub last: Vec<Option<u64>>,
}

/// Whether an artifact needs a rebuild, given the time last seen and the time now
/// read (none when it could not be read).
pub open spec fn changed_spec(last: Option<u64>, observed: Option<u64>) -> bool {
    match observed {
        Some(t) => last != Some(t),
        None => true,
    }
}

/// The time recorded after an observation.
pub open spec fn recorded_spec(last: Option<u64>, observed: Option<u64>) -> Option<u64> {
    match observed {
        Some(t) => Some(t),
        None => last,
    }
}

/// How a rebuilt instance's storage is seeded.
#[derive(PartialEq, Eq, Structural, Clone, Copy, Debug)]
pub enum ReloadSeed {
    /// From a snapshot of the instance registered now at that address.
    FromCurrent,
    /// From empty storage: the address has no instance yet.
    Fresh,
}

impl WatchState {
    /// A state that has seen none of `n` artifacts.
    pub fn new(n: usize) -> (r: WatchState)
        ensures
            r.last@.len() == n,
            forall|i: int| 0 <= i < n ==> r.last@[i] is None,
    {
        let mut last: Vec<Option<u64>> = Vec::new();
        let mut i: usize = 0;
        while i < n
            invariant
                i <= n,
                last@.len() == i,
                forall|j: int| 0 <= j < i ==> last@[j] is None,
            decreases n - i,
        {
            last.push(None);
            i = i + 1;
        }
        WatchState { last }
    }

    /// Records one poll of artifact `index` and says whether it must be rebuilt.
    pub fn observe(&mut self, index: usize, observed: Option<u64>) -> (r: bool)
        requires
            index < old(self).last@.len(),
        ensures
            r == changed_spec(old(self).last@[index as int], observed),
            final(self).last@ == old(self).last@.update(
                index as int,
                recorded_spec(old(self).last@[index as int], observed),
            ),
    {
        let last = self.last[index];
        match observed {
            Some(t) => {
                let same = match last {
                    Some(l) => l == t,
                    None => false,
                };
                self.last.set(index, Some(t));
                !same
            },
            None => {
                self.last.set(index, last);
                true
            },
        }
    }

    /// Records one poll of every artifact, `observed[i]` being the time read for
    /// artifact `i`, and lists, in order, the positions that must be rebuilt.
    pub fn poll(&mut self, observed: &Vec<Option<u64>>) -> (r: Vec<usize>)
        requires
            observed@.len() == old(self).last@.len(),
        ensures
            final(self).last@.len() == old(self).last@.len(),
            forall|i: int| 0 <= i < observed@.len() ==> #[trigger] final(self).last@[i] == recorded_spec(
                old(self).last@[i],
                observed@[i],
            ),
            forall|i: int| 0 <= i < r@.len() ==> r@[i] < observed@.len(),
            forall|i: int, j: int| 0 <= i < j < r@.len() ==> r@[i] < r@[j],
            forall|k: usize| k < observed@.len() ==> (r@.contains(k) <==> changed_spec(
                old(self).last@[k as int],
                observed@[k as int],
            )),
    {
        let ghost old_last = self.last@;
        let mut r: Vec<usize> = Vec::new();
        let mut i: usize = 0;
        while i < observed.len()
            invariant
                i <= observed@.len(),
                observed@.len() == old_last.len(),
                self.last@.len() == old_last.len(),
                forall|j: int| 0 <= j < i ==> #[trigger] self.last@[j] == recorded_spec(old_last[j], observed@[j]),
                forall|j: int| i <= j < old_last.len() ==> #[trigger] self.last@[j] == old_last[j],
                forall|j: int| 0 <= j < r@.len() ==> r@[j] < i,
                forall|a: int, b: int| 0 <= a < b < r@.len() ==> r@[a] < r@[b],
                forall|k: usize| k < i ==> (r@.contains(k) <==> changed_spec(old_last[k as int], observed@[k as int])),
            decreases observed@.len() - i,
        {
            let ghost r0 = r@;
            let ch = self.observe(i, observed[i]);
            if ch {
                r.push(i);
            }
            proof {
                assert(ch == changed_spec(old_last[i as int], observed@[i as int]));
                assert forall|k: usize| k < i + 1 implies (r@.contains(k) <==> changed_spec(
                    old_last[k as int],
                    observed@[k as int],
                )) by {
                    if r0.contains(k) {
                        let j = choose|j: int| 0 <= j < r0.len() && r0[j] == k;
                        assert(r@[j] == k);
                    }
                    if r@.contains(k) {
                        let j = choose|j: int| 0 <= j < r@.len() && r@[j] == k;
                        if j < r0.len() {
                            assert(r0[j] == k);
                        }
                    }
                    if k == i && ch {
                        assert(r@[r@.len() - 1] == k);
                    }
                }
            }
            i = i + 1;
        }
        r
    }
}

/// How a rebuild of the artifact of `addr` seeds its storage: from the instance
/// registered there now, so that its state is carried across the reload, or empty
/// on the first sighting.
pub fn reload_seed<T>(registry: &Registry<T>, addr: &str) -> (r: ReloadSeed)
    ensures
        (r == ReloadSeed::FromCurrent) == registry@.contains_key(addr@),
        (r == ReloadSeed::Fresh) == !registry@.contains_key(addr@),
{
    if registry.contains(addr) {
        ReloadSeed::FromCurrent
    } else {
        ReloadSeed::Fresh
    }
}

/// The address that the session starts with once every artifact had its first
/// pass: that of the first artifact, if there is one.
pub fn ready_address(addresses: &Vec<String>) -> (r: Option<String>)
    ensures
        match r {
            Some(a) => addresses@.len() > 0 && a@ == addresses@[0]@,
            None => addresses@.len() == 0,
        },
{
    if addresses.len() > 0 {
        Some(addresses[0].clone())
    } else {
        None
    }
}

} // verus!
