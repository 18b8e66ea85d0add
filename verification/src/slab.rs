//! Index-keyed store for the active sessions.
//!
//! Freed indices are threaded into a free list through the entries
//! themselves, so insertion and removal are O(1) and a freed index is handed
//! out again before the backing vector grows.

use vstd::prelude::*;
use vstd::seq_lib::*;
use vstd::set_lib::*;

verus! {

struct Entry<T> {
    data: Option<T>,
    next: usize,
}

/// Fixed-capacity index-keyed store with O(1) insert and remove.
pub struct Slab<T> {
    data: Vec<Entry<T>>,
    next: usize,
    len: usize,
    limit_len: usize,
    free: Ghost<Seq<usize>>,
}

impl<T> Slab<T> {
    /// The occupied indices and the values they hold.
    pub closed spec fn view(&self) -> Map<int, T> {
        Map::new(
            |i: int| 0 <= i < self.data.len() && self.data[i].data is Some,
            |i: int| self.data[i].data.unwrap(),
        )
    }

    /// Number of occupied entries.
    pub closed spec fn count(&self) -> nat {
        self.len as nat
    }

    /// Most entries the slab accepts at once.
    pub closed spec fn limit(&self) -> nat {
        self.limit_len as nat
    }

    /// Size of the backing vector; every index handed out so far is below it.
    pub closed spec fn slots(&self) -> nat {
        self.data.len() as nat
    }

    /// The freed indices awaiting reuse, most recently freed first.  The
    /// next push takes the head; with the list empty it grows the vector.
    pub closed spec fn free_list(&self) -> Seq<usize> {
        self.free@
    }

    /// Number of freed indices awaiting reuse.
    pub open spec fn holes(&self) -> nat {
        self.free_list().len()
    }

    /// The free list visits exactly the vacant entries, each once, ending at
    /// the vector's length; the occupancy counter matches.
    pub closed spec fn wf(&self) -> bool {
        let free = self.free@;
        let n = self.data.len() as int;
        &&& free.no_duplicates()
        &&& forall|i: int| 0 <= i < free.len() ==> (#[trigger] free[i]) < n
        &&& forall|i: int|
            0 <= i < free.len() ==> (#[trigger] self.data[free[i] as int].data) is None
        &&& forall|j: int|
            0 <= j < n && (#[trigger] self.data[j].data) is None ==> free.contains(j as usize)
        &&& self.next == if free.len() == 0 {
            n
        } else {
            free[0] as int
        }
        &&& forall|i: int|
            0 <= i < free.len() ==> (#[trigger] self.data[free[i] as int].next) == if i + 1
                < free.len() {
                free[i + 1] as int
            } else {
                n
            }
        &&& self.len + free.len() == n
    }

    /// The counters of a well-formed slab add up.
    pub proof fn lemma_counts(&self)
        requires
            self.wf(),
        ensures
            self.count() + self.holes() == self.slots(),
            self.count() <= self.slots(),
    {
    }

    /// A set of distinct indices below `n` that leaves out the occupied
    /// `key` cannot fill all `n` positions.
    proof fn lemma_free_not_full(free: Seq<usize>, n: int, key: usize)
        requires
            free.no_duplicates(),
            forall|i: int| 0 <= i < free.len() ==> (#[trigger] free[i]) < n,
            0 <= key < n,
            !free.contains(key),
        ensures
            free.len() < n,
    {
        let ints = free.map_values(|u: usize| u as int);
        free.lemma_no_duplicates_injective(|u: usize| u as int);
        ints.unique_seq_to_set();
        let bound = set_int_range(0, n).remove(key as int);
        assert forall|x: int| ints.to_set().contains(x) implies bound.contains(x) by {
            let i = choose|i: int| 0 <= i < ints.len() && ints[i] == x;
            assert(free[i] == x);
            if x == key as int {
                assert(free.contains(key));
            }
        }
        lemma_int_range(0, n);
        lemma_len_subset(ints.to_set(), bound);
        assert(set_int_range(0, n).remove(key as int).len() == n - 1);
    }

    /// Creates an empty slab with no capacity limit.
    pub fn new() -> (s: Slab<T>)
        ensures
            s.wf(),
            s@ === Map::empty(),
            s.count() == 0,
            s.free_list() === Seq::empty(),
            s.holes() == 0,
            s.slots() == 0,
            s.limit() == usize::MAX,
    {
        let s = Slab {
            data: Vec::new(),
            next: 0,
            len: 0,
            limit_len: usize::MAX,
            free: Ghost(Seq::empty()),
        };
        proof {
            assert(s@ =~= Map::empty());
        }
        s
    }

    /// Caps how many entries the slab will hold at once.
    pub fn set_limit_len(&mut self, limit_len: usize) -> (r: &Self)
        ensures
            *r == *final (self),
            final (self).wf() == old(self).wf(),
            final (self)@ == old(self)@,
            final (self).count() == old(self).count(),
            final (self).free_list() == old(self).free_list(),
            final (self).slots() == old(self).slots(),
            final (self).limit() == limit_len,
    {
        self.limit_len = limit_len;
        self
    }

    /// Stores a value and returns its index, or `None` when the slab is at
    /// its capacity limit.  The most recently freed index is reused first;
    /// only with no index free does the backing vector grow.
    pub fn push(&mut self, d: T) -> (r: Option<usize>)
        requires
            old(self).wf(),
        ensures
            final (self).wf(),
            final (self).limit() == old(self).limit(),
            r is None <==> old(self).count() >= old(self).limit(),
            r is None ==> *final (self) == *old(self),
            r matches Some(key) ==> {
                &&& !old(self)@.dom().contains(key as int)
                &&& final (self)@ == old(self)@.insert(key as int, d)
                &&& final (self).count() == old(self).count() + 1
                &&& old(self).holes() > 0 ==> key == old(self).free_list()[0] && key < old(
                    self,
                ).slots() && final (self).slots() == old(self).slots() && final (self).free_list()
                    == old(self).free_list().drop_first()
                &&& old(self).holes() == 0 ==> key == old(self).slots() && key == old(self).count()
                    && final (self).slots() == old(self).slots() + 1 && final (self).free_list()
                    == old(self).free_list()
            },
    {
        if self.len >= self.limit_len {
            return None;
        }
        self.len = self.len + 1;
        let key = self.next;
        if self.data.len() == key {
            proof {
                if self.free@.len() > 0 {
                    assert(self.free@[0] < self.data.len());
                }
            }
            self.next = key + 1;
            self.data.push(Entry { data: Some(d), next: self.next });
            proof {
                assert(self@ =~= old(self)@.insert(key as int, d));
            }
            Some(key)
        } else {
            proof {
                assert(self.free@.len() > 0);
                assert(self.free@[0] == key);
            }
            let ghost oldfree = self.free@;
            let nxt = self.data[key].next;
            self.next = nxt;
            self.data[key] = Entry { data: Some(d), next: nxt };
            proof {
                self.free@ = oldfree.drop_first();
                assert forall|i: int| 0 <= i < self.free@.len() implies (
                #[trigger] self.free@[i]) == oldfree[i + 1] by {}
                assert forall|j: int|
                    0 <= j < self.data.len() && (#[trigger] self.data[j].data) is None implies self.free@.contains(
                    j as usize,
                ) by {
                    assert(oldfree.contains(j as usize));
                    let i = choose|i: int| 0 <= i < oldfree.len() && oldfree[i] == j as usize;
                    assert(i != 0);
                    assert(self.free@[i - 1] == j as usize);
                }
                assert(self@ =~= old(self)@.insert(key as int, d));
            }
            Some(key)
        }
    }

    /// Number of occupied entries.
    pub fn len(&self) -> (r: usize)
        ensures
            r == self.count(),
    {
        self.len
    }

    /// Most entries the slab accepts at once.
    pub fn capacity(&self) -> (r: usize)
        ensures
            r == self.limit(),
    {
        self.limit_len
    }

    /// Returns a mutable reference to the value at `key`, if that index is
    /// occupied.  The caller may replace the value; the index stays occupied.
    pub fn get_mut(&mut self, key: usize) -> (r: Option<&mut T>)
        requires
            old(self).wf(),
        ensures
            r is None ==> !old(self)@.dom().contains(key as int) && *final (self) == *old(self),
            r matches Some(v) ==> {
                &&& old(self)@.dom().contains(key as int)
                &&& *v == old(self)@[key as int]
                &&& final (self).wf()
                &&& forall|k: int|
                    #[trigger] final (self)@.dom().contains(k) <==> old(self)@.dom().contains(k)
                &&& final (self)@[key as int] == *final (v)
                &&& forall|k: int|
                    old(self)@.dom().contains(k) && k != key ==> final (self)@[k] == old(self)@[k]
                &&& final (self).count() == old(self).count()
                &&& final (self).free_list() == old(self).free_list()
                &&& final (self).slots() == old(self).slots()
                &&& final (self).limit() == old(self).limit()
            },
    {
        if key >= self.data.len() {
            return None;
        }
        if self.data[key].data.is_none() {
            return None;
        }
        match &mut self.data[key].data {
            Some(v) => Some(v),
            None => {
                proof {
                    assert(false);
                }
                None
            },
        }
    }

    /// Returns a reference to the value at `key`, if that index is occupied.
    pub fn get(&self, key: usize) -> (r: Option<&T>)
        requires
            self.wf(),
        ensures
            match r {
                Some(v) => self@.dom().contains(key as int) && *v == self@[key as int],
                None => !self@.dom().contains(key as int),
            },
    {
        if key >= self.data.len() {
            return None;
        }
        let u = &self.data[key];
        u.data.as_ref()
    }

    /// Removes and returns the value at `key`; the freed index becomes the
    /// next one a push hands out.
    pub fn remove(&mut self, key: usize) -> (r: Option<T>)
        requires
            old(self).wf(),
        ensures
            final (self).wf(),
            final (self).limit() == old(self).limit(),
            r is Some <==> old(self)@.dom().contains(key as int),
            r is None ==> *final (self) == *old(self),
            r matches Some(v) ==> {
                &&& v == old(self)@[key as int]
                &&& final (self)@ == old(self)@.remove(key as int)
                &&& final (self).count() == old(self).count() - 1
                &&& final (self).slots() == old(self).slots()
                &&& final (self).free_list() == seq![key] + old(self).free_list()
            },
    {
        if key >= self.data.len() {
            return None;
        }
        if self.data[key].data.is_none() {
            return None;
        }
        let ghost oldfree = self.free@;
        let dt = self.data[key].data.take();
        match dt {
            Some(v) => {
                proof {
                    assert(!oldfree.contains(key)) by {
                        if oldfree.contains(key) {
                            let i = choose|i: int| 0 <= i < oldfree.len() && oldfree[i] == key;
                            assert(old(self).data[oldfree[i] as int].data is None);
                            assert(false);
                        }
                    }
                    Self::lemma_free_not_full(oldfree, old(self).data.len() as int, key);
                }
                self.len = self.len - 1;
                let old_next = self.next;
                self.data[key] = Entry { data: None, next: old_next };
                self.next = key;
                proof {
                    self.free@ = seq![key].add(oldfree);
                    assert forall|i: int, j: int|
                        0 <= i < self.free@.len() && 0 <= j < self.free@.len() && i
                            != j implies self.free@[i] != self.free@[j] by {
                        if self.free@[i] == self.free@[j] {
                            if i == 0 {
                                assert(oldfree[j - 1] == key);
                                assert(oldfree.contains(key));
                            } else if j == 0 {
                                assert(oldfree[i - 1] == key);
                                assert(oldfree.contains(key));
                            } else {
                                assert(oldfree[i - 1] == oldfree[j - 1]);
                            }
                        }
                    }
                    assert(self.free@.no_duplicates());
                    assert forall|j: int|
                        0 <= j < self.data.len() && (#[trigger] self.data[j].data) is None implies self.free@.contains(
                        j as usize,
                    ) by {
                        if j == key as int {
                            assert(self.free@[0] == key);
                        } else {
                            assert(old(self).data[j].data is None);
                            assert(oldfree.contains(j as usize));
                            let i = choose|i: int| 0 <= i < oldfree.len() && oldfree[i] == j as usize;
                            assert(self.free@[i + 1] == j as usize);
                        }
                    }
                    assert(self@ =~= old(self)@.remove(key as int));
                }
                Some(v)
            },
            None => {
                None
            },
        }
    }
}

} // verus!
