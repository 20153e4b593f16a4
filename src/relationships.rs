//! Links between the entities of a field, kept in an indexed table: an
//! entity may refer to one other entity (the ship that fired a bullet, the
//! ship a laser is anchored to), and every entity keeps the list of the
//! entities that refer to it. Both directions change together, so they
//! always agree.
use vstd::prelude::*;

verus! {

/// The link table of `targets.len()` entities, numbered from zero.
pub struct Relationships {
    targets: Vec<Option<usize>>,
    referrers: Vec<Vec<usize>>,
}

/// `list` without the entry `a`, the others kept in their order.
fn without(list: &Vec<usize>, a: usize) -> (r: Vec<usize>)
    ensures
        forall|x: usize| #[trigger] r@.contains(x) <==> (list@.contains(x) && x != a),
        list@.no_duplicates() ==> r@.no_duplicates(),
{
    let mut r: Vec<usize> = Vec::new();
    let mut k: usize = 0;
    while k < list.len()
        invariant
            0 <= k <= list.len(),
            forall|i: int|
                0 <= i < r.len() ==> #[trigger] r[i] != a && exists|m: int| 0 <= m < k && list[m] == r[i],
            forall|m: int| 0 <= m < k && list[m] != a ==> r@.contains(#[trigger] list[m]),
            list@.no_duplicates() ==> r@.no_duplicates(),
        decreases list.len() - k,
    {
        let x = list[k];
        if x != a {
            proof {
                if list@.no_duplicates() {
                    assert forall|i: int| 0 <= i < r.len() implies r[i] != x by {
                        let m = choose|m: int| 0 <= m < k && list[m] == r[i];
                        assert(list[m] == r[i]);
                    }
                }
            }
            let ghost r0 = r@;
            r.push(x);
            proof {
                assert forall|m: int| 0 <= m < k + 1 && list[m] != a implies r@.contains(
                    #[trigger] list[m],
                ) by {
                    if m == k {
                        assert(r[r.len() - 1] == list[m]);
                    } else {
                        assert(r0.contains(list[m]));
                        let i = choose|i: int| 0 <= i < r0.len() && r0[i] == list[m];
                        assert(r@[i] == list[m]);
                    }
                }
                assert forall|i: int| 0 <= i < r.len() implies #[trigger] r[i] != a && exists|m: int|
                    0 <= m < k + 1 && list[m] == r[i] by {
                    if i == r.len() - 1 {
                        assert(list[k as int] == r[i]);
                    } else {
                        let m = choose|m: int| 0 <= m < k && list[m] == r[i];
                        assert(list[m] == r[i]);
                    }
                }
            }
        }
        k = k + 1;
    }
    proof {
        assert forall|x: usize| #[trigger] r@.contains(x) <==> (list@.contains(x) && x != a) by {
            if r@.contains(x) {
                let i = choose|i: int| 0 <= i < r.len() && r[i] == x;
                let m = choose|m: int| 0 <= m < list.len() && list[m] == r[i];
                assert(list[m] == x);
            }
            if list@.contains(x) && x != a {
                let m = choose|m: int| 0 <= m < list.len() && list[m] == x;
                assert(r@.contains(list[m]));
            }
        }
    }
    r
}

/// A copy of `list`.
fn copy(list: &Vec<usize>) -> (r: Vec<usize>)
    ensures
        r@ == list@,
{
    let mut r: Vec<usize> = Vec::new();
    let mut k: usize = 0;
    while k < list.len()
        invariant
            0 <= k <= list.len(),
            r@ == list@.take(k as int),
        decreases list.len() - k,
    {
        r.push(list[k]);
        k = k + 1;
        proof {
            assert(r@ == list@.take(k as int));
        }
    }
    proof {
        assert(list@.take(list.len() as int) == list@);
    }
    r
}

impl Relationships {
    /// The entity each entity refers to, if any.
    pub closed spec fn view(&self) -> Seq<Option<usize>> {
        self.targets@
    }

    /// Both directions agree: `a` refers to `b` exactly when `a` is listed,
    /// once, among the referrers of `b`.
    pub closed spec fn wf(&self) -> bool {
        &&& self.targets.len() == self.referrers.len()
        &&& forall|a: int|
            0 <= a < self.targets.len() ==> (#[trigger] self.targets[a] matches Some(b) ==> b
                < self.targets.len() && self.referrers[b as int]@.contains(a as usize))
        &&& forall|b: int, k: int|
            0 <= b < self.referrers.len() && 0 <= k < self.referrers[b]@.len() ==> ({
                let a = #[trigger] self.referrers[b]@[k];
                a < self.targets.len() && self.targets[a as int] == Some(b as usize)
            })
        &&& forall|b: int| 0 <= b < self.referrers.len() ==> (#[trigger] self.referrers[b])@.no_duplicates()
    }

    /// A table of `n` entities with no links.
    pub fn new(n: usize) -> (r: Relationships)
        ensures
            r.wf(),
            r@ == Seq::new(n as nat, |i: int| None::<usize>),
    {
        let mut targets: Vec<Option<usize>> = Vec::new();
        let mut referrers: Vec<Vec<usize>> = Vec::new();
        let mut i: usize = 0;
        while i < n
            invariant
                0 <= i <= n,
                targets@ == Seq::new(i as nat, |j: int| None::<usize>),
                referrers.len() == i,
                forall|b: int| 0 <= b < i ==> (#[trigger] referrers[b])@.len() == 0,
            decreases n - i,
        {
            targets.push(None);
            referrers.push(Vec::new());
            i = i + 1;
            proof {
                assert(targets@ =~= Seq::new(i as nat, |j: int| None::<usize>));
            }
        }
        Relationships { targets, referrers }
    }

    /// The number of entities.
    pub fn len(&self) -> (r: usize)
        ensures
            r == self@.len(),
    {
        self.targets.len()
    }

    /// Adds an entity with no links and returns its number.
    pub fn add_entity(&mut self) -> (r: usize)
        requires
            old(self).wf(),
            old(self)@.len() < usize::MAX,
        ensures
            final(self).wf(),
            r == old(self)@.len(),
            final(self)@ == old(self)@.push(None),
    {
        let r = self.targets.len();
        self.targets.push(None);
        self.referrers.push(Vec::new());
        proof {
            assert(self.referrers[r as int]@.no_duplicates());
        }
        r
    }

    /// The entity that `a` refers to, if any.
    pub fn target_of(&self, a: usize) -> (r: Option<usize>)
        requires
            a < self@.len(),
        ensures
            r == self@[a as int],
    {
        self.targets[a]
    }

    /// The entities that refer to `b`, each listed once.
    pub fn referrers_of(&self, b: usize) -> (r: Vec<usize>)
        requires
            self.wf(),
            b < self@.len(),
        ensures
            r@.no_duplicates(),
            forall|a: usize| #[trigger] r@.contains(a) <==> (a < self@.len() && self@[a as int] == Some(b)),
    {
        let r = copy(&self.referrers[b]);
        proof {
            assert forall|a: usize| #[trigger] r@.contains(a) <==> (a < self@.len() && self@[a as int]
                == Some(b)) by {
                if a < self@.len() && self@[a as int] == Some(b) {
                    assert(self.targets[a as int] == Some(b));
                }
                if r@.contains(a) {
                    let k = choose|k: int| 0 <= k < r.len() && r[k] == a;
                    assert(self.referrers[b as int]@[k] == a);
                }
            }
        }
        r
    }

    /// Removes the link of `a`, if it has one.
    pub fn unlink(&mut self, a: usize)
        requires
            old(self).wf(),
            a < old(self)@.len(),
        ensures
            final(self).wf(),
            final(self)@ == old(self)@.update(a as int, None),
    {
        match self.targets[a] {
            Some(b) => {
                let ghost before = *self;
                let list = without(&self.referrers[b], a);
                self.referrers.set(b, list);
                self.targets.set(a, None);
                proof {
                    let n = self.targets.len();
                    assert forall|x: int| 0 <= x < n implies (#[trigger] self.targets[x] matches Some(y)
                        ==> y < n && self.referrers[y as int]@.contains(x as usize)) by {
                        if let Some(y) = self.targets[x] {
                            assert(x != a);
                            assert(before.targets[x] == Some(y));
                            assert(before.referrers[y as int]@.contains(x as usize));
                        }
                    }
                    assert forall|y: int, k: int|
                        0 <= y < n && 0 <= k < self.referrers[y]@.len() implies ({
                        let z = #[trigger] self.referrers[y]@[k];
                        z < n && self.targets[z as int] == Some(y as usize)
                    }) by {
                        let z = self.referrers[y]@[k];
                        if y == b {
                            assert(self.referrers[y]@.contains(z));
                            assert(before.referrers[y]@.contains(z));
                            let k0 = choose|k0: int|
                                0 <= k0 < before.referrers[y]@.len() && before.referrers[y]@[k0] == z;
                            assert(before.referrers[y]@[k0] == z);
                        } else {
                            assert(before.referrers[y]@[k] == z);
                            assert(before.targets[z as int] == Some(y as usize));
                        }
                    }
                    assert forall|y: int| 0 <= y < n implies (#[trigger] self.referrers[y])@.no_duplicates() by {
                        if y != b {
                            assert(self.referrers[y] == before.referrers[y]);
                        }
                    }
                    assert(self@ =~= before@.update(a as int, None));
                }
            },
            None => {
                proof {
                    assert(self@ =~= old(self)@.update(a as int, None));
                }
            },
        }
    }

    /// Makes `a` refer to `b`, replacing the earlier link of `a` if it had one.
    pub fn link(&mut self, a: usize, b: usize)
        requires
            old(self).wf(),
            a < old(self)@.len(),
            b < old(self)@.len(),
        ensures
            final(self).wf(),
            final(self)@ == old(self)@.update(a as int, Some(b)),
    {
        self.unlink(a);
        let ghost before = *self;
        proof {
            if before.referrers[b as int]@.contains(a) {
                let k = choose|k: int|
                    0 <= k < before.referrers[b as int]@.len() && before.referrers[b as int]@[k] == a;
                assert(before.referrers[b as int]@[k] == a);
            }
        }
        let list = copy(&self.referrers[b]);
        let mut list = list;
        list.push(a);
        self.referrers.set(b, list);
        self.targets.set(a, Some(b));
        proof {
            let n = self.targets.len();
            assert forall|x: int| 0 <= x < n implies (#[trigger] self.targets[x] matches Some(y) ==> y
                < n && self.referrers[y as int]@.contains(x as usize)) by {
                if x == a {
                    assert(self.referrers[b as int]@[self.referrers[b as int]@.len() - 1] == a);
                } else if let Some(y) = self.targets[x] {
                    assert(before.targets[x] == Some(y));
                    assert(before.referrers[y as int]@.contains(x as usize));
                    if y == b {
                        let k = choose|k: int|
                            0 <= k < before.referrers[y as int]@.len() && before.referrers[y as int]@[k]
                                == x as usize;
                        assert(self.referrers[y as int]@[k] == x as usize);
                    }
                }
            }
            assert forall|y: int, k: int|
                0 <= y < n && 0 <= k < self.referrers[y]@.len() implies ({
                let z = #[trigger] self.referrers[y]@[k];
                z < n && self.targets[z as int] == Some(y as usize)
            }) by {
                let z = self.referrers[y]@[k];
                if y == b && k == self.referrers[y]@.len() - 1 {
                    assert(z == a);
                } else {
                    assert(before.referrers[y]@[k] == z);
                    assert(before.targets[z as int] == Some(y as usize));
                }
            }
            assert forall|y: int| 0 <= y < n implies (#[trigger] self.referrers[y])@.no_duplicates() by {
                if y != b {
                    assert(self.referrers[y] == before.referrers[y]);
                } else {
                    assert(before.referrers[y]@.no_duplicates());
                    assert(!before.referrers[y]@.contains(a));
                }
            }
            assert(self@ =~= old(self)@.update(a as int, Some(b)));
        }
    }
}

} // verus!
