//! Interface list of the virtual network stack: the named virtual network
//! endpoints of one process, each with its associated addresses.
//!
//! Interface operations follow the same shape as route operations: validate
//! against current state, mutate, return a semantic error otherwise. Names
//! are unique keys; adding a taken name is rejected with `AlreadyExists`
//! (unlike a route add, which replaces), and removing an unknown name fails
//! with `NotFound` and changes nothing.

use vstd::prelude::*;
use crate::stack::NetworkError;
use crate::wire::Cidr;

verus! {

/// A named virtual network endpoint with its associated addresses.
pub struct Interface {
    pub name: String,
    pub addresses: Vec<Cidr>,
}

/// Mathematical image of an [`Interface`].
pub ghost struct InterfaceView {
    pub name: Seq<char>,
    pub addresses: Seq<Cidr>,
}

impl View for Interface {
    type V = InterfaceView;

    open spec fn view(&self) -> InterfaceView {
        InterfaceView { name: self.name@, addresses: self.addresses@ }
    }
}

/// Index of the first interface with the given name, or -1 if none.
pub open spec fn find_iface(s: Seq<InterfaceView>, name: Seq<char>) -> int
    decreases s.len(),
{
    if s.len() == 0 {
        -1
    } else if s[0].name == name {
        0
    } else {
        let rest = find_iface(s.subrange(1, s.len() as int), name);
        if rest == -1 {
            -1
        } else {
            rest + 1
        }
    }
}

/// List invariant: interface names are pairwise distinct.
pub open spec fn wf_ifaces(s: Seq<InterfaceView>) -> bool {
    forall|i: int, j: int| #![trigger s[i], s[j]] 0 <= i < j < s.len() ==> s[i].name != s[j].name
}

/// Characterization of `find_iface`: the first index holding the name, and
/// -1 exactly when no index holds it.
pub proof fn lemma_find_iface(s: Seq<InterfaceView>, name: Seq<char>)
    ensures
        -1 <= find_iface(s, name) < s.len(),
        find_iface(s, name) == -1 ==> forall|i: int|
            0 <= i < s.len() ==> (#[trigger] s[i]).name != name,
        find_iface(s, name) != -1 ==> s[find_iface(s, name)].name == name,
        find_iface(s, name) != -1 ==> forall|j: int|
            0 <= j < find_iface(s, name) ==> (#[trigger] s[j]).name != name,
    decreases s.len(),
{
    if s.len() == 0 {
    } else if s[0].name == name {
    } else {
        let tail = s.subrange(1, s.len() as int);
        lemma_find_iface(tail, name);
        assert forall|i: int| 1 <= i < s.len() implies s[i] == tail[i - 1] by {}
    }
}

/// Converse: if index `i` holds the name and no earlier index does,
/// `find_iface` returns `i`.
pub proof fn lemma_find_iface_at(s: Seq<InterfaceView>, name: Seq<char>, i: int)
    requires
        0 <= i < s.len(),
        s[i].name == name,
        forall|j: int| 0 <= j < i ==> (#[trigger] s[j]).name != name,
    ensures
        find_iface(s, name) == i,
    decreases s.len(),
{
    if i == 0 {
    } else {
        let tail = s.subrange(1, s.len() as int);
        assert forall|j: int| 0 <= j < i - 1 implies (#[trigger] tail[j]).name != name by {
            assert(tail[j] == s[j + 1]);
        }
        assert(tail[i - 1] == s[i]);
        lemma_find_iface_at(tail, name, i - 1);
    }
}

/// One process's interface list, keyed by unique interface names.
pub struct InterfaceTable {
    interfaces: Vec<Interface>,
}

impl View for InterfaceTable {
    type V = Seq<InterfaceView>;

    closed spec fn view(&self) -> Seq<InterfaceView> {
        self.interfaces@.map_values(|i: Interface| i@)
    }
}

impl InterfaceTable {
    /// List invariant; established by `new` and preserved by every method.
    pub open spec fn wf(self) -> bool {
        wf_ifaces(self@)
    }

    /// An empty interface list.
    pub fn new() -> (r: InterfaceTable)
        ensures
            r@ == Seq::<InterfaceView>::empty(),
            r.wf(),
    {
        let t = InterfaceTable { interfaces: Vec::new() };
        proof {
            assert(t@ =~= Seq::<InterfaceView>::empty());
        }
        t
    }

    /// Number of interfaces.
    pub fn iface_count(&self) -> (r: usize)
        ensures
            r == self@.len(),
    {
        self.interfaces.len()
    }

    /// The interface at one position of the insertion order.
    pub fn iface_at(&self, i: usize) -> (r: &Interface)
        requires
            i < self@.len(),
        ensures
            r@ == self@[i as int],
    {
        vstd::std_specs::vec::vec_index(&self.interfaces, i)
    }

    /// Registers an interface under its name; fails with `AlreadyExists`,
    /// leaving the list unchanged, when the name is already taken.
    pub fn iface_add(&mut self, iface: Interface) -> (r: Result<(), NetworkError>)
        requires
            old(self).wf(),
        ensures
            final(self).wf(),
            r == Err::<(), NetworkError>(NetworkError::AlreadyExists) <==> find_iface(
                old(self)@,
                iface@.name,
            ) != -1,
            find_iface(old(self)@, iface@.name) != -1 ==> final(self)@ == old(self)@,
            find_iface(old(self)@, iface@.name) == -1 ==> r == Ok::<(), NetworkError>(())
                && final(self)@ == old(self)@.push(iface@),
    {
        let n = self.interfaces.len();
        let mut i: usize = 0;
        while i < n
            invariant
                old(self).wf(),
                n == self@.len(),
                i <= n,
                self@ == old(self)@,
                forall|j: int| 0 <= j < i ==> (#[trigger] self@[j]).name != iface@.name,
            decreases n - i,
        {
            if self.interfaces[i].name == iface.name {
                proof {
                    lemma_find_iface_at(self@, iface@.name, i as int);
                }
                return Err(NetworkError::AlreadyExists);
            }
            i = i + 1;
        }
        proof {
            lemma_find_iface(self@, iface@.name);
            let t = self@.push(iface@);
            assert forall|p: int, q: int|
                #![trigger t[p], t[q]]
                0 <= p < q < t.len() implies t[p].name != t[q].name by {
                if q < self@.len() {
                    assert(t[p] == self@[p] && t[q] == self@[q]);
                } else {
                    assert(t[p] == self@[p] && t[q] == iface@);
                }
            }
        }
        self.interfaces.push(iface);
        proof {
            assert(self@ =~= old(self)@.push(iface@));
        }
        Ok(())
    }

    /// Removes the interface with exactly this name; fails with `NotFound`,
    /// leaving the list unchanged, when no such interface exists.
    pub fn iface_remove(&mut self, name: &String) -> (r: Result<(), NetworkError>)
        requires
            old(self).wf(),
        ensures
            final(self).wf(),
            r == Err::<(), NetworkError>(NetworkError::NotFound) <==> find_iface(old(self)@, name@)
                == -1,
            find_iface(old(self)@, name@) == -1 ==> final(self)@ == old(self)@,
            find_iface(old(self)@, name@) != -1 ==> r == Ok::<(), NetworkError>(())
                && final(self)@ == old(self)@.remove(find_iface(old(self)@, name@)),
    {
        let n = self.interfaces.len();
        let mut i: usize = 0;
        while i < n
            invariant
                old(self).wf(),
                n == self@.len(),
                i <= n,
                self@ == old(self)@,
                forall|j: int| 0 <= j < i ==> (#[trigger] self@[j]).name != name@,
            decreases n - i,
        {
            if self.interfaces[i].name == *name {
                proof {
                    lemma_find_iface_at(self@, name@, i as int);
                    let t = self@.remove(i as int);
                    assert forall|p: int, q: int|
                        #![trigger t[p], t[q]]
                        0 <= p < q < t.len() implies t[p].name != t[q].name by {
                        assert(t[p] == if p < i {
                            self@[p]
                        } else {
                            self@[p + 1]
                        });
                        assert(t[q] == if q < i {
                            self@[q]
                        } else {
                            self@[q + 1]
                        });
                    }
                }
                self.interfaces.remove(i);
                proof {
                    assert(self@ =~= old(self)@.remove(i as int));
                }
                return Ok(());
            }
            i = i + 1;
        }
        proof {
            lemma_find_iface(self@, name@);
        }
        Err(NetworkError::NotFound)
    }
}

} // verus!
