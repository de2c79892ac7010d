//! The membership roster: the coordinator's authoritative record of the
//! currently-connected clients, keyed by connection identifier.

use vstd::prelude::*;
use crate::message::{Address, Member};

verus! {

/// The coordinator's authoritative per-connection record.
pub struct Client {
    pub addr: Address,
    pub name: String,
}

impl View for Client {
    type V = (Address, Seq<char>);

    open spec fn view(&self) -> (Address, Seq<char>) {
        (self.addr, self.name@)
    }
}

/// Whether connection `addr` is a current member of roster contents `r`.
pub open spec fn has_addr(r: Seq<(Address, Seq<char>)>, addr: Address) -> bool {
    exists|i: int| 0 <= i < r.len() && (#[trigger] r[i]).0 == addr
}

/// The display name of the first entry for `addr` (well-formed contents hold
/// at most one); an absent connection is mapped to the empty name.
pub open spec fn name_at(r: Seq<(Address, Seq<char>)>, addr: Address) -> Seq<char>
    decreases r.len(),
{
    if r.len() == 0 {
        Seq::empty()
    } else if r[0].0 == addr {
        r[0].1
    } else {
        name_at(r.drop_first(), addr)
    }
}

/// `r` without its first entry for `addr`.
pub open spec fn remove_addr(
    r: Seq<(Address, Seq<char>)>,
    addr: Address,
) -> Seq<(Address, Seq<char>)>
    decreases r.len(),
{
    if r.len() == 0 {
        Seq::empty()
    } else if r[0].0 == addr {
        r.drop_first()
    } else {
        seq![r[0]] + remove_addr(r.drop_first(), addr)
    }
}

/// `r` with every entry for `addr` renamed to `name`.
pub open spec fn set_name(
    r: Seq<(Address, Seq<char>)>,
    addr: Address,
    name: Seq<char>,
) -> Seq<(Address, Seq<char>)> {
    r.map_values(|e: (Address, Seq<char>)| if e.0 == addr { (e.0, name) } else { e })
}

/// No two entries share a connection identifier.
pub open spec fn roster_wf(r: Seq<(Address, Seq<char>)>) -> bool {
    forall|i: int, j: int| 0 <= i < j < r.len() ==> (#[trigger] r[i]).0 != (#[trigger] r[j]).0
}

/// A membership listing `l` is a faithful snapshot of roster contents `r`.
pub open spec fn members_match(l: Seq<Member>, r: Seq<(Address, Seq<char>)>) -> bool {
    &&& l.len() == r.len()
    &&& forall|i: int|
        0 <= i < l.len() ==> (#[trigger] l[i]).addr == r[i].0 && l[i].name@ == r[i].1
}

/// The first entry for `addr` gives its stored name.
pub proof fn lemma_name_at_first(r: Seq<(Address, Seq<char>)>, addr: Address, i: int)
    requires
        0 <= i < r.len(),
        r[i].0 == addr,
        forall|j: int| 0 <= j < i ==> (#[trigger] r[j]).0 != addr,
    ensures
        name_at(r, addr) == r[i].1,
    decreases i,
{
    if i > 0 {
        assert(r[0].0 != addr);
        assert(forall|j: int| 0 <= j < i - 1 ==> (#[trigger] r.drop_first()[j]).0 != addr);
        lemma_name_at_first(r.drop_first(), addr, i - 1);
    }
}

/// Removing the first entry for `addr` deletes exactly that index.
pub proof fn lemma_remove_addr_first(r: Seq<(Address, Seq<char>)>, addr: Address, i: int)
    requires
        0 <= i < r.len(),
        r[i].0 == addr,
        forall|j: int| 0 <= j < i ==> (#[trigger] r[j]).0 != addr,
    ensures
        remove_addr(r, addr) == r.remove(i),
    decreases i,
{
    if i == 0 {
        assert(remove_addr(r, addr) =~= r.remove(0));
    } else {
        assert(r[0].0 != addr);
        assert(forall|j: int| 0 <= j < i - 1 ==> (#[trigger] r.drop_first()[j]).0 != addr);
        lemma_remove_addr_first(r.drop_first(), addr, i - 1);
        assert(remove_addr(r, addr) =~= r.remove(i)) by {
            assert(r.drop_first().remove(i - 1) =~= r.remove(i).drop_first());
            assert(r.remove(i)[0] == r[0]);
        }
    }
}

/// Removing an absent connection changes nothing.
pub proof fn lemma_remove_addr_absent(r: Seq<(Address, Seq<char>)>, addr: Address)
    requires
        !has_addr(r, addr),
    ensures
        remove_addr(r, addr) == r,
    decreases r.len(),
{
    if r.len() > 0 {
        assert(r[0].0 != addr);
        assert(!has_addr(r.drop_first(), addr)) by {
            if has_addr(r.drop_first(), addr) {
                let i = choose|i: int|
                    0 <= i < r.drop_first().len() && (#[trigger] r.drop_first()[i]).0 == addr;
                assert(r[i + 1].0 == addr);
            }
        }
        lemma_remove_addr_absent(r.drop_first(), addr);
        assert(seq![r[0]] + r.drop_first() =~= r);
    }
}

/// The membership roster owned by the room coordinator.
pub struct Roster {
    clients: Vec<Client>,
}

impl View for Roster {
    type V = Seq<(Address, Seq<char>)>;

    closed spec fn view(&self) -> Seq<(Address, Seq<char>)> {
        self.clients@.map_values(|c: Client| c@)
    }
}

impl Roster {
    /// Well-formedness of the roster: member addresses are unique.
    pub open spec fn wf(&self) -> bool {
        roster_wf(self@)
    }

    /// The roster starts empty.
    pub fn new() -> (r: Roster)
        ensures
            r@ == Seq::<(Address, Seq<char>)>::empty(),
            r.wf(),
    {
        let r = Roster { clients: Vec::new() };
        proof {
            assert(r@ =~= Seq::<(Address, Seq<char>)>::empty());
        }
        r
    }

    /// The index of the first entry for `addr`, if any.
    fn index_of(&self, addr: Address) -> (r: Option<usize>)
        ensures
            match r {
                Some(i) => i < self@.len() && self@[i as int].0 == addr && forall|j: int|
                    0 <= j < i ==> (#[trigger] self@[j]).0 != addr,
                None => !has_addr(self@, addr),
            },
    {
        let n = self.clients.len();
        let mut i: usize = 0;
        while i < n
            invariant
                n == self.clients.len(),
                i <= n,
                forall|j: int| 0 <= j < i ==> (#[trigger] self@[j]).0 != addr,
            decreases n - i,
        {
            if self.clients[i].addr == addr {
                assert(self@[i as int].0 == addr);
                return Some(i);
            }
            assert(self@[i as int].0 != addr);
            i += 1;
        }
        None
    }

    /// Whether connection `addr` has joined and not yet left.
    pub fn contains(&self, addr: Address) -> (b: bool)
        ensures
            b == has_addr(self@, addr),
    {
        match self.index_of(addr) {
            Some(i) => {
                proof {
                    assert(self@[i as int].0 == addr);
                }
                true
            },
            None => false,
        }
    }

    /// The display name currently held by connection `addr`.
    pub fn name_of(&self, addr: Address) -> (r: Option<String>)
        ensures
            match r {
                Some(n) => has_addr(self@, addr) && n@ == name_at(self@, addr),
                None => !has_addr(self@, addr),
            },
    {
        match self.index_of(addr) {
            Some(i) => {
                proof {
                    assert(self@[i as int].0 == addr);
                    lemma_name_at_first(self@, addr, i as int);
                }
                Some(self.clients[i].name.clone())
            },
            None => None,
        }
    }

    /// Record a newly-joined client.  A second Join from a connection that is
    /// already a member replaces its record, as a fresh insert into the
    /// membership table would.
    pub fn insert(&mut self, c: Client)
        requires
            old(self).wf(),
        ensures
            final(self).wf(),
            has_addr(old(self)@, c.addr) ==> final(self)@ == set_name(old(self)@, c.addr, c.name@),
            !has_addr(old(self)@, c.addr) ==> final(self)@ == old(self)@.push(c@),
    {
        let ghost pre = self@;
        match self.index_of(c.addr) {
            Some(i) => {
                let ghost cv = c@;
                self.clients[i] = c;
                proof {
                    assert(self@ =~= pre.update(i as int, cv));
                    assert(self@ =~= set_name(pre, cv.0, cv.1)) by {
                        assert forall|j: int| 0 <= j < pre.len() && j != i implies (#[trigger] pre[j]).0
                            != cv.0 by {
                            if j > i {
                                assert(pre[i as int].0 == cv.0);
                            }
                        }
                    }
                    assert(roster_wf(self@));
                }
            },
            None => {
                let ghost cv = c@;
                self.clients.push(c);
                proof {
                    assert(self@ =~= pre.push(cv));
                    assert forall|i: int, j: int|
                        0 <= i < j < self@.len() implies (#[trigger] self@[i]).0
                        != (#[trigger] self@[j]).0 by {
                        if j == self@.len() - 1 {
                            assert(pre[i].0 != cv.0);
                        }
                    }
                }
            },
        }
    }

    /// Remove the record of connection `addr`, handing it back if there was
    /// one; removing a non-member is a no-op.
    pub fn remove(&mut self, addr: Address) -> (r: Option<Client>)
        requires
            old(self).wf(),
        ensures
            final(self).wf(),
            match r {
                Some(c) => has_addr(old(self)@, addr) && c.addr == addr && c.name@ == name_at(
                    old(self)@,
                    addr,
                ) && final(self)@ == remove_addr(old(self)@, addr),
                None => !has_addr(old(self)@, addr) && final(self)@ == old(self)@,
            },
    {
        let ghost pre = self@;
        match self.index_of(addr) {
            Some(i) => {
                proof {
                    assert(pre[i as int].0 == addr);
                    lemma_name_at_first(pre, addr, i as int);
                    lemma_remove_addr_first(pre, addr, i as int);
                }
                let c = self.clients.remove(i);
                proof {
                    assert(self@ =~= pre.remove(i as int));
                    assert(roster_wf(self@)) by {
                        assert forall|x: int, y: int|
                            0 <= x < y < self@.len() implies (#[trigger] self@[x]).0
                            != (#[trigger] self@[y]).0 by {
                            let x0: int = if x < i { x } else { x + 1 };
                            let y0: int = if y < i { y } else { y + 1 };
                            assert(self@[x] == pre[x0]);
                            assert(self@[y] == pre[y0]);
                        }
                    }
                }
                Some(c)
            },
            None => None,
        }
    }

    /// Replace the display name of member `addr`, handing back the old name.
    pub fn rename(&mut self, addr: Address, new_name: String) -> (r: Option<String>)
        requires
            old(self).wf(),
        ensures
            final(self).wf(),
            match r {
                Some(old_name) => has_addr(old(self)@, addr) && old_name@ == name_at(
                    old(self)@,
                    addr,
                ) && final(self)@ == set_name(old(self)@, addr, new_name@),
                None => !has_addr(old(self)@, addr) && final(self)@ == old(self)@,
            },
    {
        let ghost pre = self@;
        match self.index_of(addr) {
            Some(i) => {
                proof {
                    assert(pre[i as int].0 == addr);
                    lemma_name_at_first(pre, addr, i as int);
                }
                let old_name = self.clients[i].name.clone();
                let ghost nv = new_name@;
                self.clients[i] = Client { addr, name: new_name };
                proof {
                    assert(self@ =~= pre.update(i as int, (addr, nv)));
                    assert(self@ =~= set_name(pre, addr, nv)) by {
                        assert forall|j: int| 0 <= j < pre.len() && j != i implies (#[trigger] pre[j]).0
                            != addr by {
                            if j > i {
                                assert(pre[i as int].0 == addr);
                            }
                        }
                    }
                    assert(roster_wf(self@));
                }
                Some(old_name)
            },
            None => None,
        }
    }

    /// A snapshot of the current membership, in roster order.
    pub fn members(&self) -> (l: Vec<Member>)
        ensures
            members_match(l@, self@),
    {
        let n = self.clients.len();
        let mut l: Vec<Member> = Vec::new();
        let mut i: usize = 0;
        while i < n
            invariant
                n == self.clients.len(),
                i <= n,
                l@.len() == i,
                forall|j: int|
                    0 <= j < i ==> (#[trigger] l@[j]).addr == self@[j].0 && l@[j].name@
                        == self@[j].1,
            decreases n - i,
        {
            l.push(Member { name: self.clients[i].name.clone(), addr: self.clients[i].addr });
            i += 1;
        }
        l
    }
}

} // verus!
