//! The durable name registry: a monotonically-growing ledger of claims.
//!
//! Each claim associates a display name with the password that protects it;
//! an empty password means "reserved, unprotected".  Claims are never removed
//! or overwritten, which makes them durable for the process lifetime and is
//! what keeps auto-assigned guest names unique across the room's history.

use vstd::prelude::*;

verus! {

/// Whether `name` is claimed in registry contents `r`.
pub open spec fn reg_contains(r: Seq<(Seq<char>, Seq<char>)>, name: Seq<char>) -> bool {
    exists|i: int| 0 <= i < r.len() && (#[trigger] r[i]).0 == name
}

/// The password stored for `name`; the first claim of that name wins
/// (well-formed contents hold at most one), and an unclaimed name is
/// mapped to the empty password.
pub open spec fn reg_password(r: Seq<(Seq<char>, Seq<char>)>, name: Seq<char>) -> Seq<char>
    decreases r.len(),
{
    if r.len() == 0 {
        Seq::empty()
    } else if r[0].0 == name {
        r[0].1
    } else {
        reg_password(r.drop_first(), name)
    }
}

/// The stored password of the first claim of `name` is the password of that
/// claim's entry.
pub proof fn lemma_reg_password_first(r: Seq<(Seq<char>, Seq<char>)>, name: Seq<char>, i: int)
    requires
        0 <= i < r.len(),
        r[i].0 == name,
        forall|j: int| 0 <= j < i ==> (#[trigger] r[j]).0 != name,
    ensures
        reg_password(r, name) == r[i].1,
    decreases i,
{
    if i > 0 {
        assert(r[0].0 != name);
        assert(forall|j: int| 0 <= j < i - 1 ==> (#[trigger] r.drop_first()[j]).0 != name);
        lemma_reg_password_first(r.drop_first(), name, i - 1);
    }
}

/// A claim stays claimed when the registry grows at the back.
pub proof fn lemma_reg_contains_push(
    r: Seq<(Seq<char>, Seq<char>)>,
    e: (Seq<char>, Seq<char>),
    name: Seq<char>,
)
    ensures
        reg_contains(r.push(e), name) == (reg_contains(r, name) || e.0 == name),
{
    if reg_contains(r, name) {
        let i = choose|i: int| 0 <= i < r.len() && (#[trigger] r[i]).0 == name;
        assert(r.push(e)[i].0 == name);
    }
    if e.0 == name {
        assert(r.push(e)[r.len() as int].0 == name);
    }
    if reg_contains(r.push(e), name) {
        let i = choose|i: int| 0 <= i < r.push(e).len() && (#[trigger] r.push(e)[i]).0 == name;
        if i < r.len() {
            assert(r[i].0 == name);
        }
    }
}

/// Pushing a claim for a previously-unclaimed name stores exactly the pushed
/// password for it.
pub proof fn lemma_reg_password_push_absent(
    r: Seq<(Seq<char>, Seq<char>)>,
    name: Seq<char>,
    password: Seq<char>,
)
    requires
        !reg_contains(r, name),
    ensures
        reg_password(r.push((name, password)), name) == password,
    decreases r.len(),
{
    let e = (name, password);
    if r.len() == 0 {
        assert(r.push(e)[0] == e);
    } else {
        assert(r[0].0 != name);
        assert(r.push(e)[0] == r[0]);
        assert(r.push(e).drop_first() =~= r.drop_first().push(e));
        assert(!reg_contains(r.drop_first(), name)) by {
            if reg_contains(r.drop_first(), name) {
                let i = choose|i: int|
                    0 <= i < r.drop_first().len() && (#[trigger] r.drop_first()[i]).0 == name;
                assert(r[i + 1].0 == name);
            }
        }
        lemma_reg_password_push_absent(r.drop_first(), name, password);
    }
}

/// The name registry owned by the room coordinator.
pub struct Registry {
    entries: Vec<(String, String)>,
}

impl View for Registry {
    type V = Seq<(Seq<char>, Seq<char>)>;

    closed spec fn view(&self) -> Seq<(Seq<char>, Seq<char>)> {
        self.entries@.map_values(|e: (String, String)| (e.0@, e.1@))
    }
}

impl Registry {
    /// No two claims share a name.
    pub open spec fn wf(&self) -> bool {
        forall|i: int, j: int|
            0 <= i < j < self@.len() ==> (#[trigger] self@[i]).0 != (#[trigger] self@[j]).0
    }

    /// The registry starts empty.
    pub fn new() -> (r: Registry)
        ensures
            r@ == Seq::<(Seq<char>, Seq<char>)>::empty(),
            r.wf(),
    {
        let r = Registry { entries: Vec::new() };
        proof {
            assert(r@ =~= Seq::<(Seq<char>, Seq<char>)>::empty());
        }
        r
    }

    /// The index of the first claim of `name`, if any.
    fn index_of(&self, name: &String) -> (r: Option<usize>)
        ensures
            match r {
                Some(i) => i < self@.len() && self@[i as int].0 == name@ && forall|j: int|
                    0 <= j < i ==> (#[trigger] self@[j]).0 != name@,
                None => !reg_contains(self@, name@),
            },
    {
        let n = self.entries.len();
        let mut i: usize = 0;
        while i < n
            invariant
                n == self.entries.len(),
                i <= n,
                forall|j: int| 0 <= j < i ==> (#[trigger] self@[j]).0 != name@,
            decreases n - i,
        {
            if self.entries[i].0 == *name {
                assert(self@[i as int].0 == name@);
                return Some(i);
            }
            assert(self@[i as int].0 != name@);
            i += 1;
        }
        None
    }

    /// Whether `name` has ever been claimed.
    pub fn contains(&self, name: &String) -> (b: bool)
        ensures
            b == reg_contains(self@, name@),
    {
        match self.index_of(name) {
            Some(i) => {
                proof {
                    assert(self@[i as int].0 == name@);
                }
                true
            },
            None => false,
        }
    }

    /// The password protecting `name`, or `None` when `name` was never
    /// claimed.
    pub fn lookup(&self, name: &String) -> (p: Option<&String>)
        ensures
            match p {
                Some(pw) => reg_contains(self@, name@) && pw@ == reg_password(self@, name@),
                None => !reg_contains(self@, name@),
            },
    {
        match self.index_of(name) {
            Some(i) => {
                proof {
                    assert(self@[i as int].0 == name@);
                    lemma_reg_password_first(self@, name@, i as int);
                }
                Some(&self.entries[i].1)
            },
            None => None,
        }
    }

    /// Record a new claim.  Only unclaimed names can be claimed, so existing
    /// claims are never overwritten.
    pub fn insert(&mut self, name: String, password: String)
        requires
            old(self).wf(),
            !reg_contains(old(self)@, name@),
        ensures
            final(self)@ == old(self)@.push((name@, password@)),
            final(self).wf(),
    {
        let ghost pre = self@;
        self.entries.push((name, password));
        proof {
            assert(self@ =~= pre.push((name@, password@)));
            assert forall|i: int, j: int|
                0 <= i < j < self@.len() implies (#[trigger] self@[i]).0
                != (#[trigger] self@[j]).0 by {
                if j == self@.len() - 1 {
                    assert(pre[i].0 != name@);
                }
            }
        }
    }
}

} // verus!
