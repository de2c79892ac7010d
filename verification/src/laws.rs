//! Room-wide laws, stated and proved over the coordinator's models.
//!
//! `handle_request` ensures that registry contents only ever grow at the
//! back (the old contents are a prefix of the new) and that every member's
//! name stays registered; the laws here build on those contracts.

use vstd::prelude::*;
use crate::message::Address;
use crate::registry::{
    lemma_reg_contains_push, lemma_reg_password_push_absent, reg_contains, reg_password,
};
use crate::roster::{
    has_addr, lemma_remove_addr_absent, lemma_remove_addr_first, remove_addr, roster_wf,
};
use crate::server::rename_allowed;

verus! {

/// A claim, once made, is present in every later registry state.
pub proof fn lemma_reg_contains_prefix(
    n1: Seq<(Seq<char>, Seq<char>)>,
    n2: Seq<(Seq<char>, Seq<char>)>,
    name: Seq<char>,
)
    requires
        n1.is_prefix_of(n2),
        reg_contains(n1, name),
    ensures
        reg_contains(n2, name),
{
    let i = choose|i: int| 0 <= i < n1.len() && (#[trigger] n1[i]).0 == name;
    assert(n1[i] == n2.subrange(0, n1.len() as int)[i]);
    assert(n2[i].0 == name);
}

/// Law: auto-assigned guest names are unique across the registry's entire
/// history, not merely among currently-connected members.  A successful Join
/// assigns only a name absent from the registry and claims it at once
/// (`join_success`), and registry contents only grow, so the name a later
/// Join finds free can never be a name an earlier Join assigned.
pub proof fn lemma_guest_names_unique(
    after_first: Seq<(Seq<char>, Seq<char>)>,
    before_second: Seq<(Seq<char>, Seq<char>)>,
    g1: Seq<char>,
    g2: Seq<char>,
)
    requires
        reg_contains(after_first, g1),
        after_first.is_prefix_of(before_second),
        !reg_contains(before_second, g2),
    ensures
        g1 != g2,
{
    lemma_reg_contains_prefix(after_first, before_second, g1);
}

/// Law: Leave is idempotent.  After a Leave has removed a connection, that
/// connection is no longer a member, so a second Leave changes nothing — and
/// by `leave_post` the second Leave then sends no reply and no broadcast.
pub proof fn lemma_leave_idempotent(r: Seq<(Address, Seq<char>)>, addr: Address)
    requires
        roster_wf(r),
    ensures
        !has_addr(remove_addr(r, addr), addr),
        remove_addr(remove_addr(r, addr), addr) == remove_addr(r, addr),
{
    if has_addr(r, addr) {
        let i = choose|i: int| 0 <= i < r.len() && (#[trigger] r[i]).0 == addr;
        assert(forall|j: int| 0 <= j < i ==> (#[trigger] r[j]).0 != addr);
        lemma_remove_addr_first(r, addr, i);
        let r2 = remove_addr(r, addr);
        assert(!has_addr(r2, addr)) by {
            if has_addr(r2, addr) {
                let j = choose|j: int| 0 <= j < r2.len() && (#[trigger] r2[j]).0 == addr;
                let j0: int = if j < i {
                    j
                } else {
                    j + 1
                };
                assert(r2[j] == r[j0]);
            }
        }
        lemma_remove_addr_absent(r2, addr);
    } else {
        lemma_remove_addr_absent(r, addr);
        lemma_remove_addr_absent(remove_addr(r, addr), addr);
    }
}

/// Law: Register then Rename round-trips.  Once a fresh name is claimed with
/// a non-empty password, a Rename to that name is allowed exactly for that
/// password: any other supplied password is refused by the registry.
pub proof fn lemma_register_then_rename(
    n: Seq<(Seq<char>, Seq<char>)>,
    name: Seq<char>,
    password: Seq<char>,
    other: Seq<char>,
)
    requires
        !reg_contains(n, name),
        password != Seq::<char>::empty(),
    ensures
        rename_allowed(n.push((name, password)), name, password),
        other != password ==> !rename_allowed(n.push((name, password)), name, other),
{
    lemma_reg_password_push_absent(n, name, password);
    lemma_reg_contains_push(n, (name, password), name);
}

/// Law: an empty-password claim is unprotected.  Once a fresh name is
/// claimed with the empty password — as Register with "" or a Join's
/// auto-claim does — a Rename to it is allowed whatever password is
/// supplied, and the stored password is and stays empty (`rename_post`
/// leaves the registry unchanged for an already-claimed name).
pub proof fn lemma_empty_password_unprotected(
    n: Seq<(Seq<char>, Seq<char>)>,
    name: Seq<char>,
    supplied: Seq<char>,
)
    requires
        !reg_contains(n, name),
    ensures
        rename_allowed(n.push((name, Seq::<char>::empty())), name, supplied),
        reg_password(n.push((name, Seq::<char>::empty())), name) == Seq::<char>::empty(),
{
    lemma_reg_password_push_absent(n, name, Seq::empty());
}

} // verus!
