//! The room coordinator: one request in, a state change, a list of unicast
//! replies and at most one broadcast out.
//!
//! Every operation of the protocol is a function from the current membership
//! roster and name registry to their next values plus the notifications to
//! deliver; the contracts below pin each of those down exactly.  Channel and
//! socket plumbing stays outside this crate: callers perform the sends.

use vstd::prelude::*;
use crate::message::{Address, BroadcastNotify, Request, RequestBody, UnicastNotify};
use crate::registry::{lemma_reg_contains_push, reg_contains, reg_password, Registry};
use crate::roster::{
    has_addr, members_match, name_at, remove_addr, set_name, Client, Roster,
};

verus! {

/// Whether `c` is a decimal digit.
pub open spec fn is_digit(c: char) -> bool {
    ||| c == '0'
    ||| c == '1'
    ||| c == '2'
    ||| c == '3'
    ||| c == '4'
    ||| c == '5'
    ||| c == '6'
    ||| c == '7'
    ||| c == '8'
    ||| c == '9'
}

/// The decimal digit character for a value below ten.
pub open spec fn digit_char(d: int) -> char {
    if d == 0 {
        '0'
    } else if d == 1 {
        '1'
    } else if d == 2 {
        '2'
    } else if d == 3 {
        '3'
    } else if d == 4 {
        '4'
    } else if d == 5 {
        '5'
    } else if d == 6 {
        '6'
    } else if d == 7 {
        '7'
    } else if d == 8 {
        '8'
    } else {
        '9'
    }
}

/// The value of a decimal digit character.
pub open spec fn digit_val(c: char) -> int {
    if c == '0' {
        0
    } else if c == '1' {
        1
    } else if c == '2' {
        2
    } else if c == '3' {
        3
    } else if c == '4' {
        4
    } else if c == '5' {
        5
    } else if c == '6' {
        6
    } else if c == '7' {
        7
    } else if c == '8' {
        8
    } else {
        9
    }
}

/// The guest name formed of the suffix digits `a`, `b`, `c`.
pub open spec fn guest_seq(a: int, b: int, c: int) -> Seq<char> {
    "Guest"@ + seq![digit_char(a), digit_char(b), digit_char(c)]
}

/// An auto-assignable guest name: `Guest` followed by three decimal digits.
pub open spec fn is_guest_name(n: Seq<char>) -> bool {
    &&& n.len() == 8
    &&& n.subrange(0, 5) == "Guest"@
    &&& is_digit(n[5])
    &&& is_digit(n[6])
    &&& is_digit(n[7])
}

/// Every guest name is one of the 1000 combinations of three suffix digits.
pub proof fn lemma_guest_name_split(n: Seq<char>)
    requires
        is_guest_name(n),
    ensures
        0 <= digit_val(n[5]) < 10,
        0 <= digit_val(n[6]) < 10,
        0 <= digit_val(n[7]) < 10,
        n == guest_seq(digit_val(n[5]), digit_val(n[6]), digit_val(n[7])),
{
    reveal_strlit("Guest");
    let g = guest_seq(digit_val(n[5]), digit_val(n[6]), digit_val(n[7]));
    assert forall|i: int| 0 <= i < 8 implies n[i] == g[i] by {
        if i < 5 {
            assert(n.subrange(0, 5)[i] == n[i]);
            assert(g[i] == "Guest"@[i]);
        }
    }
    assert(n =~= g);
}

/// The whole guest namespace is claimed: no free `Guest###` name is left.
pub open spec fn guest_exhausted(n: Seq<(Seq<char>, Seq<char>)>) -> bool {
    forall|g: Seq<char>| is_guest_name(g) ==> #[trigger] reg_contains(n, g)
}

/// Relies on rand::random_range: on a non-empty integer range it draws a
/// value inside that range from the thread-local generator.
#[verifier::external_body]
fn random_digit() -> (d: u8)
    ensures
        d < 10,
{
    rand::random_range(0u8..10)
}

/// The single decimal digit as a string slice.
fn digit_str(d: u8) -> (s: &'static str)
    requires
        d < 10,
    ensures
        s@ == seq![digit_char(d as int)],
{
    if d == 0 {
        proof {
            reveal_strlit("0");
        }
        let s = "0";
        assert(s@ =~= seq![digit_char(0)]);
        s
    } else if d == 1 {
        proof {
            reveal_strlit("1");
        }
        let s = "1";
        assert(s@ =~= seq![digit_char(1)]);
        s
    } else if d == 2 {
        proof {
            reveal_strlit("2");
        }
        let s = "2";
        assert(s@ =~= seq![digit_char(2)]);
        s
    } else if d == 3 {
        proof {
            reveal_strlit("3");
        }
        let s = "3";
        assert(s@ =~= seq![digit_char(3)]);
        s
    } else if d == 4 {
        proof {
            reveal_strlit("4");
        }
        let s = "4";
        assert(s@ =~= seq![digit_char(4)]);
        s
    } else if d == 5 {
        proof {
            reveal_strlit("5");
        }
        let s = "5";
        assert(s@ =~= seq![digit_char(5)]);
        s
    } else if d == 6 {
        proof {
            reveal_strlit("6");
        }
        let s = "6";
        assert(s@ =~= seq![digit_char(6)]);
        s
    } else if d == 7 {
        proof {
            reveal_strlit("7");
        }
        let s = "7";
        assert(s@ =~= seq![digit_char(7)]);
        s
    } else if d == 8 {
        proof {
            reveal_strlit("8");
        }
        let s = "8";
        assert(s@ =~= seq![digit_char(8)]);
        s
    } else {
        proof {
            reveal_strlit("9");
        }
        let s = "9";
        assert(s@ =~= seq![digit_char(9)]);
        s
    }
}

/// Build the guest name with the given suffix digits.
fn guest_string(a: u8, b: u8, c: u8) -> (s: String)
    requires
        a < 10,
        b < 10,
        c < 10,
    ensures
        s@ == guest_seq(a as int, b as int, c as int),
        is_guest_name(s@),
{
    let mut s = String::from_str("Guest");
    s.append(digit_str(a));
    s.append(digit_str(b));
    s.append(digit_str(c));
    proof {
        reveal_strlit("Guest");
        assert(s@ =~= guest_seq(a as int, b as int, c as int));
        assert(s@.subrange(0, 5) =~= "Guest"@);
    }
    s
}

/// Draw a candidate guest name: `Guest` followed by three random digits.
pub fn get_random_name() -> (name: String)
    ensures
        is_guest_name(name@),
{
    let a = random_digit();
    let b = random_digit();
    let c = random_digit();
    guest_string(a, b, c)
}

/// Pick a guest name that is still free in the registry.
///
/// Candidates are drawn at random, as a fresh Join assigns them; if random
/// draws keep colliding with claimed names, a systematic sweep of the whole
/// namespace follows, so `None` comes back only when every one of the 1000
/// guest names is already claimed.
pub fn pick_guest_name(names: &Registry) -> (r: Option<String>)
    ensures
        match r {
            Some(n) => is_guest_name(n@) && !reg_contains(names@, n@),
            None => guest_exhausted(names@),
        },
{
    let mut tries: usize = 0;
    while tries < 1000
        decreases 1000 - tries,
    {
        let name = get_random_name();
        if !names.contains(&name) {
            return Some(name);
        }
        tries += 1;
    }
    let mut a: u8 = 0;
    while a < 10
        invariant
            a <= 10,
            forall|x: int, y: int, z: int|
                0 <= x < a && 0 <= y < 10 && 0 <= z < 10 ==> reg_contains(
                    names@,
                    #[trigger] guest_seq(x, y, z),
                ),
        decreases 10 - a,
    {
        let mut b: u8 = 0;
        while b < 10
            invariant
                a < 10,
                b <= 10,
                forall|x: int, y: int, z: int|
                    0 <= x < a && 0 <= y < 10 && 0 <= z < 10 ==> reg_contains(
                        names@,
                        #[trigger] guest_seq(x, y, z),
                    ),
                forall|y: int, z: int|
                    0 <= y < b && 0 <= z < 10 ==> reg_contains(
                        names@,
                        #[trigger] guest_seq(a as int, y, z),
                    ),
            decreases 10 - b,
        {
            let mut c: u8 = 0;
            while c < 10
                invariant
                    a < 10,
                    b < 10,
                    c <= 10,
                    forall|z: int|
                        0 <= z < c ==> reg_contains(names@, #[trigger] guest_seq(
                            a as int,
                            b as int,
                            z,
                        )),
                decreases 10 - c,
            {
                let name = guest_string(a, b, c);
                if !names.contains(&name) {
                    return Some(name);
                }
                c += 1;
            }
            b += 1;
        }
        a += 1;
    }
    proof {
        assert forall|g: Seq<char>| is_guest_name(g) implies #[trigger] reg_contains(
            names@,
            g,
        ) by {
            lemma_guest_name_split(g);
        }
    }
    None
}

/// Every name held by a current member has been claimed in the registry.
pub open spec fn names_registered(
    r: Seq<(Address, Seq<char>)>,
    n: Seq<(Seq<char>, Seq<char>)>,
) -> bool {
    forall|i: int| 0 <= i < r.len() ==> reg_contains(n, (#[trigger] r[i]).1)
}

/// Claims survive registry growth, so member names stay registered.
proof fn lemma_names_registered_grow(
    r: Seq<(Address, Seq<char>)>,
    n: Seq<(Seq<char>, Seq<char>)>,
    e: (Seq<char>, Seq<char>),
)
    requires
        names_registered(r, n),
    ensures
        names_registered(r, n.push(e)),
{
    assert forall|i: int| 0 <= i < r.len() implies reg_contains(n.push(e), (#[trigger] r[i]).1) by {
        lemma_reg_contains_push(n, e, r[i].1);
    }
}

/// Removing a member keeps the remaining names registered.
proof fn lemma_names_registered_remove(
    r: Seq<(Address, Seq<char>)>,
    n: Seq<(Seq<char>, Seq<char>)>,
    addr: Address,
)
    requires
        names_registered(r, n),
    ensures
        names_registered(remove_addr(r, addr), n),
    decreases r.len(),
{
    if r.len() > 0 {
        assert(forall|i: int|
            0 <= i < r.drop_first().len() ==> (#[trigger] r.drop_first()[i]) == r[i + 1]);
        lemma_names_registered_remove(r.drop_first(), n, addr);
        if r[0].0 != addr {
            let rest = remove_addr(r.drop_first(), addr);
            assert forall|i: int| 0 <= i < remove_addr(r, addr).len() implies reg_contains(
                n,
                (#[trigger] remove_addr(r, addr)[i]).1,
            ) by {
                if i == 0 {
                    assert(remove_addr(r, addr)[0] == r[0]);
                } else {
                    assert(remove_addr(r, addr)[i] == rest[i - 1]);
                }
            }
        }
    }
}

/// Renaming a member to a registered name keeps every name registered.
proof fn lemma_names_registered_set(
    r: Seq<(Address, Seq<char>)>,
    n: Seq<(Seq<char>, Seq<char>)>,
    addr: Address,
    name: Seq<char>,
)
    requires
        names_registered(r, n),
        reg_contains(n, name),
    ensures
        names_registered(set_name(r, addr, name), n),
{
    assert forall|i: int| 0 <= i < set_name(r, addr, name).len() implies reg_contains(
        n,
        (#[trigger] set_name(r, addr, name)[i]).1,
    ) by {
        assert(reg_contains(n, r[i].1));
    }
}

/// A sequence is a prefix of itself extended at the back.
proof fn lemma_push_prefix<A>(s: Seq<A>, e: A)
    ensures
        s.is_prefix_of(s.push(e)),
{
    assert(s =~= s.push(e).subrange(0, s.len() as int));
}

/// A sequence is a prefix of itself.
proof fn lemma_prefix_refl<A>(s: Seq<A>)
    ensures
        s.is_prefix_of(s),
{
    assert(s =~= s.subrange(0, s.len() as int));
}

/// The roster after a Join: the assigned record replaces an existing record
/// for the same connection, or is appended.
pub open spec fn join_roster(
    r: Seq<(Address, Seq<char>)>,
    addr: Address,
    name: Seq<char>,
) -> Seq<(Address, Seq<char>)> {
    if has_addr(r, addr) {
        set_name(r, addr, name)
    } else {
        r.push((addr, name))
    }
}

/// A successful Join: a fresh guest name was assigned and claimed
/// (unprotected), the member was recorded, it was sent its name and a
/// membership snapshot taken before insertion, and the join is announced.
pub open spec fn join_success(
    pre_r: Seq<(Address, Seq<char>)>,
    post_r: Seq<(Address, Seq<char>)>,
    pre_n: Seq<(Seq<char>, Seq<char>)>,
    post_n: Seq<(Seq<char>, Seq<char>)>,
    addr: Address,
    bcast: Option<BroadcastNotify>,
    out: Seq<(Address, UnicastNotify)>,
) -> bool {
    bcast matches Some(BroadcastNotify::Join { name, addr: a }) && ({
        &&& a == addr
        &&& is_guest_name(name@)
        &&& !reg_contains(pre_n, name@)
        &&& post_n == pre_n.push((name@, Seq::<char>::empty()))
        &&& post_r == join_roster(pre_r, addr, name@)
        &&& out.len() == 2
        &&& out[0].0 == addr
        &&& (out[0].1 matches UnicastNotify::Join { name: assigned } && assigned@ == name@)
        &&& out[1].0 == addr
        &&& (out[1].1 matches UnicastNotify::List(l) && members_match(l@, pre_r))
    })
}

/// What a Join does: normally a successful join; only when the whole guest
/// namespace is claimed does nothing happen.
pub open spec fn join_post(
    pre_r: Seq<(Address, Seq<char>)>,
    post_r: Seq<(Address, Seq<char>)>,
    pre_n: Seq<(Seq<char>, Seq<char>)>,
    post_n: Seq<(Seq<char>, Seq<char>)>,
    addr: Address,
    bcast: Option<BroadcastNotify>,
    out: Seq<(Address, UnicastNotify)>,
) -> bool {
    ||| join_success(pre_r, post_r, pre_n, post_n, addr, bcast, out)
    ||| (guest_exhausted(pre_n) && post_r == pre_r && post_n == pre_n && bcast is None
        && out.len() == 0)
}

/// What a Leave does: a member is removed, confirmed to, and announced;
/// a non-member Leave is a no-op.
pub open spec fn leave_post(
    pre_r: Seq<(Address, Seq<char>)>,
    post_r: Seq<(Address, Seq<char>)>,
    addr: Address,
    bcast: Option<BroadcastNotify>,
    out: Seq<(Address, UnicastNotify)>,
) -> bool {
    if has_addr(pre_r, addr) {
        &&& post_r == remove_addr(pre_r, addr)
        &&& (bcast matches Some(BroadcastNotify::Leave { name, addr: a }) && a == addr && name@
            == name_at(pre_r, addr))
        &&& out.len() == 1
        &&& out[0] == (addr, UnicastNotify::Leave)
    } else {
        post_r == pre_r && bcast is None && out.len() == 0
    }
}

/// What a List does: a member gets the full current membership snapshot,
/// itself included; a non-member is silently ignored.
pub open spec fn list_post(
    r: Seq<(Address, Seq<char>)>,
    addr: Address,
    out: Seq<(Address, UnicastNotify)>,
) -> bool {
    if has_addr(r, addr) {
        &&& out.len() == 1
        &&& out[0].0 == addr
        &&& (out[0].1 matches UnicastNotify::List(l) && members_match(l@, r))
    } else {
        out.len() == 0
    }
}

/// The failure replies sent to every current holder of the requested name,
/// in roster order.
pub open spec fn conflict_out(r: Seq<(Address, Seq<char>)>, name: Seq<char>) -> Seq<
    (Address, UnicastNotify),
>
    decreases r.len(),
{
    if r.len() == 0 {
        Seq::empty()
    } else {
        conflict_out(r.drop_last(), name) + (if r.last().1 == name {
            seq![(r.last().0, UnicastNotify::Rename(false))]
        } else {
            Seq::empty()
        })
    }
}

/// Whether the registry lets the requester take `name`: the name was never
/// claimed, or its claim is unprotected, or the supplied password matches.
pub open spec fn rename_allowed(
    n: Seq<(Seq<char>, Seq<char>)>,
    name: Seq<char>,
    password: Seq<char>,
) -> bool {
    ||| !reg_contains(n, name)
    ||| reg_password(n, name) == Seq::<char>::empty()
    ||| reg_password(n, name) == password
}

/// What a Rename does.  First every current holder of the requested name is
/// sent a failure reply (the requester included, if it already holds that
/// name).  Then, for a member requester, the registry decides: on success the
/// member's record is renamed, a never-claimed name is claimed with the
/// supplied password (an already-claimed one keeps its stored password), and
/// the rename is announced; on a password mismatch nothing changes and the
/// requester is sent a failure reply.  A non-member requester changes
/// nothing further.
pub open spec fn rename_post(
    pre_r: Seq<(Address, Seq<char>)>,
    post_r: Seq<(Address, Seq<char>)>,
    pre_n: Seq<(Seq<char>, Seq<char>)>,
    post_n: Seq<(Seq<char>, Seq<char>)>,
    addr: Address,
    name: Seq<char>,
    password: Seq<char>,
    bcast: Option<BroadcastNotify>,
    out: Seq<(Address, UnicastNotify)>,
) -> bool {
    let conf = conflict_out(pre_r, name);
    if !has_addr(pre_r, addr) {
        post_r == pre_r && post_n == pre_n && bcast is None && out == conf
    } else if rename_allowed(pre_n, name, password) {
        &&& post_r == set_name(pre_r, addr, name)
        &&& post_n == (if reg_contains(pre_n, name) {
            pre_n
        } else {
            pre_n.push((name, password))
        })
        &&& (bcast matches Some(BroadcastNotify::Rename { old_name, new_name, addr: a }) && a
            == addr && old_name@ == name_at(pre_r, addr) && new_name@ == name)
        &&& out == conf.push((addr, UnicastNotify::Rename(true)))
    } else {
        &&& post_r == pre_r
        &&& post_n == pre_n
        &&& bcast is None
        &&& out == conf.push((addr, UnicastNotify::Rename(false)))
    }
}

/// What a Register does: a member claims a never-claimed name with the
/// supplied password, without changing its own display name, and the claim
/// is announced; claiming an already-claimed name fails with a reply.  A
/// non-member requester is silently ignored.
pub open spec fn register_post(
    r: Seq<(Address, Seq<char>)>,
    pre_n: Seq<(Seq<char>, Seq<char>)>,
    post_n: Seq<(Seq<char>, Seq<char>)>,
    addr: Address,
    name: Seq<char>,
    password: Seq<char>,
    bcast: Option<BroadcastNotify>,
    out: Seq<(Address, UnicastNotify)>,
) -> bool {
    if !has_addr(r, addr) {
        post_n == pre_n && bcast is None && out.len() == 0
    } else if !reg_contains(pre_n, name) {
        &&& post_n == pre_n.push((name, password))
        &&& (bcast matches Some(BroadcastNotify::Register { name: claimed, addr: a }) && claimed@
            == name && a == addr)
        &&& out.len() == 0
    } else {
        &&& post_n == pre_n
        &&& bcast is None
        &&& out.len() == 1
        &&& out[0] == (addr, UnicastNotify::Register(false))
    }
}

/// What a Submit does: a member gets a success reply and its message is
/// announced to the room under its current name; a non-member is silently
/// ignored.
pub open spec fn submit_post(
    r: Seq<(Address, Seq<char>)>,
    addr: Address,
    message: Seq<char>,
    bcast: Option<BroadcastNotify>,
    out: Seq<(Address, UnicastNotify)>,
) -> bool {
    if has_addr(r, addr) {
        &&& (bcast matches Some(BroadcastNotify::Submit { name, addr: a, message: m }) && a == addr
            && name@ == name_at(r, addr) && m@ == message)
        &&& out.len() == 1
        &&& out[0] == (addr, UnicastNotify::Submit(true))
    } else {
        bcast is None && out.len() == 0
    }
}

/// What a UnicastMessage does: a member gets its text echoed straight back,
/// with no broadcast; a non-member is silently ignored.
pub open spec fn unicast_post(
    r: Seq<(Address, Seq<char>)>,
    addr: Address,
    message: Seq<char>,
    out: Seq<(Address, UnicastNotify)>,
) -> bool {
    if has_addr(r, addr) {
        &&& out.len() == 1
        &&& out[0].0 == addr
        &&& (out[0].1 matches UnicastNotify::Message(m) && m@ == message)
    } else {
        out.len() == 0
    }
}

/// Join: assign a fresh guest name, record and announce the new member.
pub fn handle_join(
    addr: Address,
    roster: &mut Roster,
    names: &mut Registry,
    bcast: &mut Option<BroadcastNotify>,
) -> (out: Vec<(Address, UnicastNotify)>)
    requires
        old(roster).wf(),
        old(names).wf(),
        names_registered(old(roster)@, old(names)@),
    ensures
        final(roster).wf(),
        final(names).wf(),
        names_registered(final(roster)@, final(names)@),
        old(names)@.is_prefix_of(final(names)@),
        join_post(
            old(roster)@,
            final(roster)@,
            old(names)@,
            final(names)@,
            addr,
            *final(bcast),
            out@,
        ),
{
    match pick_guest_name(names) {
        None => {
            *bcast = None;
            proof {
                lemma_prefix_refl(names@);
            }
            Vec::new()
        },
        Some(name) => {
            let ghost pre_r = roster@;
            let ghost pre_n = names@;
            let ghost nv = name@;
            let list = roster.members();
            let mut out: Vec<(Address, UnicastNotify)> = Vec::new();
            out.push((addr, UnicastNotify::Join { name: name.clone() }));
            out.push((addr, UnicastNotify::List(list)));
            names.insert(name.clone(), String::new());
            roster.insert(Client { addr, name: name.clone() });
            *bcast = Some(BroadcastNotify::Join { name, addr });
            proof {
                lemma_push_prefix(pre_n, (nv, Seq::<char>::empty()));
                assert(reg_contains(names@, nv)) by {
                    lemma_reg_contains_push(pre_n, (nv, Seq::<char>::empty()), nv);
                }
                if has_addr(pre_r, addr) {
                    lemma_names_registered_grow(pre_r, pre_n, (nv, Seq::<char>::empty()));
                    lemma_names_registered_set(pre_r, names@, addr, nv);
                } else {
                    assert forall|i: int| 0 <= i < roster@.len() implies reg_contains(
                        names@,
                        (#[trigger] roster@[i]).1,
                    ) by {
                        if i < pre_r.len() {
                            lemma_reg_contains_push(pre_n, (nv, Seq::<char>::empty()), pre_r[i].1);
                        }
                    }
                }
            }
            out
        },
    }
}

/// Leave: drop the member's record, confirm to it, announce the leave;
/// idempotent for a connection that is not a member.
pub fn handle_leave(
    addr: Address,
    roster: &mut Roster,
    bcast: &mut Option<BroadcastNotify>,
) -> (out: Vec<(Address, UnicastNotify)>)
    requires
        old(roster).wf(),
    ensures
        final(roster).wf(),
        final(roster)@ == old(roster)@ || final(roster)@ == remove_addr(old(roster)@, addr),
        leave_post(old(roster)@, final(roster)@, addr, *final(bcast), out@),
{
    match roster.remove(addr) {
        Some(cli) => {
            let mut out: Vec<(Address, UnicastNotify)> = Vec::new();
            out.push((addr, UnicastNotify::Leave));
            *bcast = Some(BroadcastNotify::Leave { name: cli.name, addr });
            out
        },
        None => {
            *bcast = None;
            Vec::new()
        },
    }
}

/// List: send a member the current membership snapshot, itself included.
pub fn handle_list(addr: Address, roster: &Roster) -> (out: Vec<(Address, UnicastNotify)>)
    ensures
        list_post(roster@, addr, out@),
{
    if roster.contains(addr) {
        let list = roster.members();
        let mut out: Vec<(Address, UnicastNotify)> = Vec::new();
        out.push((addr, UnicastNotify::List(list)));
        out
    } else {
        Vec::new()
    }
}

/// Rename: notify every current holder of the requested name of the clash,
/// then let the registry decide the requester's claim.
pub fn handle_rename(
    addr: Address,
    name: String,
    password: String,
    roster: &mut Roster,
    names: &mut Registry,
    bcast: &mut Option<BroadcastNotify>,
) -> (out: Vec<(Address, UnicastNotify)>)
    requires
        old(roster).wf(),
        old(names).wf(),
        names_registered(old(roster)@, old(names)@),
    ensures
        final(roster).wf(),
        final(names).wf(),
        names_registered(final(roster)@, final(names)@),
        old(names)@.is_prefix_of(final(names)@),
        rename_post(
            old(roster)@,
            final(roster)@,
            old(names)@,
            final(names)@,
            addr,
            name@,
            password@,
            *final(bcast),
            out@,
        ),
{
    let ghost pre_r = roster@;
    let ghost pre_n = names@;
    let ghost nv = name@;
    let mems = roster.members();
    let n_mem = mems.len();
    let mut out: Vec<(Address, UnicastNotify)> = Vec::new();
    let mut i: usize = 0;
    while i < n_mem
        invariant
            n_mem == mems@.len(),
            i <= n_mem,
            nv == name@,
            members_match(mems@, pre_r),
            out@ == conflict_out(pre_r.subrange(0, i as int), nv),
        decreases n_mem - i,
    {
        let ghost done = pre_r.subrange(0, i as int);
        let ghost s2 = pre_r.subrange(0, i as int + 1);
        proof {
            assert(s2.drop_last() =~= done);
            assert(s2.last() == pre_r[i as int]);
            assert(mems@[i as int].addr == pre_r[i as int].0);
            assert(mems@[i as int].name@ == pre_r[i as int].1);
        }
        if mems[i].name == name {
            out.push((mems[i].addr, UnicastNotify::Rename(false)));
            proof {
                assert(pre_r[i as int].1 == nv);
                assert(conflict_out(s2, nv) == conflict_out(done, nv) + seq![
                    (pre_r[i as int].0, UnicastNotify::Rename(false)),
                ]);
                assert(out@ =~= conflict_out(done, nv) + seq![
                    (pre_r[i as int].0, UnicastNotify::Rename(false)),
                ]);
                assert(out@ == conflict_out(s2, nv));
            }
        } else {
            proof {
                assert(pre_r[i as int].1 != nv);
                assert(conflict_out(s2, nv) == conflict_out(done, nv) + Seq::<
                    (Address, UnicastNotify),
                >::empty());
                assert(conflict_out(done, nv) + Seq::<(Address, UnicastNotify)>::empty()
                    =~= conflict_out(done, nv));
                assert(out@ == conflict_out(s2, nv));
            }
        }
        i += 1;
    }
    proof {
        assert(pre_r.subrange(0, pre_r.len() as int) =~= pre_r);
    }
    if !roster.contains(addr) {
        *bcast = None;
        proof {
            lemma_prefix_refl(pre_n);
        }
        return out;
    }
    let registered: bool;
    let allowed: bool;
    match names.lookup(&name) {
        None => {
            registered = false;
            allowed = true;
        },
        Some(pw) => {
            registered = true;
            let empty = String::new();
            allowed = *pw == empty || *pw == password;
        },
    }
    if allowed {
        match roster.rename(addr, name.clone()) {
            Some(old_name) => {
                if !registered {
                    names.insert(name.clone(), password);
                    proof {
                        lemma_push_prefix(pre_n, (nv, password@));
                        lemma_names_registered_grow(pre_r, pre_n, (nv, password@));
                        assert(reg_contains(names@, nv)) by {
                            lemma_reg_contains_push(pre_n, (nv, password@), nv);
                        }
                        lemma_names_registered_set(pre_r, names@, addr, nv);
                    }
                } else {
                    proof {
                        lemma_prefix_refl(pre_n);
                        lemma_names_registered_set(pre_r, pre_n, addr, nv);
                    }
                }
                out.push((addr, UnicastNotify::Rename(true)));
                *bcast = Some(BroadcastNotify::Rename { old_name, new_name: name, addr });
                proof {
                    assert(out@ =~= conflict_out(pre_r, nv).push(
                        (addr, UnicastNotify::Rename(true)),
                    ));
                }
                out
            },
            // the requester was found a member just above, so rename cannot
            // miss it
            None => vstd::pervasive::unreached(),
        }
    } else {
        out.push((addr, UnicastNotify::Rename(false)));
        *bcast = None;
        proof {
            lemma_prefix_refl(pre_n);
            assert(out@ =~= conflict_out(pre_r, nv).push((addr, UnicastNotify::Rename(false))));
        }
        out
    }
}

/// Register: claim a never-claimed name with an explicit password, leaving
/// the requester's display name unchanged.
pub fn handle_register(
    addr: Address,
    name: String,
    password: String,
    roster: &Roster,
    names: &mut Registry,
    bcast: &mut Option<BroadcastNotify>,
) -> (out: Vec<(Address, UnicastNotify)>)
    requires
        old(names).wf(),
        names_registered(roster@, old(names)@),
    ensures
        final(names).wf(),
        names_registered(roster@, final(names)@),
        old(names)@.is_prefix_of(final(names)@),
        register_post(
            roster@,
            old(names)@,
            final(names)@,
            addr,
            name@,
            password@,
            *final(bcast),
            out@,
        ),
{
    let ghost pre_n = names@;
    if roster.contains(addr) {
        if !names.contains(&name) {
            let ghost e = (name@, password@);
            names.insert(name.clone(), password);
            *bcast = Some(BroadcastNotify::Register { name, addr });
            proof {
                lemma_push_prefix(pre_n, e);
                lemma_names_registered_grow(roster@, pre_n, e);
            }
            Vec::new()
        } else {
            let mut out: Vec<(Address, UnicastNotify)> = Vec::new();
            out.push((addr, UnicastNotify::Register(false)));
            *bcast = None;
            proof {
                lemma_prefix_refl(pre_n);
            }
            out
        }
    } else {
        *bcast = None;
        proof {
            lemma_prefix_refl(pre_n);
        }
        Vec::new()
    }
}

/// Submit: reply success to the member and announce its message to the room.
pub fn handle_submit(
    addr: Address,
    message: String,
    roster: &Roster,
    bcast: &mut Option<BroadcastNotify>,
) -> (out: Vec<(Address, UnicastNotify)>)
    ensures
        submit_post(roster@, addr, message@, *final(bcast), out@),
{
    match roster.name_of(addr) {
        Some(name) => {
            let mut out: Vec<(Address, UnicastNotify)> = Vec::new();
            out.push((addr, UnicastNotify::Submit(true)));
            *bcast = Some(BroadcastNotify::Submit { name, addr, message });
            out
        },
        None => {
            *bcast = None;
            Vec::new()
        },
    }
}

/// UnicastMessage: echo the text straight back to the member alone.
pub fn handle_unicast_message(
    addr: Address,
    message: String,
    roster: &Roster,
) -> (out: Vec<(Address, UnicastNotify)>)
    ensures
        unicast_post(roster@, addr, message@, out@),
{
    if roster.contains(addr) {
        let mut out: Vec<(Address, UnicastNotify)> = Vec::new();
        out.push((addr, UnicastNotify::Message(message)));
        out
    } else {
        Vec::new()
    }
}

/// One step of the coordinator: consume a request, update the room state,
/// and hand back the unicast replies to deliver, in order, together with at
/// most one broadcast to fan out to all current members.
pub fn handle_request(
    req: Request,
    roster: &mut Roster,
    names: &mut Registry,
    bcast: &mut Option<BroadcastNotify>,
) -> (out: Vec<(Address, UnicastNotify)>)
    requires
        old(roster).wf(),
        old(names).wf(),
        names_registered(old(roster)@, old(names)@),
    ensures
        final(roster).wf(),
        final(names).wf(),
        names_registered(final(roster)@, final(names)@),
        old(names)@.is_prefix_of(final(names)@),
        match req.body {
            RequestBody::Join => join_post(
                old(roster)@,
                final(roster)@,
                old(names)@,
                final(names)@,
                req.addr,
                *final(bcast),
                out@,
            ),
            RequestBody::Leave => final(names)@ == old(names)@ && leave_post(
                old(roster)@,
                final(roster)@,
                req.addr,
                *final(bcast),
                out@,
            ),
            RequestBody::List => final(roster)@ == old(roster)@ && final(names)@ == old(names)@
                && *final(bcast) is None && list_post(old(roster)@, req.addr, out@),
            RequestBody::Rename { name, password } => rename_post(
                old(roster)@,
                final(roster)@,
                old(names)@,
                final(names)@,
                req.addr,
                name@,
                password@,
                *final(bcast),
                out@,
            ),
            RequestBody::Register { name, password } => final(roster)@ == old(roster)@
                && register_post(
                old(roster)@,
                old(names)@,
                final(names)@,
                req.addr,
                name@,
                password@,
                *final(bcast),
                out@,
            ),
            RequestBody::Submit { message } => final(roster)@ == old(roster)@ && final(names)@
                == old(names)@ && submit_post(
                old(roster)@,
                req.addr,
                message@,
                *final(bcast),
                out@,
            ),
            RequestBody::UnicastMessage { message } => final(roster)@ == old(roster)@
                && final(names)@ == old(names)@ && *final(bcast) is None && unicast_post(
                old(roster)@,
                req.addr,
                message@,
                out@,
            ),
        },
{
    let ghost pre_r = roster@;
    let ghost pre_n = names@;
    let Request { addr, body } = req;
    match body {
        RequestBody::Join => handle_join(addr, roster, names, bcast),
        RequestBody::Leave => {
            let out = handle_leave(addr, roster, bcast);
            proof {
                lemma_prefix_refl(pre_n);
                if has_addr(pre_r, addr) {
                    lemma_names_registered_remove(pre_r, pre_n, addr);
                }
            }
            out
        },
        RequestBody::List => {
            *bcast = None;
            handle_list(addr, roster)
        },
        RequestBody::Rename { name, password } => handle_rename(
            addr,
            name,
            password,
            roster,
            names,
            bcast,
        ),
        RequestBody::Register { name, password } => handle_register(
            addr,
            name,
            password,
            roster,
            names,
            bcast,
        ),
        RequestBody::Submit { message } => handle_submit(addr, message, roster, bcast),
        RequestBody::UnicastMessage { message } => {
            *bcast = None;
            handle_unicast_message(addr, message, roster)
        },
    }
}

} // verus!

