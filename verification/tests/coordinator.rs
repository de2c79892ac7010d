use telnet_chat::message::{Address, BroadcastNotify, Request, RequestBody, UnicastNotify};
use telnet_chat::registry::Registry;
use telnet_chat::roster::Roster;
use telnet_chat::server::{get_random_name, handle_request};

fn step(
    roster: &mut Roster,
    names: &mut Registry,
    addr: Address,
    body: RequestBody,
) -> (Vec<(Address, UnicastNotify)>, Option<BroadcastNotify>) {
    let mut bcast: Option<BroadcastNotify> = None;
    let out = handle_request(Request { addr, body }, roster, names, &mut bcast);
    (out, bcast)
}

fn join(roster: &mut Roster, names: &mut Registry, addr: Address) -> String {
    let (out, bcast) = step(roster, names, addr, RequestBody::Join);
    assert_eq!(out.len(), 2);
    let name = match &out[0].1 {
        UnicastNotify::Join { name } => name.clone(),
        other => panic!("expected a Join confirmation, got {:?}", other),
    };
    match bcast {
        Some(BroadcastNotify::Join { name: n, addr: a }) => {
            assert_eq!(n, name);
            assert_eq!(a, addr);
        }
        other => panic!("expected a Join broadcast, got {:?}", other),
    }
    name
}

fn is_guest_name(name: &str) -> bool {
    name.len() == 8 && name.starts_with("Guest") && name[5..].chars().all(|c| c.is_ascii_digit())
}

#[test]
fn join_assigns_guest_name() {
    let mut roster = Roster::new();
    let mut names = Registry::new();
    let (out, bcast) = step(&mut roster, &mut names, 1, RequestBody::Join);
    assert_eq!(out.len(), 2);
    assert_eq!(out[0].0, 1);
    let assigned = match &out[0].1 {
        UnicastNotify::Join { name } => name.clone(),
        other => panic!("expected a Join confirmation, got {:?}", other),
    };
    assert!(is_guest_name(&assigned));
    // the membership snapshot is taken before insertion: the new member is
    // not included in its own initial listing
    assert_eq!(out[1].0, 1);
    match &out[1].1 {
        UnicastNotify::List(list) => assert!(list.is_empty()),
        other => panic!("expected a List, got {:?}", other),
    }
    match bcast {
        Some(BroadcastNotify::Join { name, addr }) => {
            assert_eq!(name, assigned);
            assert_eq!(addr, 1);
        }
        other => panic!("expected a Join broadcast, got {:?}", other),
    }
}

#[test]
fn two_joins_get_distinct_names() {
    let mut roster = Roster::new();
    let mut names = Registry::new();
    let n1 = join(&mut roster, &mut names, 1);
    let n2 = join(&mut roster, &mut names, 2);
    assert!(is_guest_name(&n1));
    assert!(is_guest_name(&n2));
    assert_ne!(n1, n2);
    // the second member's initial listing holds exactly the first member
    let members = roster.members();
    assert_eq!(members.len(), 2);
    assert_eq!(members[0].name, n1);
    assert_eq!(members[0].addr, 1);
    assert_eq!(members[1].name, n2);
    assert_eq!(members[1].addr, 2);
}

#[test]
fn submit_echoes_and_broadcasts() {
    let mut roster = Roster::new();
    let mut names = Registry::new();
    let n1 = join(&mut roster, &mut names, 1);
    let _n2 = join(&mut roster, &mut names, 2);
    let (out, bcast) = step(
        &mut roster,
        &mut names,
        1,
        RequestBody::Submit { message: String::from("hello room") },
    );
    assert_eq!(out.len(), 1);
    assert_eq!(out[0].0, 1);
    assert!(matches!(out[0].1, UnicastNotify::Submit(true)));
    match bcast {
        Some(BroadcastNotify::Submit { name, addr, message }) => {
            assert_eq!(name, n1);
            assert_eq!(addr, 1);
            assert_eq!(message, "hello room");
        }
        other => panic!("expected a Submit broadcast, got {:?}", other),
    }
    // the broadcast goes to every current member, the sender included
    assert_eq!(roster.members().len(), 2);
}

#[test]
fn submit_by_non_member_is_ignored() {
    let mut roster = Roster::new();
    let mut names = Registry::new();
    let _n1 = join(&mut roster, &mut names, 1);
    let (out, bcast) = step(
        &mut roster,
        &mut names,
        99,
        RequestBody::Submit { message: String::from("ghost") },
    );
    assert!(out.is_empty());
    assert!(bcast.is_none());
}

#[test]
fn leave_is_idempotent() {
    let mut roster = Roster::new();
    let mut names = Registry::new();
    let n1 = join(&mut roster, &mut names, 1);
    let (out, bcast) = step(&mut roster, &mut names, 1, RequestBody::Leave);
    assert_eq!(out.len(), 1);
    assert_eq!(out[0].0, 1);
    assert!(matches!(out[0].1, UnicastNotify::Leave));
    match bcast {
        Some(BroadcastNotify::Leave { name, addr }) => {
            assert_eq!(name, n1);
            assert_eq!(addr, 1);
        }
        other => panic!("expected a Leave broadcast, got {:?}", other),
    }
    // the second Leave has no additional effect: no reply, no broadcast
    let (out2, bcast2) = step(&mut roster, &mut names, 1, RequestBody::Leave);
    assert!(out2.is_empty());
    assert!(bcast2.is_none());
    assert!(roster.members().is_empty());
}

#[test]
fn list_includes_self_and_ignores_non_members() {
    let mut roster = Roster::new();
    let mut names = Registry::new();
    let n1 = join(&mut roster, &mut names, 1);
    let n2 = join(&mut roster, &mut names, 2);
    let (out, bcast) = step(&mut roster, &mut names, 1, RequestBody::List);
    assert!(bcast.is_none());
    assert_eq!(out.len(), 1);
    assert_eq!(out[0].0, 1);
    match &out[0].1 {
        UnicastNotify::List(list) => {
            assert_eq!(list.len(), 2);
            assert_eq!(list[0].name, n1);
            assert_eq!(list[1].name, n2);
        }
        other => panic!("expected a List, got {:?}", other),
    }
    let (out2, bcast2) = step(&mut roster, &mut names, 99, RequestBody::List);
    assert!(out2.is_empty());
    assert!(bcast2.is_none());
}

#[test]
fn register_then_rename_round_trip() {
    let mut roster = Roster::new();
    let mut names = Registry::new();
    let _a = join(&mut roster, &mut names, 1);
    let b = join(&mut roster, &mut names, 2);
    let c = join(&mut roster, &mut names, 3);
    // member A claims "alice" behind the password "secret"
    let (out, bcast) = step(
        &mut roster,
        &mut names,
        1,
        RequestBody::Register {
            name: String::from("alice"),
            password: String::from("secret"),
        },
    );
    assert!(out.is_empty());
    match bcast {
        Some(BroadcastNotify::Register { name, addr }) => {
            assert_eq!(name, "alice");
            assert_eq!(addr, 1);
        }
        other => panic!("expected a Register broadcast, got {:?}", other),
    }
    // member B renames to "alice" with the right password: success
    let (out2, bcast2) = step(
        &mut roster,
        &mut names,
        2,
        RequestBody::Rename {
            name: String::from("alice"),
            password: String::from("secret"),
        },
    );
    assert_eq!(out2.len(), 1);
    assert_eq!(out2[0].0, 2);
    assert!(matches!(out2[0].1, UnicastNotify::Rename(true)));
    match bcast2 {
        Some(BroadcastNotify::Rename { old_name, new_name, addr }) => {
            assert_eq!(old_name, b);
            assert_eq!(new_name, "alice");
            assert_eq!(addr, 2);
        }
        other => panic!("expected a Rename broadcast, got {:?}", other),
    }
    assert_eq!(roster.name_of(2), Some(String::from("alice")));
    // member C tries the wrong password: failure, C's name is unchanged
    let (out3, bcast3) = step(
        &mut roster,
        &mut names,
        3,
        RequestBody::Rename {
            name: String::from("alice"),
            password: String::from("wrong"),
        },
    );
    // "alice" is currently held by B, so B is notified of the clash first
    assert_eq!(out3.len(), 2);
    assert_eq!(out3[0].0, 2);
    assert!(matches!(out3[0].1, UnicastNotify::Rename(false)));
    assert_eq!(out3[1].0, 3);
    assert!(matches!(out3[1].1, UnicastNotify::Rename(false)));
    assert!(bcast3.is_none());
    assert_eq!(roster.name_of(3), Some(c));
}

#[test]
fn register_taken_name_fails() {
    let mut roster = Roster::new();
    let mut names = Registry::new();
    let n1 = join(&mut roster, &mut names, 1);
    let _n2 = join(&mut roster, &mut names, 2);
    // the auto-assigned guest name of member 1 is already registered
    let (out, bcast) = step(
        &mut roster,
        &mut names,
        2,
        RequestBody::Register { name: n1, password: String::from("pw") },
    );
    assert_eq!(out.len(), 1);
    assert_eq!(out[0].0, 2);
    assert!(matches!(out[0].1, UnicastNotify::Register(false)));
    assert!(bcast.is_none());
}

#[test]
fn register_by_non_member_is_ignored() {
    let mut roster = Roster::new();
    let mut names = Registry::new();
    let (out, bcast) = step(
        &mut roster,
        &mut names,
        99,
        RequestBody::Register { name: String::from("alice"), password: String::from("pw") },
    );
    assert!(out.is_empty());
    assert!(bcast.is_none());
    assert!(!names.contains(&String::from("alice")));
}

#[test]
fn rename_to_live_name_notifies_holder() {
    let mut roster = Roster::new();
    let mut names = Registry::new();
    let x = join(&mut roster, &mut names, 1);
    let _y = join(&mut roster, &mut names, 2);
    // member 2 renames to member 1's current name: member 1 gets a failure
    // notice of the clash; the name is an unprotected guest claim, so the
    // rename itself still goes through for member 2
    let (out, bcast) = step(
        &mut roster,
        &mut names,
        2,
        RequestBody::Rename { name: x.clone(), password: String::from("whatever") },
    );
    assert_eq!(out.len(), 2);
    assert_eq!(out[0].0, 1);
    assert!(matches!(out[0].1, UnicastNotify::Rename(false)));
    assert_eq!(out[1].0, 2);
    assert!(matches!(out[1].1, UnicastNotify::Rename(true)));
    assert!(matches!(bcast, Some(BroadcastNotify::Rename { .. })));
    assert_eq!(roster.name_of(2), Some(x));
}

#[test]
fn empty_password_claim_is_unprotected() {
    let mut roster = Roster::new();
    let mut names = Registry::new();
    let _n1 = join(&mut roster, &mut names, 1);
    let _n2 = join(&mut roster, &mut names, 2);
    let (out, _) = step(
        &mut roster,
        &mut names,
        1,
        RequestBody::Register { name: String::from("bob"), password: String::new() },
    );
    assert!(out.is_empty());
    // another member renames to "bob" with an arbitrary password: success
    let (out2, _) = step(
        &mut roster,
        &mut names,
        2,
        RequestBody::Rename { name: String::from("bob"), password: String::from("anything") },
    );
    assert_eq!(out2.len(), 1);
    assert!(matches!(out2[0].1, UnicastNotify::Rename(true)));
    assert_eq!(roster.name_of(2), Some(String::from("bob")));
    // the stored password for "bob" remains empty: no ownership transfer
    assert_eq!(names.lookup(&String::from("bob")), Some(&String::new()));
}

#[test]
fn rename_to_fresh_name_claims_it() {
    let mut roster = Roster::new();
    let mut names = Registry::new();
    let _n1 = join(&mut roster, &mut names, 1);
    let (out, _) = step(
        &mut roster,
        &mut names,
        1,
        RequestBody::Rename { name: String::from("zed"), password: String::from("pw") },
    );
    assert_eq!(out.len(), 1);
    assert!(matches!(out[0].1, UnicastNotify::Rename(true)));
    assert_eq!(roster.name_of(1), Some(String::from("zed")));
    // the fresh name was claimed with the supplied password
    assert_eq!(names.lookup(&String::from("zed")), Some(&String::from("pw")));
    // a later member cannot take it without that password
    let _n2 = join(&mut roster, &mut names, 2);
    let (out2, bcast2) = step(
        &mut roster,
        &mut names,
        2,
        RequestBody::Rename { name: String::from("zed"), password: String::from("guess") },
    );
    // "zed" is live on member 1, so member 1 hears of the clash
    assert_eq!(out2.len(), 2);
    assert_eq!(out2[0].0, 1);
    assert!(matches!(out2[0].1, UnicastNotify::Rename(false)));
    assert_eq!(out2[1].0, 2);
    assert!(matches!(out2[1].1, UnicastNotify::Rename(false)));
    assert!(bcast2.is_none());
}

#[test]
fn rename_by_non_member_is_ignored() {
    let mut roster = Roster::new();
    let mut names = Registry::new();
    let _n1 = join(&mut roster, &mut names, 1);
    let (out, bcast) = step(
        &mut roster,
        &mut names,
        99,
        RequestBody::Rename { name: String::from("alice"), password: String::new() },
    );
    assert!(out.is_empty());
    assert!(bcast.is_none());
    assert!(!names.contains(&String::from("alice")));
}

#[test]
fn unicast_message_echoes_privately() {
    let mut roster = Roster::new();
    let mut names = Registry::new();
    let _n1 = join(&mut roster, &mut names, 1);
    let (out, bcast) = step(
        &mut roster,
        &mut names,
        1,
        RequestBody::UnicastMessage { message: String::from("just me") },
    );
    assert_eq!(out.len(), 1);
    assert_eq!(out[0].0, 1);
    match &out[0].1 {
        UnicastNotify::Message(text) => assert_eq!(text, "just me"),
        other => panic!("expected a Message, got {:?}", other),
    }
    assert!(bcast.is_none());
    let (out2, bcast2) = step(
        &mut roster,
        &mut names,
        99,
        RequestBody::UnicastMessage { message: String::from("nobody") },
    );
    assert!(out2.is_empty());
    assert!(bcast2.is_none());
}

#[test]
fn random_guest_names_are_well_formed() {
    for _ in 0..100 {
        let name = get_random_name();
        assert!(is_guest_name(&name));
    }
}

#[test]
fn exhausted_guest_namespace_makes_join_a_no_op() {
    let mut roster = Roster::new();
    let mut names = Registry::new();
    let n1 = join(&mut roster, &mut names, 1);
    // claim every guest name; member 1's own auto-claim is already there
    for a in 0..10 {
        for b in 0..10 {
            for c in 0..10 {
                let candidate = format!("Guest{}{}{}", a, b, c);
                if candidate != n1 {
                    let (out, _) = step(
                        &mut roster,
                        &mut names,
                        1,
                        RequestBody::Register { name: candidate, password: String::new() },
                    );
                    assert!(out.is_empty());
                }
            }
        }
    }
    // no free guest name is left: the join changes nothing
    let (out, bcast) = step(&mut roster, &mut names, 2, RequestBody::Join);
    assert!(out.is_empty());
    assert!(bcast.is_none());
    assert_eq!(roster.members().len(), 1);
}
