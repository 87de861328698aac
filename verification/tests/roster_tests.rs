use aparte::bus::Aparte;
use aparte::contact::{Presence, Subscription};
use aparte::event::{Account, Event};
use aparte::jid::{BareJid, Jid};
use aparte::mods::contact::{ContactIndex, ContactMod};
use aparte::stanza::{
    Iq, IqResultPayload, IqType, PresenceStanza, RosterItem, Show, StanzaBody,
};

fn bare(node: &str, domain: &str) -> BareJid {
    BareJid { node: Some(String::from(node)), domain: String::from(domain) }
}

fn account() -> Account {
    Account { jid: bare("me", "example.com") }
}

fn roster_item(node: &str) -> RosterItem {
    RosterItem {
        jid: bare(node, "example.com"),
        name: Some(String::from(node)),
        subscription: Subscription::Both,
        groups: vec![String::from("friends")],
    }
}

fn roster_event(items: Vec<RosterItem>) -> Event {
    Event::Iq(account(), Iq { payload: IqType::Result(Some(IqResultPayload::Roster(items))) })
}

#[test]
fn connected_requests_the_roster() {
    let mut aparte = Aparte::new();
    let mut roster = ContactMod::new();
    let me = account();
    let jid = Jid::Bare(me.jid.clone());
    roster.on_event(&mut aparte, &Event::Connected(me, jid));
    assert_eq!(aparte.outgoing.len(), 1);
    let (_, stanza) = &aparte.outgoing[0];
    assert!(matches!(stanza.body, StanzaBody::RosterGet));
    assert_eq!(stanza.id.len(), 36);
}

#[test]
fn roster_result_populates_contacts() {
    let mut aparte = Aparte::new();
    let mut roster = ContactMod::new();
    roster.on_event(&mut aparte, &roster_event(vec![roster_item("alice"), roster_item("bob")]));
    assert_eq!(roster.contacts.len(), 2);
    let idx = ContactIndex { account: account(), jid: bare("alice", "example.com") };
    let c = roster.get(&idx).expect("alice should be known");
    assert_eq!(c.presence, Presence::Unavailable);
    assert_eq!(c.groups.len(), 1);
    assert_eq!(c.groups[0].0, "friends");
    // one Contact event per entry, in order
    assert_eq!(aparte.queue.len(), 2);
}

#[test]
fn roster_population_is_idempotent() {
    let mut aparte = Aparte::new();
    let mut roster = ContactMod::new();
    let ev = roster_event(vec![roster_item("alice"), roster_item("bob")]);
    roster.on_event(&mut aparte, &ev);
    let ev_again = roster_event(vec![roster_item("alice"), roster_item("bob")]);
    roster.on_event(&mut aparte, &ev_again);
    assert_eq!(roster.contacts.len(), 2, "keys are overwritten, not duplicated");
}

#[test]
fn presence_updates_known_contact() {
    let mut aparte = Aparte::new();
    let mut roster = ContactMod::new();
    roster.on_event(&mut aparte, &roster_event(vec![roster_item("alice")]));
    let before_queue = aparte.queue.len();
    let pres = PresenceStanza {
        from: Some(Jid::Bare(bare("alice", "example.com"))),
        show: Some(Show::Away),
    };
    roster.on_event(&mut aparte, &Event::Presence(account(), pres));
    let idx = ContactIndex { account: account(), jid: bare("alice", "example.com") };
    assert_eq!(roster.get(&idx).unwrap().presence, Presence::Away);
    assert_eq!(aparte.queue.len(), before_queue + 1);
}

#[test]
fn presence_from_full_address_hits_bare_entry() {
    let mut aparte = Aparte::new();
    let mut roster = ContactMod::new();
    roster.on_event(&mut aparte, &roster_event(vec![roster_item("alice")]));
    let pres = PresenceStanza {
        from: Some(Jid::Full(bare("alice", "example.com").with_resource(String::from("phone")))),
        show: None,
    };
    roster.on_event(&mut aparte, &Event::Presence(account(), pres));
    let idx = ContactIndex { account: account(), jid: bare("alice", "example.com") };
    assert_eq!(roster.get(&idx).unwrap().presence, Presence::Available);
}

#[test]
fn presence_never_creates_contacts() {
    let mut aparte = Aparte::new();
    let mut roster = ContactMod::new();
    roster.on_event(&mut aparte, &roster_event(vec![roster_item("alice")]));
    let pres = PresenceStanza {
        from: Some(Jid::Bare(bare("stranger", "example.com"))),
        show: Some(Show::Dnd),
    };
    roster.on_event(&mut aparte, &Event::Presence(account(), pres));
    assert_eq!(roster.contacts.len(), 1, "a presence alone never creates a contact");
    assert_eq!(aparte.queue.len(), 1, "no update event for an unknown sender");
}

#[test]
fn show_values_map_to_presence() {
    let cases = [
        (Some(Show::Away), Presence::Away),
        (Some(Show::Chat), Presence::Chat),
        (Some(Show::Dnd), Presence::Dnd),
        (Some(Show::Xa), Presence::Xa),
        (None, Presence::Available),
    ];
    for (show, expected) in cases {
        let mut aparte = Aparte::new();
        let mut roster = ContactMod::new();
        roster.on_event(&mut aparte, &roster_event(vec![roster_item("alice")]));
        let pres = PresenceStanza { from: Some(Jid::Bare(bare("alice", "example.com"))), show };
        roster.on_event(&mut aparte, &Event::Presence(account(), pres));
        let idx = ContactIndex { account: account(), jid: bare("alice", "example.com") };
        assert_eq!(roster.get(&idx).unwrap().presence, expected);
    }
}
