use aparte::bus::{Aparte, Component, InputError};
use aparte::command::CommandError;
use aparte::contact::Bookmark;
use aparte::event::{Account, Event};
use aparte::jid::{BareJid, Jid};
use aparte::mods::contact::ContactMod;
use aparte::mods::disco::Disco;
use aparte::plugins::bookmarks::BookmarksPlugin;
use aparte::stanza::StanzaBody;

fn bare(node: &str, domain: &str) -> BareJid {
    BareJid { node: Some(String::from(node)), domain: String::from(domain) }
}

fn account() -> Account {
    Account { jid: bare("me", "example.com") }
}

fn bookmark_event(name: &str) -> Event {
    Event::Bookmark(Bookmark {
        jid: bare(name, "conf.example"),
        name: Some(String::from(name)),
        nick: None,
        password: None,
        autojoin: false,
    })
}

fn bookmark_name(e: &Event) -> String {
    match e {
        Event::Bookmark(b) => b.name.clone().unwrap(),
        _ => panic!("expected a bookmark event"),
    }
}

#[test]
fn dispatch_order_equals_schedule_order() {
    let mut aparte = Aparte::new();
    aparte.schedule(bookmark_event("first"));
    aparte.schedule(bookmark_event("second"));
    aparte.schedule(bookmark_event("third"));
    let drawn: Vec<String> = (0..3)
        .map(|_| bookmark_name(&aparte.dispatch_next().expect("an event is pending")))
        .collect();
    assert_eq!(drawn, vec!["first", "second", "third"]);
    assert!(aparte.dispatch_next().is_none());
}

#[test]
fn dispatch_on_empty_queue_is_none() {
    let mut aparte = Aparte::new();
    assert!(aparte.dispatch_next().is_none());
}

#[test]
fn startup_and_command_round_trip() {
    // register discovery, contacts and bookmarks, initialize, negotiate
    // the backend, then run a command line end to end
    let mut aparte = Aparte::new();
    aparte.register(Component::Disco(Disco::new()));
    aparte.register(Component::Contact(ContactMod::new()));
    let mut bookmarks = BookmarksPlugin::new();
    bookmarks.init(&mut aparte).expect("discovery is registered");
    aparte.register(Component::Bookmarks(bookmarks));

    let me = account();
    aparte.schedule(Event::Connected(me.clone(), Jid::Bare(me.jid.clone())));
    aparte.schedule(Event::Disco(me.clone()));
    while aparte.dispatch_next().is_some() {}

    // the roster request, then the modern node setup and retrieval
    assert!(matches!(aparte.outgoing[0].1.body, StanzaBody::RosterGet));
    assert!(matches!(aparte.outgoing[1].1.body, StanzaBody::PubsubCreate { .. }));
    assert!(matches!(aparte.outgoing[2].1.body, StanzaBody::PubsubConfigure { .. }));
    assert!(matches!(aparte.outgoing[3].1.body, StanzaBody::PubsubRetrieve { .. }));
    let sent = aparte.outgoing.len();

    let r = aparte.handle_input(&me, "/bookmark add aparte aparte@conference.example autojoin=on");
    assert!(r.is_ok());
    match &aparte.outgoing[sent].1.body {
        StanzaBody::PubsubPublish { item_id, payload, .. } => {
            assert_eq!(item_id, "aparte@conference.example");
            assert!(payload.autojoin);
        },
        _ => panic!("expected a publish request"),
    }
}

#[test]
fn command_under_legacy_backend_is_unsupported() {
    let mut aparte = Aparte::new();
    aparte.register(Component::Disco(Disco::new()));
    let mut bookmarks = BookmarksPlugin::new();
    bookmarks.init(&mut aparte).expect("discovery is registered");
    aparte.register(Component::Bookmarks(bookmarks));
    // no Disco event was processed: the legacy backend is still assumed
    let r = aparte.handle_input(&account(), "/bookmark add aparte aparte@conference.example");
    assert!(matches!(r, Err(InputError::Command(CommandError::Unsupported))));
}

#[test]
fn parse_error_reaches_the_caller_and_mutates_nothing() {
    let mut aparte = Aparte::new();
    aparte.register(Component::Disco(Disco::new()));
    let mut bookmarks = BookmarksPlugin::new();
    bookmarks.init(&mut aparte).expect("discovery is registered");
    aparte.register(Component::Bookmarks(bookmarks));
    let before = aparte.outgoing.len();
    let r = aparte.handle_input(&account(), "/bookmark add onlyname");
    assert!(matches!(r, Err(InputError::Parse(_))));
    assert_eq!(aparte.outgoing.len(), before);
    assert_eq!(aparte.queue.len(), 0);
}

#[test]
fn input_without_handler_is_reported() {
    let mut aparte = Aparte::new();
    aparte.add_command(aparte::plugins::bookmarks::bookmark_command());
    let r = aparte.handle_input(&account(), "/bookmark del room@conf.example");
    assert!(matches!(r, Err(InputError::NoHandler)));
}

#[test]
fn init_fails_without_discovery() {
    let mut aparte = Aparte::new();
    let mut bookmarks = BookmarksPlugin::new();
    assert!(bookmarks.init(&mut aparte).is_err());
}

#[test]
fn sent_stanzas_carry_fresh_ids() {
    let mut aparte = Aparte::new();
    let me = account();
    aparte.send(&me, StanzaBody::RosterGet);
    aparte.send(&me, StanzaBody::RosterGet);
    assert_eq!(aparte.outgoing.len(), 2);
    assert_eq!(aparte.outgoing[0].1.id.len(), 36);
    assert_eq!(aparte.outgoing[1].1.id.len(), 36);
    assert_ne!(aparte.outgoing[0].1.id, aparte.outgoing[1].1.id, "ids are fresh");
}

#[test]
fn events_survive_dispatch_in_order_behind_the_head() {
    let mut aparte = Aparte::new();
    aparte.register(Component::Contact(ContactMod::new()));
    aparte.schedule(bookmark_event("head"));
    aparte.schedule(bookmark_event("tail-one"));
    aparte.schedule(bookmark_event("tail-two"));
    let head = aparte.dispatch_next().unwrap();
    assert_eq!(bookmark_name(&head), "head");
    let rest: Vec<String> = aparte.queue.iter().map(bookmark_name).collect();
    assert_eq!(rest, vec!["tail-one", "tail-two"]);
}
