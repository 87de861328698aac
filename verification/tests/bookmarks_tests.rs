use aparte::bus::{Aparte, Component};
use aparte::contact::Bookmark;
use aparte::event::{Account, Event};
use aparte::jid::{BareJid, Jid};
use aparte::mods::disco::Disco;
use aparte::plugins::bookmarks::BookmarksPlugin;
use aparte::stanza::{
    ConferenceInfo, Iq, IqResultPayload, IqType, ItemPayload, PubsubItem, PubsubItems,
    StanzaBody, StorageConference,
};

fn bare(node: &str, domain: &str) -> BareJid {
    BareJid { node: Some(String::from(node)), domain: String::from(domain) }
}

fn account() -> Account {
    Account { jid: bare("me", "example.com") }
}

fn aparte_with_feature(feature: Option<&str>) -> Aparte {
    let mut aparte = Aparte::new();
    let mut disco = Disco::new();
    if let Some(f) = feature {
        disco.add_feature(String::from(f));
    }
    aparte.register(Component::Disco(disco));
    aparte
}

fn conference_item(id: Option<&str>, name: &str, nick: Option<&str>, autojoin: bool) -> PubsubItem {
    PubsubItem {
        id: id.map(String::from),
        payload: Some(ItemPayload::Conference(ConferenceInfo {
            autojoin,
            name: Some(String::from(name)),
            nick: nick.map(String::from),
            password: None,
        })),
    }
}

fn modern_result(items: Vec<PubsubItem>) -> Event {
    Event::Iq(
        account(),
        Iq {
            payload: IqType::Result(Some(IqResultPayload::Pubsub(PubsubItems {
                node: String::from("urn:xmpp:bookmarks:1"),
                items,
            }))),
        },
    )
}

fn modern_plugin() -> (Aparte, BookmarksPlugin) {
    let mut aparte = aparte_with_feature(Some("urn:xmpp:bookmarks:1"));
    let mut plugin = BookmarksPlugin::new();
    plugin.on_event(&mut aparte, &Event::Disco(account()));
    (aparte, plugin)
}

#[test]
fn disco_with_feature_selects_modern_backend() {
    let (aparte, _plugin) = modern_plugin();
    // node setup (create + configure) and then retrieval of the modern node
    assert_eq!(aparte.outgoing.len(), 3);
    assert!(matches!(aparte.outgoing[0].1.body, StanzaBody::PubsubCreate { .. }));
    assert!(matches!(aparte.outgoing[1].1.body, StanzaBody::PubsubConfigure { .. }));
    match &aparte.outgoing[2].1.body {
        StanzaBody::PubsubRetrieve { node } => assert_eq!(node, "urn:xmpp:bookmarks:1"),
        _ => panic!("expected a retrieval request"),
    }
}

#[test]
fn disco_without_feature_stays_legacy() {
    let mut aparte = aparte_with_feature(None);
    let mut plugin = BookmarksPlugin::new();
    plugin.on_event(&mut aparte, &Event::Disco(account()));
    assert_eq!(aparte.outgoing.len(), 1, "no node setup under the legacy encoding");
    match &aparte.outgoing[0].1.body {
        StanzaBody::PubsubRetrieve { node } => assert_eq!(node, "storage:bookmarks"),
        _ => panic!("expected a retrieval request"),
    }
}

#[test]
fn backend_selection_is_sticky() {
    let (_aparte, mut plugin) = modern_plugin();
    // a later discovery without the feature must not revert to legacy
    let mut aparte2 = aparte_with_feature(None);
    plugin.on_event(&mut aparte2, &Event::Disco(account()));
    match &aparte2.outgoing.last().unwrap().1.body {
        StanzaBody::PubsubRetrieve { node } => assert_eq!(node, "urn:xmpp:bookmarks:1"),
        _ => panic!("expected a retrieval request"),
    }
}

#[test]
fn item_without_id_is_skipped_not_fatal() {
    let (mut aparte, mut plugin) = modern_plugin();
    let items = vec![
        conference_item(Some("one@conf.example"), "one", None, false),
        conference_item(None, "two", None, false),
        conference_item(Some("three@conf.example"), "three", None, false),
    ];
    plugin.on_event(&mut aparte, &modern_result(items));
    assert_eq!(plugin.bookmarks.len(), 2, "exactly the items with an id decode");
    assert_eq!(plugin.bookmarks[0].name.as_deref(), Some("one"));
    assert_eq!(plugin.bookmarks[1].name.as_deref(), Some("three"));
}

#[test]
fn item_with_bad_address_or_payload_is_skipped() {
    let (mut aparte, mut plugin) = modern_plugin();
    let items = vec![
        conference_item(Some("not@a@jid"), "bad", None, false),
        PubsubItem { id: Some(String::from("empty@conf.example")), payload: None },
        conference_item(Some("good@conf.example"), "good", None, false),
    ];
    plugin.on_event(&mut aparte, &modern_result(items));
    assert_eq!(plugin.bookmarks.len(), 1);
    assert_eq!(plugin.bookmarks[0].name.as_deref(), Some("good"));
}

#[test]
fn replacement_rebuilds_indices_without_stale_entries() {
    let (mut aparte, mut plugin) = modern_plugin();
    plugin.on_event(
        &mut aparte,
        &modern_result(vec![
            conference_item(Some("one@conf.example"), "one", None, false),
            conference_item(Some("two@conf.example"), "two", None, false),
        ]),
    );
    assert!(plugin.get_by_name(&String::from("one")).is_some());
    // wholesale replacement: the old names must be gone
    plugin.on_event(
        &mut aparte,
        &modern_result(vec![conference_item(Some("three@conf.example"), "three", None, false)]),
    );
    assert!(plugin.get_by_name(&String::from("one")).is_none(), "stale entry survived");
    assert!(plugin.get_by_name(&String::from("two")).is_none(), "stale entry survived");
    let three = plugin.get_by_name(&String::from("three")).unwrap();
    assert_eq!(three.jid.to_text(), "three@conf.example");
    assert_eq!(plugin.bookmarks_by_jid.len(), 1);
    assert_eq!(plugin.bookmarks_by_name.len(), 1);
}

#[test]
fn autojoin_schedules_join_with_nickname_as_resource() {
    let (mut aparte, mut plugin) = modern_plugin();
    plugin.on_event(
        &mut aparte,
        &modern_result(vec![conference_item(
            Some("room@conf.example"),
            "room",
            Some("bob"),
            true,
        )]),
    );
    let events: Vec<&Event> = aparte.queue.iter().collect();
    assert_eq!(events.len(), 2);
    assert!(matches!(events[0], Event::Bookmark(_)));
    match events[1] {
        Event::Join(Jid::Full(f), false) => {
            assert_eq!(Jid::Full(f.clone()).to_text(), "room@conf.example/bob");
        },
        _ => panic!("expected a join under the full address"),
    }
}

#[test]
fn autojoin_without_nickname_uses_bare_address() {
    let (mut aparte, mut plugin) = modern_plugin();
    plugin.on_event(
        &mut aparte,
        &modern_result(vec![conference_item(Some("room@conf.example"), "room", None, true)]),
    );
    let events: Vec<&Event> = aparte.queue.iter().collect();
    assert_eq!(events.len(), 2);
    match events[1] {
        Event::Join(Jid::Bare(b), false) => assert_eq!(b.to_text(), "room@conf.example"),
        _ => panic!("expected a join under the bare address"),
    }
}

#[test]
fn no_autojoin_schedules_only_the_bookmark() {
    let (mut aparte, mut plugin) = modern_plugin();
    plugin.on_event(
        &mut aparte,
        &modern_result(vec![conference_item(Some("room@conf.example"), "room", None, false)]),
    );
    assert_eq!(aparte.queue.len(), 1);
    assert!(matches!(aparte.queue.iter().next().unwrap(), Event::Bookmark(_)));
}

#[test]
fn legacy_result_decodes_storage_documents() {
    let mut aparte = aparte_with_feature(None);
    let mut plugin = BookmarksPlugin::new();
    plugin.on_event(&mut aparte, &Event::Disco(account()));
    let storage = PubsubItem {
        id: None,
        payload: Some(ItemPayload::Storage(vec![
            StorageConference {
                autojoin: true,
                jid: bare("one", "conf.example"),
                name: String::from("one"),
                nick: Some(String::from("bob")),
                password: None,
            },
            StorageConference {
                autojoin: false,
                jid: bare("two", "conf.example"),
                name: String::from("two"),
                nick: None,
                password: None,
            },
        ])),
    };
    let ev = Event::Iq(
        account(),
        Iq {
            payload: IqType::Result(Some(IqResultPayload::Pubsub(PubsubItems {
                node: String::from("storage:bookmarks"),
                items: vec![storage],
            }))),
        },
    );
    plugin.on_event(&mut aparte, &ev);
    assert_eq!(plugin.bookmarks.len(), 2);
    assert_eq!(plugin.bookmarks[0].name.as_deref(), Some("one"));
    assert!(plugin.bookmarks[0].autojoin);
    assert_eq!(plugin.bookmarks[1].name.as_deref(), Some("two"));
}

#[test]
fn result_for_other_node_is_ignored() {
    // legacy backend ignores a modern-node result
    let mut aparte = aparte_with_feature(None);
    let mut plugin = BookmarksPlugin::new();
    plugin.on_event(&mut aparte, &Event::Disco(account()));
    plugin.on_event(
        &mut aparte,
        &modern_result(vec![conference_item(Some("one@conf.example"), "one", None, false)]),
    );
    assert_eq!(plugin.bookmarks.len(), 0);
}

#[test]
fn add_appends_locally_and_publishes_under_modern() {
    let (_aparte, mut plugin) = modern_plugin();
    let bookmark = Bookmark {
        jid: bare("room", "conf.example"),
        name: Some(String::from("room")),
        nick: Some(String::from("bob")),
        password: None,
        autojoin: true,
    };
    let stanza = plugin.add(bookmark).expect("the modern encoding stores bookmarks");
    assert_eq!(plugin.bookmarks.len(), 1);
    match stanza {
        StanzaBody::PubsubPublish { node, item_id, payload, options } => {
            assert_eq!(node, "urn:xmpp:bookmarks:1");
            assert_eq!(item_id, "room@conf.example");
            assert!(payload.autojoin);
            assert_eq!(payload.nick.as_deref(), Some("bob"));
            assert!(payload.password.is_none());
            assert!(options.persist_items);
            assert_eq!(options.access_model, "whitelist");
        },
        _ => panic!("expected a publish request"),
    }
}

#[test]
fn add_under_legacy_is_unsupported_but_still_appends() {
    let mut plugin = BookmarksPlugin::new();
    let bookmark = Bookmark {
        jid: bare("room", "conf.example"),
        name: Some(String::from("room")),
        nick: None,
        password: None,
        autojoin: false,
    };
    assert!(plugin.add(bookmark).is_err());
    assert_eq!(plugin.bookmarks.len(), 1);
}

#[test]
fn delete_sends_retract_and_keeps_local_state() {
    let (mut aparte, mut plugin) = modern_plugin();
    plugin.on_event(
        &mut aparte,
        &modern_result(vec![conference_item(Some("room@conf.example"), "room", None, false)]),
    );
    let stanza = plugin
        .delete(&Jid::Bare(bare("room", "conf.example")))
        .expect("the modern encoding retracts bookmarks");
    match stanza {
        StanzaBody::PubsubRetract { node, item_id } => {
            assert_eq!(node, "urn:xmpp:bookmarks:1");
            assert_eq!(item_id, "room@conf.example");
        },
        _ => panic!("expected a retract request"),
    }
    assert_eq!(plugin.bookmarks.len(), 1, "removal never touches the local list");
}

#[test]
fn get_by_name_unknown_is_none() {
    let plugin = BookmarksPlugin::new();
    assert!(plugin.get_by_name(&String::from("nowhere")).is_none());
}

#[test]
fn node_configuration_form_values() {
    let (aparte, _plugin) = modern_plugin();
    match &aparte.outgoing[1].1.body {
        StanzaBody::PubsubConfigure { node, form } => {
            assert_eq!(node, "urn:xmpp:bookmarks:1");
            assert!(form.persist_items);
            assert_eq!(form.send_last_published_item, "never");
            assert_eq!(form.access_model, "whitelist");
            assert_eq!(form.max_items, "10");
        },
        _ => panic!("expected a configure request"),
    }
}

#[test]
fn modern_retrieve_names_the_modern_node() {
    let backend = aparte::plugins::bookmarks::Bookmarks2 {};
    match backend.retreive() {
        StanzaBody::PubsubRetrieve { node } => assert_eq!(node, "urn:xmpp:bookmarks:1"),
        _ => panic!("expected a retrieval request"),
    }
}

#[test]
fn edit_reappends_like_add() {
    let (mut aparte, mut plugin) = modern_plugin();
    plugin.on_event(
        &mut aparte,
        &modern_result(vec![conference_item(Some("room@conf.example"), "room", None, false)]),
    );
    let cmd = aparte::command::parse(
        &vec![aparte::plugins::bookmarks::bookmark_command()],
        "/bookmark edit room room@conf.example autojoin=on",
    )
    .unwrap();
    plugin.handle_command(&mut aparte, &account(), &cmd).unwrap();
    assert_eq!(plugin.bookmarks.len(), 2, "edit re-adds instead of replacing");
    assert!(plugin.bookmarks[1].autojoin);
}

#[test]
fn handler_refuses_a_foreign_command() {
    let (mut aparte, mut plugin) = modern_plugin();
    let cmd = aparte::command::ParsedCommand { path: vec![String::from("quit")], args: vec![] };
    let r = plugin.handle_command(&mut aparte, &account(), &cmd);
    assert!(matches!(r, Err(aparte::command::CommandError::BadCommand)));
}

#[test]
fn component_descriptions() {
    let plugin = BookmarksPlugin::new();
    assert_eq!(plugin.description(), "XEP-0402: PEP Native Bookmarks");
    let roster = aparte::mods::contact::ContactMod::new();
    assert_eq!(roster.description(), "Contact management");
}
