//! Bookmark storage with two mutually exclusive wire encodings, chosen
//! once per session: a legacy flat storage document under one node name,
//! and a modern per-item encoding under another, with node setup and
//! per-item publish and retract. The component keeps the bookmark list
//! and two lookup indices that are rebuilt wholesale whenever the list is
//! replaced from a retrieval result.

use vstd::prelude::*;
use crate::bus::{spec_disco_features, Aparte};
use crate::command::{
    spec_get_arg, ArgType, ArgValue, ArgValueView, CommandDef, CommandDefView, CommandError, ParamDef,
    ParamDefView, ParsedCommand, ParsedCommandView, SubCommand, SubCommandView,
};
use crate::contact::{clone_opt_string, Bookmark, BookmarkView};
use crate::event::{Account, Event, EventView};
use crate::jid::{
    spec_bare_jid_string, spec_jid_string, spec_parse_jid, BareJid, BareJidView, FullJidView, Jid,
    JidView,
};
use crate::stanza::{
    ns_bookmarks, ns_bookmarks2, spec_ns_bookmarks, spec_ns_bookmarks2, ConferenceInfo,
    ConferenceInfoView, IqResultPayload, IqType, ItemPayload, ItemPayloadView, NodeConfig,
    NodeConfigView, PublishOptions, PublishOptionsView, PubsubItem, PubsubItems, PubsubItemView,
    StanzaBody, StanzaBodyView, StorageConferenceView,
};

verus! {

// ---------------------------------------------------------------------
// The two wire encodings
// ---------------------------------------------------------------------

/// The legacy encoding: one flat storage document under the legacy node.
/// Only retrieval and decoding are implemented for it; node setup, add
/// and delete are not available under this encoding.
pub struct Bookmarks {}

/// The modern encoding: one item per conference under the modern node,
/// with node creation, configuration, publish and retract.
pub struct Bookmarks2 {}

/// The bookmark a legacy storage entry denotes.
pub open spec fn bookmark_of_storage(c: StorageConferenceView) -> BookmarkView {
    BookmarkView {
        jid: c.jid,
        name: Some(c.name),
        nick: c.nick,
        password: c.password,
        autojoin: c.autojoin,
    }
}

/// Legacy decoding: every storage entry of every item carrying a storage
/// document, in order; items without one are skipped.
pub open spec fn legacy_decode(items: Seq<PubsubItemView>) -> Seq<BookmarkView>
    decreases items.len(),
{
    if items.len() == 0 {
        Seq::empty()
    } else {
        (match items[0].payload {
            Some(ItemPayloadView::Storage(confs)) => confs.map(
                |i: int, c: StorageConferenceView| bookmark_of_storage(c),
            ),
            _ => Seq::empty(),
        }) + legacy_decode(items.drop_first())
    }
}

/// The bookmark one modern item denotes: nothing when the id is missing,
/// the id is not a bare address, or the payload is missing or not a
/// conference payload.
pub open spec fn modern_item_bookmark(it: PubsubItemView) -> Option<BookmarkView> {
    match it.id {
        Some(id) => match spec_parse_jid(id) {
            Ok(JidView::Bare(b)) => match it.payload {
                Some(ItemPayloadView::Conference(conf)) => Some(
                    BookmarkView {
                        jid: b,
                        name: conf.name,
                        nick: conf.nick,
                        password: conf.password,
                        autojoin: conf.autojoin,
                    },
                ),
                _ => None,
            },
            _ => None,
        },
        None => None,
    }
}

/// Modern decoding: each decodable item in order; a bad item is skipped
/// and never aborts the rest of the batch.
pub open spec fn modern_decode(items: Seq<PubsubItemView>) -> Seq<BookmarkView>
    decreases items.len(),
{
    if items.len() == 0 {
        Seq::empty()
    } else {
        (match modern_item_bookmark(items[0]) {
            Some(b) => seq![b],
            None => Seq::empty(),
        }) + modern_decode(items.drop_first())
    }
}

/// The node configuration the modern encoding submits.
pub open spec fn spec_node_config() -> NodeConfigView {
    NodeConfigView {
        persist_items: true,
        send_last_published_item: "never"@,
        access_model: "whitelist"@,
        max_items: "10"@,
    }
}

/// The publish options attached to every modern publish.
pub open spec fn spec_publish_options() -> PublishOptionsView {
    PublishOptionsView { persist_items: true, access_model: "whitelist"@ }
}

/// The publish stanza that stores one bookmark under the modern encoding.
pub open spec fn spec_publish_stanza(b: BookmarkView) -> StanzaBodyView {
    StanzaBodyView::PubsubPublish {
        node: spec_ns_bookmarks2(),
        item_id: spec_bare_jid_string(b.jid),
        payload: ConferenceInfoView {
            autojoin: b.autojoin,
            name: b.name,
            nick: b.nick,
            password: None,
        },
        options: spec_publish_options(),
    }
}

impl Bookmarks {
    /// The retrieval request for the legacy node.
    fn retreive(&self) -> (r: StanzaBody)
        ensures
            r@ == (StanzaBodyView::PubsubRetrieve { node: spec_ns_bookmarks() }),
    {
        StanzaBody::PubsubRetrieve { node: ns_bookmarks() }
    }

    /// Decode a legacy retrieval result.
    fn handle(&self, items: &Vec<PubsubItem>) -> (r: Vec<Bookmark>)
        ensures
            r@.map(|i: int, b: Bookmark| b@) == legacy_decode(
                items@.map(|i: int, it: PubsubItem| it@),
            ),
    {
        let ghost itemsv = items@.map(|i: int, it: PubsubItem| it@);
        let mut out: Vec<Bookmark> = Vec::new();
        let mut i: usize = 0;
        proof {
            assert(out@.map(|k: int, b: Bookmark| b@) =~= Seq::<BookmarkView>::empty());
            assert(itemsv.skip(0) =~= itemsv);
        }
        while i < items.len()
            invariant
                i <= items@.len(),
                itemsv == items@.map(|k: int, it: PubsubItem| it@),
                out@.map(|k: int, b: Bookmark| b@) + legacy_decode(itemsv.skip(i as int))
                    == legacy_decode(itemsv),
            decreases items@.len() - i,
        {
            let ghost out_pre = out@.map(|k: int, b: Bookmark| b@);
            proof {
                assert(itemsv.skip(i as int)[0] == itemsv[i as int]);
                assert(itemsv.skip(i as int).drop_first() =~= itemsv.skip(i as int + 1));
            }
            match &items[i].payload {
                Some(ItemPayload::Storage(confs)) => {
                    let ghost confsv = confs@.map(|k: int, c: crate::stanza::StorageConference| c@);
                    let mut j: usize = 0;
                    while j < confs.len()
                        invariant
                            j <= confs@.len(),
                            confsv == confs@.map(
                                |k: int, c: crate::stanza::StorageConference| c@,
                            ),
                            out@.map(|k: int, b: Bookmark| b@) =~= out_pre + confsv.map(
                                |k: int, c: StorageConferenceView| bookmark_of_storage(c),
                            ).take(j as int),
                        decreases confs@.len() - j,
                    {
                        let ghost mapped = confsv.map(
                            |k: int, c: StorageConferenceView| bookmark_of_storage(c),
                        );
                        let ghost before = out@.map(|k: int, b: Bookmark| b@);
                        let conf = &confs[j];
                        let b = Bookmark {
                            jid: conf.jid.clone(),
                            name: Some(conf.name.clone()),
                            nick: clone_opt_string(&conf.nick),
                            password: clone_opt_string(&conf.password),
                            autojoin: conf.autojoin,
                        };
                        proof {
                            assert(b@ == bookmark_of_storage(confsv[j as int]));
                        }
                        out.push(b);
                        proof {
                            assert(out@.map(|k: int, b2: Bookmark| b2@) =~= before.push(
                                mapped[j as int],
                            ));
                            assert(mapped.take(j as int + 1) =~= mapped.take(j as int).push(
                                mapped[j as int],
                            ));
                            assert(before.push(mapped[j as int]) =~= out_pre + mapped.take(
                                j as int + 1,
                            ));
                        }
                        j = j + 1;
                    }
                    proof {
                        assert(confsv.map(
                            |k: int, c: StorageConferenceView| bookmark_of_storage(c),
                        ).take(confs@.len() as int) =~= confsv.map(
                            |k: int, c: StorageConferenceView| bookmark_of_storage(c),
                        ));
                        assert((out_pre + confsv.map(
                            |k: int, c: StorageConferenceView| bookmark_of_storage(c),
                        )) + legacy_decode(itemsv.skip(i as int + 1)) =~= out_pre + (confsv.map(
                            |k: int, c: StorageConferenceView| bookmark_of_storage(c),
                        ) + legacy_decode(itemsv.skip(i as int + 1))));
                    }
                },
                _ => {
                    proof {
                        assert(out_pre + (Seq::<BookmarkView>::empty() + legacy_decode(
                            itemsv.skip(i as int + 1),
                        )) =~= out_pre + legacy_decode(itemsv.skip(i as int + 1)));
                    }
                },
            }
            i = i + 1;
        }
        proof {
            assert(itemsv.skip(items@.len() as int) =~= Seq::<PubsubItemView>::empty());
            assert(out@.map(|k: int, b: Bookmark| b@) + Seq::<BookmarkView>::empty() =~= out@.map(
                |k: int, b: Bookmark| b@,
            ));
        }
        out
    }

}

impl Bookmarks2 {
    /// The retrieval request for the modern node.
    pub fn retreive(&self) -> (r: StanzaBody)
        ensures
            r@ == (StanzaBodyView::PubsubRetrieve { node: spec_ns_bookmarks2() }),
    {
        StanzaBody::PubsubRetrieve { node: ns_bookmarks2() }
    }

    /// The configuration form for the modern node: persistent items, only
    /// explicit retrieval, whitelist access, a small item cap.
    fn config_node_form(&self) -> (r: NodeConfig)
        ensures
            r@ == spec_node_config(),
    {
        NodeConfig {
            persist_items: true,
            send_last_published_item: String::from_str("never"),
            access_model: String::from_str("whitelist"),
            max_items: String::from_str("10"),
        }
    }

    /// The creation request for the modern node.
    fn create_node(&self) -> (r: StanzaBody)
        ensures
            r@ == (StanzaBodyView::PubsubCreate { node: spec_ns_bookmarks2() }),
    {
        StanzaBody::PubsubCreate { node: ns_bookmarks2() }
    }

    /// The configuration request for the modern node.
    fn config_node(&self) -> (r: StanzaBody)
        ensures
            r@ == (StanzaBodyView::PubsubConfigure {
                node: spec_ns_bookmarks2(),
                form: spec_node_config(),
            }),
    {
        StanzaBody::PubsubConfigure { node: ns_bookmarks2(), form: self.config_node_form() }
    }

    /// The publish request that stores one bookmark: the conference
    /// address is the item id, the payload carries name, nickname and
    /// autojoin, and the options pin persistence and access.
    fn add(&self, bookmark: &Bookmark) -> (r: StanzaBody)
        ensures
            r@ == spec_publish_stanza(bookmark@),
    {
        StanzaBody::PubsubPublish {
            node: ns_bookmarks2(),
            item_id: bookmark.jid.to_text(),
            payload: ConferenceInfo {
                autojoin: bookmark.autojoin,
                name: clone_opt_string(&bookmark.name),
                nick: clone_opt_string(&bookmark.nick),
                password: None,
            },
            options: PublishOptions {
                persist_items: true,
                access_model: String::from_str("whitelist"),
            },
        }
    }

    /// The retract request that removes one conference's item.
    fn delete(&self, conference: &Jid) -> (r: StanzaBody)
        ensures
            r@ == (StanzaBodyView::PubsubRetract {
                node: spec_ns_bookmarks2(),
                item_id: spec_jid_string(conference@),
            }),
    {
        StanzaBody::PubsubRetract { node: ns_bookmarks2(), item_id: conference.to_text() }
    }

    /// Decode a modern retrieval result, skipping undecodable items.
    fn handle(&self, items: &Vec<PubsubItem>) -> (r: Vec<Bookmark>)
        ensures
            r@.map(|i: int, b: Bookmark| b@) == modern_decode(
                items@.map(|i: int, it: PubsubItem| it@),
            ),
    {
        let ghost itemsv = items@.map(|i: int, it: PubsubItem| it@);
        let mut out: Vec<Bookmark> = Vec::new();
        let mut i: usize = 0;
        proof {
            assert(out@.map(|k: int, b: Bookmark| b@) =~= Seq::<BookmarkView>::empty());
            assert(itemsv.skip(0) =~= itemsv);
        }
        while i < items.len()
            invariant
                i <= items@.len(),
                itemsv == items@.map(|k: int, it: PubsubItem| it@),
                out@.map(|k: int, b: Bookmark| b@) + modern_decode(itemsv.skip(i as int))
                    == modern_decode(itemsv),
            decreases items@.len() - i,
        {
            let ghost out_pre = out@.map(|k: int, b: Bookmark| b@);
            proof {
                assert(itemsv.skip(i as int)[0] == itemsv[i as int]);
                assert(itemsv.skip(i as int).drop_first() =~= itemsv.skip(i as int + 1));
            }
            let it = &items[i];
            let decoded: Option<Bookmark> = match &it.id {
                Some(id) => match crate::jid::parse_jid(id.as_str()) {
                    Ok(Jid::Bare(b)) => match &it.payload {
                        Some(ItemPayload::Conference(conf)) => Some(
                            Bookmark {
                                jid: b,
                                name: clone_opt_string(&conf.name),
                                nick: clone_opt_string(&conf.nick),
                                password: clone_opt_string(&conf.password),
                                autojoin: conf.autojoin,
                            },
                        ),
                        _ => None,
                    },
                    _ => None,
                },
                None => None,
            };
            match decoded {
                Some(b) => {
                    proof {
                        assert(modern_item_bookmark(itemsv[i as int]) == Some(b@));
                    }
                    out.push(b);
                    proof {
                        assert(out@.map(|k: int, b2: Bookmark| b2@) =~= out_pre.push(
                            modern_item_bookmark(itemsv[i as int])->0,
                        ));
                        assert(out_pre.push(modern_item_bookmark(itemsv[i as int])->0)
                            + modern_decode(itemsv.skip(i as int + 1)) =~= out_pre + (seq![
                            modern_item_bookmark(itemsv[i as int])->0,
                        ] + modern_decode(itemsv.skip(i as int + 1))));
                    }
                },
                None => {
                    proof {
                        assert(modern_item_bookmark(itemsv[i as int]) is None);
                        assert(out_pre + (Seq::<BookmarkView>::empty() + modern_decode(
                            itemsv.skip(i as int + 1),
                        )) =~= out_pre + modern_decode(itemsv.skip(i as int + 1)));
                    }
                },
            }
            i = i + 1;
        }
        proof {
            assert(itemsv.skip(items@.len() as int) =~= Seq::<PubsubItemView>::empty());
            assert(out@.map(|k: int, b: Bookmark| b@) + Seq::<BookmarkView>::empty() =~= out@.map(
                |k: int, b: Bookmark| b@,
            ));
        }
        out
    }

}

// ---------------------------------------------------------------------
// Lookup indices
// ---------------------------------------------------------------------

/// The map a name-index association list denotes: later entries win.
pub open spec fn name_assoc(s: Seq<(String, usize)>) -> Map<Seq<char>, int>
    decreases s.len(),
{
    if s.len() == 0 {
        Map::empty()
    } else {
        name_assoc(s.drop_last()).insert(s.last().0@, s.last().1 as int)
    }
}

/// The map an address-index association list denotes: later entries win.
pub open spec fn jid_assoc(s: Seq<(BareJid, usize)>) -> Map<BareJidView, int>
    decreases s.len(),
{
    if s.len() == 0 {
        Map::empty()
    } else {
        jid_assoc(s.drop_last()).insert(s.last().0@, s.last().1 as int)
    }
}

/// Name to position, one entry per position with a name, later wins.
pub open spec fn spec_by_name(l: Seq<BookmarkView>) -> Map<Seq<char>, int>
    decreases l.len(),
{
    if l.len() == 0 {
        Map::empty()
    } else {
        match l.last().name {
            Some(n) => spec_by_name(l.drop_last()).insert(n, l.len() - 1),
            None => spec_by_name(l.drop_last()),
        }
    }
}

/// Conference address to position, one entry per position, later wins.
pub open spec fn spec_by_jid(l: Seq<BookmarkView>) -> Map<BareJidView, int>
    decreases l.len(),
{
    if l.len() == 0 {
        Map::empty()
    } else {
        spec_by_jid(l.drop_last()).insert(l.last().jid, l.len() - 1)
    }
}

/// The indices are consistent with the list: every name in the name
/// index points at a position holding a bookmark of that name, every
/// named position is indexed, and the same for addresses — so after a
/// rebuild no stale entry of a prior list remains.
pub proof fn lemma_indices_consistent(l: Seq<BookmarkView>)
    ensures
        forall|n: Seq<char>| #[trigger]
            spec_by_name(l).dom().contains(n) ==> 0 <= spec_by_name(l)[n] < l.len()
                && l[spec_by_name(l)[n]].name == Some(n),
        forall|i: int|
            0 <= i < l.len() && l[i].name is Some ==> #[trigger] spec_by_name(l).dom().contains(
                l[i].name->0,
            ),
        forall|j: BareJidView| #[trigger]
            spec_by_jid(l).dom().contains(j) ==> 0 <= spec_by_jid(l)[j] < l.len()
                && l[spec_by_jid(l)[j]].jid == j,
        forall|i: int| 0 <= i < l.len() ==> #[trigger] spec_by_jid(l).dom().contains(l[i].jid),
    decreases l.len(),
{
    if l.len() > 0 {
        lemma_indices_consistent(l.drop_last());
        assert forall|i: int|
            0 <= i < l.len() && l[i].name is Some implies #[trigger] spec_by_name(
            l,
        ).dom().contains(l[i].name->0) by {
            if i < l.len() - 1 {
                assert(l.drop_last()[i] == l[i]);
            }
        }
        assert forall|i: int| 0 <= i < l.len() implies #[trigger] spec_by_jid(l).dom().contains(
            l[i].jid,
        ) by {
            if i < l.len() - 1 {
                assert(l.drop_last()[i] == l[i]);
            }
        }
    }
}

pub proof fn lemma_name_assoc_found(s: Seq<(String, usize)>, i: int, k: Seq<char>)
    requires
        0 <= i < s.len(),
        s[i].0@ == k,
        forall|j: int| i < j < s.len() ==> s[j].0@ != k,
    ensures
        name_assoc(s).dom().contains(k),
        name_assoc(s)[k] == s[i].1 as int,
    decreases s.len(),
{
    if i < s.len() - 1 {
        lemma_name_assoc_found(s.drop_last(), i, k);
    }
}

pub proof fn lemma_name_assoc_absent(s: Seq<(String, usize)>, k: Seq<char>)
    requires
        forall|j: int| 0 <= j < s.len() ==> s[j].0@ != k,
    ensures
        !name_assoc(s).dom().contains(k),
    decreases s.len(),
{
    if s.len() > 0 {
        lemma_name_assoc_absent(s.drop_last(), k);
    }
}

/// Every name-index entry points below `len` at a bookmark of that name.
pub open spec fn name_index_wf(s: Seq<(String, usize)>, l: Seq<BookmarkView>) -> bool {
    forall|i: int|
        0 <= i < s.len() ==> s[i].1 < l.len() && l[s[i].1 as int].name == Some(s[i].0@)
}

/// Every address-index entry points below `len` at that address.
pub open spec fn jid_index_wf(s: Seq<(BareJid, usize)>, l: Seq<BookmarkView>) -> bool {
    forall|i: int| 0 <= i < s.len() ==> s[i].1 < l.len() && l[s[i].1 as int].jid == s[i].0@
}

// ---------------------------------------------------------------------
// The component
// ---------------------------------------------------------------------

/// The events one retrieval result schedules: each bookmark is announced,
/// and each autojoin bookmark also schedules a join of its conference —
/// under the full address (nickname as resource) when a nickname is set,
/// the bare address otherwise.
pub open spec fn autojoin_jid(b: BookmarkView) -> JidView {
    match b.nick {
        Some(nick) => JidView::Full(FullJidView { bare: b.jid, resource: nick }),
        None => JidView::Bare(b.jid),
    }
}

pub open spec fn bookmark_events(l: Seq<BookmarkView>) -> Seq<EventView>
    decreases l.len(),
{
    if l.len() == 0 {
        Seq::empty()
    } else {
        (if l[0].autojoin {
            seq![EventView::Bookmark(l[0]), EventView::Join(autojoin_jid(l[0]), false)]
        } else {
            seq![EventView::Bookmark(l[0])]
        }) + bookmark_events(l.drop_first())
    }
}

/// The node the active encoding retrieves from and matches results on.
pub open spec fn spec_active_node(modern: bool) -> Seq<char> {
    if modern {
        spec_ns_bookmarks2()
    } else {
        spec_ns_bookmarks()
    }
}

/// What a retrieval result decodes to under the active encoding.
pub open spec fn spec_decode(modern: bool, items: Seq<PubsubItemView>) -> Seq<BookmarkView> {
    if modern {
        modern_decode(items)
    } else {
        legacy_decode(items)
    }
}

/// The setup stanzas the active encoding emits after selection.
pub open spec fn spec_init_stanzas(modern: bool) -> Seq<StanzaBodyView> {
    if modern {
        seq![
            StanzaBodyView::PubsubCreate { node: spec_ns_bookmarks2() },
            StanzaBodyView::PubsubConfigure {
                node: spec_ns_bookmarks2(),
                form: spec_node_config(),
            },
        ]
    } else {
        Seq::empty()
    }
}

/// The active wire encoding; exactly one at a time.
pub enum Backend {
    Bookmarks(Bookmarks),
    Bookmarks2(Bookmarks2),
}

/// The bookmarks component: the active encoding, the bookmark list, and
/// the two lookup indices.
pub struct BookmarksPlugin {
    pub backend: Backend,
    pub bookmarks: Vec<Bookmark>,
    pub bookmarks_by_name: Vec<(String, usize)>,
    pub bookmarks_by_jid: Vec<(BareJid, usize)>,
}

impl BookmarksPlugin {
    /// The bookmark list, in order.
    pub open spec fn bookmarks_model(&self) -> Seq<BookmarkView> {
        self.bookmarks@.map(|i: int, b: Bookmark| b@)
    }

    /// Whether the modern encoding is active.
    pub open spec fn modern_active(&self) -> bool {
        self.backend is Bookmarks2
    }

    /// The name index as a map.
    pub open spec fn by_name_map(&self) -> Map<Seq<char>, int> {
        name_assoc(self.bookmarks_by_name@)
    }

    /// The address index as a map.
    pub open spec fn by_jid_map(&self) -> Map<BareJidView, int> {
        jid_assoc(self.bookmarks_by_jid@)
    }

    /// Index entries always point into the list, at an entry with the
    /// indexed name or address. (Between rebuilds the indices may lack
    /// entries appended since — they are only rebuilt wholesale.)
    pub open spec fn wf(&self) -> bool {
        &&& name_index_wf(self.bookmarks_by_name@, self.bookmarks_model())
        &&& jid_index_wf(self.bookmarks_by_jid@, self.bookmarks_model())
    }

    /// A bookmarks component: the legacy encoding is assumed until
    /// discovery says otherwise; no bookmarks yet.
    pub fn new() -> (r: BookmarksPlugin)
        ensures
            r.wf(),
            !r.modern_active(),
            r.bookmarks_model() == Seq::<BookmarkView>::empty(),
            r.by_name_map() == Map::<Seq<char>, int>::empty(),
            r.by_jid_map() == Map::<BareJidView, int>::empty(),
    {
        let r = BookmarksPlugin {
            backend: Backend::Bookmarks(Bookmarks {}),
            bookmarks: Vec::new(),
            bookmarks_by_name: Vec::new(),
            bookmarks_by_jid: Vec::new(),
        };
        proof {
            assert(r.bookmarks_model() =~= Seq::<BookmarkView>::empty());
        }
        r
    }

    /// A short human-readable description of this component.
    pub fn description(&self) -> (r: String)
        ensures
            r@ == "XEP-0402: PEP Native Bookmarks"@,
    {
        String::from_str("XEP-0402: PEP Native Bookmarks")
    }

    /// Rebuild both indices from the list, from scratch.
    fn rebuild_indices(&mut self)
        ensures
            final(self).backend == old(self).backend,
            final(self).bookmarks == old(self).bookmarks,
            final(self).wf(),
            final(self).by_name_map() == spec_by_name(old(self).bookmarks_model()),
            final(self).by_jid_map() == spec_by_jid(old(self).bookmarks_model()),
    {
        let ghost l = self.bookmarks_model();
        self.bookmarks_by_name = Vec::new();
        self.bookmarks_by_jid = Vec::new();
        let mut i: usize = 0;
        proof {
            assert(l.take(0) =~= Seq::<BookmarkView>::empty());
        }
        while i < self.bookmarks.len()
            invariant
                i <= self.bookmarks@.len(),
                self.backend == old(self).backend,
                self.bookmarks == old(self).bookmarks,
                l == self.bookmarks_model(),
                name_assoc(self.bookmarks_by_name@) == spec_by_name(l.take(i as int)),
                jid_assoc(self.bookmarks_by_jid@) == spec_by_jid(l.take(i as int)),
                name_index_wf(self.bookmarks_by_name@, l),
                jid_index_wf(self.bookmarks_by_jid@, l),
            decreases self.bookmarks@.len() - i,
        {
            let ghost name_pre = self.bookmarks_by_name@;
            let ghost jid_pre = self.bookmarks_by_jid@;
            proof {
                assert(l.take(i as int + 1).drop_last() =~= l.take(i as int));
                assert(l.take(i as int + 1).last() == l[i as int]);
            }
            match &self.bookmarks[i].name {
                Some(n) => {
                    self.bookmarks_by_name.push((n.clone(), i));
                    proof {
                        assert(self.bookmarks_by_name@.drop_last() =~= name_pre);
                    }
                },
                None => {},
            }
            self.bookmarks_by_jid.push((self.bookmarks[i].jid.clone(), i));
            proof {
                assert(self.bookmarks_by_jid@.drop_last() =~= jid_pre);
            }
            i = i + 1;
        }
        proof {
            assert(l.take(self.bookmarks@.len() as int) =~= l);
        }
    }

    /// The bookmark the name index knows under the given name, if any.
    pub fn get_by_name(&self, name: &String) -> (r: Option<Bookmark>)
        requires
            self.wf(),
        ensures
            match r {
                Some(b) => self.by_name_map().dom().contains(name@) && b@ == self.bookmarks_model(
                )[self.by_name_map()[name@]],
                None => !self.by_name_map().dom().contains(name@),
            },
    {
        let mut j: usize = self.bookmarks_by_name.len();
        while j > 0
            invariant
                self.wf(),
                j <= self.bookmarks_by_name@.len(),
                forall|k: int|
                    j <= k < self.bookmarks_by_name@.len() ==> self.bookmarks_by_name@[k].0@
                        != name@,
            decreases j,
        {
            j = j - 1;
            if self.bookmarks_by_name[j].0 == *name {
                proof {
                    lemma_name_assoc_found(self.bookmarks_by_name@, j as int, name@);
                    assert(self.bookmarks_by_name@[j as int].1 < self.bookmarks_model().len()
                        && self.bookmarks_model()[self.bookmarks_by_name@[j as int].1 as int].name
                        == Some(self.bookmarks_by_name@[j as int].0@));
                }
                let idx = self.bookmarks_by_name[j].1;
                let b = self.bookmarks[idx].clone();
                proof {
                    assert(b@ == self.bookmarks_model()[idx as int]);
                }
                return Some(b);
            }
        }
        proof {
            lemma_name_assoc_absent(self.bookmarks_by_name@, name@);
        }
        None
    }

    /// Append a bookmark locally (optimistically, before the server
    /// confirms anything) and return the storing request; the legacy
    /// encoding does not implement storing. The indices are not touched:
    /// they are only rebuilt on wholesale replacement.
    pub fn add(&mut self, bookmark: Bookmark) -> (r: Result<StanzaBody, CommandError>)
        requires
            old(self).wf(),
        ensures
            final(self).wf(),
            final(self).modern_active() == old(self).modern_active(),
            final(self).bookmarks_model() == old(self).bookmarks_model().push(bookmark@),
            final(self).bookmarks_by_name == old(self).bookmarks_by_name,
            final(self).bookmarks_by_jid == old(self).bookmarks_by_jid,
            match r {
                Ok(s) => old(self).modern_active() && s@ == spec_publish_stanza(bookmark@),
                Err(e) => !old(self).modern_active() && e == CommandError::Unsupported,
            },
    {
        let ghost l = self.bookmarks_model();
        let stanza = match &self.backend {
            Backend::Bookmarks(_) => Err(CommandError::Unsupported),
            Backend::Bookmarks2(b2) => Ok(b2.add(&bookmark)),
        };
        self.bookmarks.push(bookmark);
        proof {
            assert(self.bookmarks_model() =~= l.push(self.bookmarks@.last()@));
            assert forall|i: int|
                0 <= i < self.bookmarks_by_name@.len() implies self.bookmarks_by_name@[i].1
                < self.bookmarks_model().len()
                && self.bookmarks_model()[self.bookmarks_by_name@[i].1 as int].name == Some(
                self.bookmarks_by_name@[i].0@,
            ) by {
                let p = self.bookmarks_by_name@[i].1 as int;
                assert(self.bookmarks_model()[p] == l[p]);
            }
            assert forall|i: int|
                0 <= i < self.bookmarks_by_jid@.len() implies self.bookmarks_by_jid@[i].1
                < self.bookmarks_model().len()
                && self.bookmarks_model()[self.bookmarks_by_jid@[i].1 as int].jid
                == self.bookmarks_by_jid@[i].0@ by {
                let p = self.bookmarks_by_jid@[i].1 as int;
                assert(self.bookmarks_model()[p] == l[p]);
            }
        }
        stanza
    }

    /// The removing request for a conference; the local list and indices
    /// are deliberately left untouched (a known gap of this design), and
    /// the legacy encoding does not implement removal.
    pub fn delete(&mut self, conference: &Jid) -> (r: Result<StanzaBody, CommandError>)
        ensures
            *final(self) == *old(self),
            match r {
                Ok(s) => old(self).modern_active() && s@ == (StanzaBodyView::PubsubRetract {
                    node: spec_ns_bookmarks2(),
                    item_id: spec_jid_string(conference@),
                }),
                Err(e) => !old(self).modern_active() && e == CommandError::Unsupported,
            },
    {
        match &self.backend {
            Backend::Bookmarks(_) => Err(CommandError::Unsupported),
            Backend::Bookmarks2(b2) => Ok(b2.delete(conference)),
        }
    }

    /// The retrieval request for the active encoding's node.
    fn retreive(&self) -> (r: StanzaBody)
        ensures
            r@ == (StanzaBodyView::PubsubRetrieve { node: spec_active_node(self.modern_active()) }),
    {
        match &self.backend {
            Backend::Bookmarks(b) => b.retreive(),
            Backend::Bookmarks2(b2) => b2.retreive(),
        }
    }

    /// Replace the bookmark list from a retrieval result whose node
    /// matches the active encoding, rebuild both indices atomically
    /// within this step, and schedule the announcement and autojoin
    /// events; a result for the other encoding's node is ignored.
    pub fn handle_bookmarks(&mut self, aparte: &mut Aparte, items: &PubsubItems)
        requires
            old(self).wf(),
        ensures
            final(self).wf(),
            final(self).modern_active() == old(self).modern_active(),
            final(aparte).components == old(aparte).components,
            final(aparte).commands == old(aparte).commands,
            final(aparte).outgoing_bodies() == old(aparte).outgoing_bodies(),
            ({
                let modern = old(self).modern_active();
                let decoded = spec_decode(modern, items@.items);
                if items@.node == spec_active_node(modern) {
                    &&& final(self).bookmarks_model() == decoded
                    &&& final(self).by_name_map() == spec_by_name(decoded)
                    &&& final(self).by_jid_map() == spec_by_jid(decoded)
                    &&& final(aparte).queue_model() == old(aparte).queue_model()
                        + bookmark_events(decoded)
                } else {
                    &&& final(self).bookmarks_model() == old(self).bookmarks_model()
                    &&& final(self).by_name_map() == old(self).by_name_map()
                    &&& final(self).by_jid_map() == old(self).by_jid_map()
                    &&& final(aparte).queue_model() == old(aparte).queue_model()
                }
            }),
    {
        let node_matches = match &self.backend {
            Backend::Bookmarks(_) => items.node == ns_bookmarks(),
            Backend::Bookmarks2(_) => items.node == ns_bookmarks2(),
        };
        if !node_matches {
            return ;
        }
        let decoded = match &self.backend {
            Backend::Bookmarks(b) => b.handle(&items.items),
            Backend::Bookmarks2(b2) => b2.handle(&items.items),
        };
        self.bookmarks = decoded;
        self.rebuild_indices();
        let ghost decodedv = self.bookmarks_model();
        let ghost q1 = aparte.queue_model();
        let ghost self_snap = *self;
        let mut i: usize = 0;
        proof {
            assert(decodedv.skip(0) =~= decodedv);
        }
        while i < self.bookmarks.len()
            invariant
                i <= self.bookmarks@.len(),
                *self == self_snap,
                decodedv == self.bookmarks_model(),
                aparte.components == old(aparte).components,
                aparte.commands == old(aparte).commands,
                aparte.outgoing_bodies() == old(aparte).outgoing_bodies(),
                q1 + bookmark_events(decodedv) == aparte.queue_model() + bookmark_events(
                    decodedv.skip(i as int),
                ),
            decreases self.bookmarks@.len() - i,
        {
            let ghost q_pre = aparte.queue_model();
            proof {
                assert(decodedv.skip(i as int)[0] == decodedv[i as int]);
                assert(decodedv.skip(i as int).drop_first() =~= decodedv.skip(i as int + 1));
            }
            let b1 = self.bookmarks[i].clone();
            let autojoin = b1.autojoin;
            let ghost bv = decodedv[i as int];
            if autojoin {
                let jid = match &b1.nick {
                    Some(nick) => Jid::Full(b1.jid.clone().with_resource(nick.clone())),
                    None => Jid::Bare(b1.jid.clone()),
                };
                proof {
                    assert(jid@ == autojoin_jid(bv));
                }
                aparte.schedule(Event::Bookmark(b1));
                aparte.schedule(Event::Join(jid, false));
                proof {
                    assert(aparte.queue_model() =~= q_pre + seq![
                        EventView::Bookmark(bv),
                        EventView::Join(autojoin_jid(bv), false),
                    ]);
                    assert((q_pre + seq![
                        EventView::Bookmark(bv),
                        EventView::Join(autojoin_jid(bv), false),
                    ]) + bookmark_events(decodedv.skip(i as int + 1)) =~= q_pre + (seq![
                        EventView::Bookmark(bv),
                        EventView::Join(autojoin_jid(bv), false),
                    ] + bookmark_events(decodedv.skip(i as int + 1))));
                }
            } else {
                aparte.schedule(Event::Bookmark(b1));
                proof {
                    assert(aparte.queue_model() =~= q_pre + seq![EventView::Bookmark(bv)]);
                    assert((q_pre + seq![EventView::Bookmark(bv)]) + bookmark_events(
                        decodedv.skip(i as int + 1),
                    ) =~= q_pre + (seq![EventView::Bookmark(bv)] + bookmark_events(
                        decodedv.skip(i as int + 1),
                    )));
                }
            }
            i = i + 1;
        }
        proof {
            assert(decodedv.skip(self.bookmarks@.len() as int) =~= Seq::<BookmarkView>::empty());
            assert(aparte.queue_model() + Seq::<EventView>::empty() =~= aparte.queue_model());
        }
    }

    /// Deliver one event: pick the encoding on discovery (sticky once
    /// modern), then set up and retrieve; replace the list on a matching
    /// retrieval result.
    pub fn on_event(&mut self, aparte: &mut Aparte, event: &Event)
        requires
            old(self).wf(),
        ensures
            final(self).wf(),
            old(self).modern_active() ==> final(self).modern_active(),
            final(aparte).components == old(aparte).components,
            final(aparte).commands == old(aparte).commands,
            match event {
                Event::Disco(account) => ({
                    let feature_present = match spec_disco_features(old(aparte).components@) {
                        Some(fs) => fs.contains(spec_ns_bookmarks2()),
                        None => false,
                    };
                    let modern2 = old(self).modern_active() || feature_present;
                    &&& final(self).modern_active() == modern2
                    &&& final(self).bookmarks_model() == old(self).bookmarks_model()
                    &&& final(self).by_name_map() == old(self).by_name_map()
                    &&& final(self).by_jid_map() == old(self).by_jid_map()
                    &&& final(aparte).queue_model() == old(aparte).queue_model()
                    &&& final(aparte).outgoing_bodies() == old(aparte).outgoing_bodies()
                        + spec_init_stanzas(modern2).map(
                        |i: int, s: StanzaBodyView| (account@, s),
                    ) + seq![
                        (
                            account@,
                            StanzaBodyView::PubsubRetrieve { node: spec_active_node(modern2) },
                        ),
                    ]
                }),
                Event::Iq(account, iq) => match &iq.payload {
                    IqType::Result(Some(IqResultPayload::Pubsub(items))) => ({
                        let modern = old(self).modern_active();
                        let decoded = spec_decode(modern, items@.items);
                        &&& final(self).modern_active() == modern
                        &&& final(aparte).outgoing_bodies() == old(aparte).outgoing_bodies()
                        &&& if items@.node == spec_active_node(modern) {
                            &&& final(self).bookmarks_model() == decoded
                            &&& final(self).by_name_map() == spec_by_name(decoded)
                            &&& final(self).by_jid_map() == spec_by_jid(decoded)
                            &&& final(aparte).queue_model() == old(aparte).queue_model()
                                + bookmark_events(decoded)
                        } else {
                            &&& final(self).bookmarks_model() == old(self).bookmarks_model()
                            &&& final(self).by_name_map() == old(self).by_name_map()
                            &&& final(self).by_jid_map() == old(self).by_jid_map()
                            &&& final(aparte).queue_model() == old(aparte).queue_model()
                        }
                    }),
                    _ => plugin_step_unchanged(*old(self), *final(self), *old(aparte), *final(aparte)),
                },
                _ => plugin_step_unchanged(*old(self), *final(self), *old(aparte), *final(aparte)),
            },
    {
        match event {
            Event::Disco(account) => {
                let feature = ns_bookmarks2();
                match aparte.disco_has_feature(&feature) {
                    Some(true) => {
                        self.backend = Backend::Bookmarks2(Bookmarks2 {});
                    },
                    _ => {},
                }
                let ghost modern2 = self.modern_active();
                let ghost ob0 = aparte.outgoing_bodies();
                let ghost pairs = spec_init_stanzas(modern2).map(
                    |i: int, s: StanzaBodyView| (account@, s),
                );
                match &self.backend {
                    Backend::Bookmarks(_) => {
                        proof {
                            assert(aparte.outgoing_bodies() =~= ob0 + pairs);
                        }
                    },
                    Backend::Bookmarks2(b2) => {
                        aparte.send(account, b2.create_node());
                        aparte.send(account, b2.config_node());
                        proof {
                            assert(aparte.outgoing_bodies() =~= ob0 + pairs);
                        }
                    },
                }
                let retrieve = self.retreive();
                aparte.send(account, retrieve);
                proof {
                    assert(aparte.outgoing_bodies() =~= ob0 + pairs + seq![
                        (
                            account@,
                            StanzaBodyView::PubsubRetrieve { node: spec_active_node(modern2) },
                        ),
                    ]);
                }
            },
            Event::Iq(_account, iq) => {
                match &iq.payload {
                    IqType::Result(opt) => match opt {
                        Some(IqResultPayload::Pubsub(items)) => {
                            self.handle_bookmarks(aparte, items);
                        },
                        _ => {},
                    },
                    _ => {},
                }
            },
            _ => {},
        }
    }

    /// Declare the bookmark command and advertise the modern feature on
    /// the discovery component; fails when none is registered, which is
    /// fatal to startup.
    pub fn init(&mut self, aparte: &mut Aparte) -> (r: Result<(), ()>)
        ensures
            *final(self) == *old(self),
            final(aparte).queue == old(aparte).queue,
            final(aparte).outgoing == old(aparte).outgoing,
            final(aparte).commands@.len() == old(aparte).commands@.len() + 1,
            forall|i: int|
                0 <= i < old(aparte).commands@.len() ==> final(aparte).commands@[i] == old(
                    aparte,
                ).commands@[i],
            final(aparte).commands@.last()@ == spec_bookmark_command(),
            r is Ok <==> crate::bus::spec_disco_index(old(aparte).components@, 0) is Some,
            r is Err ==> final(aparte).components == old(aparte).components,
    {
        aparte.add_command(bookmark_command());
        let ok = aparte.disco_add_feature(ns_bookmarks2());
        if ok {
            Ok(())
        } else {
            Err(())
        }
    }

    /// Run one parsed `/bookmark` command against this component:
    /// `add` and `edit` both append and store; `del` sends the removal.
    pub fn handle_command(&mut self, aparte: &mut Aparte, account: &Account, cmd: &ParsedCommand)
        -> (r: Result<(), CommandError>)
        requires
            old(self).wf(),
        ensures
            final(self).wf(),
            final(self).modern_active() == old(self).modern_active(),
            final(aparte).components == old(aparte).components,
            final(aparte).commands == old(aparte).commands,
            final(aparte).queue_model() == old(aparte).queue_model(),
            spec_command_effects(
                *old(self),
                *final(self),
                old(aparte).outgoing_bodies(),
                final(aparte).outgoing_bodies(),
                account@,
                cmd@,
                r,
            ),
    {
        if cmd.path.len() != 2 || !(cmd.path[0] == String::from_str("bookmark")) {
            return Err(CommandError::BadCommand);
        }
        let sub = &cmd.path[1];
        let is_add = *sub == String::from_str("add") || *sub == String::from_str("edit");
        if is_add {
            let name = match cmd.get(&String::from_str("name")) {
                Some(ArgValue::Text(n)) => n.clone(),
                _ => {
                    return Err(CommandError::BadCommand);
                },
            };
            let conference: Jid = match cmd.get(&String::from_str("conference")) {
                Some(ArgValue::Address(j)) => j.clone(),
                _ => {
                    return Err(CommandError::BadCommand);
                },
            };
            let autojoin: Option<bool> = match cmd.get(&String::from_str("autojoin")) {
                Some(ArgValue::Switch(b)) => Some(*b),
                _ => None,
            };
            let nick = match &conference {
                Jid::Full(f) => Some(f.resource.clone()),
                Jid::Bare(_) => None,
            };
            let bookmark = Bookmark {
                jid: conference.to_bare(),
                name: Some(name),
                nick,
                password: None,
                autojoin: match autojoin {
                    Some(b) => b,
                    None => false,
                },
            };
            match self.add(bookmark) {
                Ok(stanza) => {
                    aparte.send(account, stanza);
                    Ok(())
                },
                Err(e) => Err(e),
            }
        } else if *sub == String::from_str("del") {
            let conference: Jid = match cmd.get(&String::from_str("conference")) {
                Some(ArgValue::Address(j)) => j.clone(),
                _ => {
                    return Err(CommandError::BadCommand);
                },
            };
            match self.delete(&conference) {
                Ok(stanza) => {
                    aparte.send(account, stanza);
                    Ok(())
                },
                Err(e) => Err(e),
            }
        } else {
            Err(CommandError::BadCommand)
        }
    }

}

/// Neither the component's observable state nor the bus changed.
pub open spec fn plugin_step_unchanged(
    pre: BookmarksPlugin,
    post: BookmarksPlugin,
    pre_bus: Aparte,
    post_bus: Aparte,
) -> bool {
    &&& post.modern_active() == pre.modern_active()
    &&& post.bookmarks_model() == pre.bookmarks_model()
    &&& post.by_name_map() == pre.by_name_map()
    &&& post.by_jid_map() == pre.by_jid_map()
    &&& post_bus.queue_model() == pre_bus.queue_model()
    &&& post_bus.outgoing_bodies() == pre_bus.outgoing_bodies()
}

// ---------------------------------------------------------------------
// The bookmark command
// ---------------------------------------------------------------------

/// Parameters of `add` and `edit`: a name, a conference address, and an
/// optional `autojoin=on|off` keyword.
pub open spec fn spec_bookmark_edit_params() -> Seq<ParamDefView> {
    seq![
        ParamDefView { name: "name"@, typ: ArgType::Text, required: true, keyword: false },
        ParamDefView { name: "conference"@, typ: ArgType::Address, required: true, keyword: false },
        ParamDefView { name: "autojoin"@, typ: ArgType::Switch, required: false, keyword: true },
    ]
}

/// The declared shape of `/bookmark add|del|edit`.
pub open spec fn spec_bookmark_command() -> CommandDefView {
    CommandDefView {
        name: "bookmark"@,
        params: Seq::empty(),
        children: seq![
            SubCommandView { name: "add"@, params: spec_bookmark_edit_params() },
            SubCommandView {
                name: "del"@,
                params: seq![
                    ParamDefView {
                        name: "conference"@,
                        typ: ArgType::Address,
                        required: true,
                        keyword: false,
                    },
                ],
            },
            SubCommandView { name: "edit"@, params: spec_bookmark_edit_params() },
        ],
    }
}

fn bookmark_edit_params() -> (r: Vec<ParamDef>)
    ensures
        r@.map(|i: int, p: ParamDef| p@) == spec_bookmark_edit_params(),
{
    let mut params: Vec<ParamDef> = Vec::new();
    params.push(
        ParamDef {
            name: String::from_str("name"),
            typ: ArgType::Text,
            required: true,
            keyword: false,
        },
    );
    params.push(
        ParamDef {
            name: String::from_str("conference"),
            typ: ArgType::Address,
            required: true,
            keyword: false,
        },
    );
    params.push(
        ParamDef {
            name: String::from_str("autojoin"),
            typ: ArgType::Switch,
            required: false,
            keyword: true,
        },
    );
    proof {
        assert(params@.map(|i: int, p: ParamDef| p@) =~= spec_bookmark_edit_params());
    }
    params
}

/// The `/bookmark add|del|edit` command declaration.
pub fn bookmark_command() -> (r: CommandDef)
    ensures
        r@ == spec_bookmark_command(),
{
    let mut del_params: Vec<ParamDef> = Vec::new();
    del_params.push(
        ParamDef {
            name: String::from_str("conference"),
            typ: ArgType::Address,
            required: true,
            keyword: false,
        },
    );
    let mut children: Vec<SubCommand> = Vec::new();
    children.push(
        SubCommand {
            name: String::from_str("add"),
            help: String::from_str("/bookmark add <name> <conference> [autojoin=on|off]"),
            params: bookmark_edit_params(),
        },
    );
    children.push(
        SubCommand {
            name: String::from_str("del"),
            help: String::from_str("/bookmark del <conference>"),
            params: del_params,
        },
    );
    children.push(
        SubCommand {
            name: String::from_str("edit"),
            help: String::from_str("/bookmark edit <name> <conference> [autojoin=on|off]"),
            params: bookmark_edit_params(),
        },
    );
    let r = CommandDef {
        name: String::from_str("bookmark"),
        help: String::from_str("/bookmark add|del|edit"),
        params: Vec::new(),
        children,
    };
    proof {
        assert(r@.params =~= Seq::<ParamDefView>::empty());
        assert(r@.children.len() == 3);
        assert(r@.children[0].params =~= spec_bookmark_command().children[0].params);
        assert(r@.children[1].params =~= spec_bookmark_command().children[1].params);
        assert(r@.children[2].params =~= spec_bookmark_command().children[2].params);
        assert(r@.children =~= spec_bookmark_command().children);
    }
    r
}

/// The bookmark a typed `add`/`edit` command builds: the conference's
/// bare address, the given name, the nickname taken from the resource
/// when the conference address carries one, autojoin defaulting to off.
pub open spec fn spec_bookmark_from_args(
    name: Seq<char>,
    conf: JidView,
    autojoin: Option<bool>,
) -> BookmarkView {
    BookmarkView {
        jid: conf.to_bare(),
        name: Some(name),
        nick: match conf {
            JidView::Full(f) => Some(f.resource),
            JidView::Bare(_) => None,
        },
        password: None,
        autojoin: match autojoin {
            Some(b) => b,
            None => false,
        },
    }
}

/// What a parsed command asks of this component.
pub enum BookmarkActionView {
    Add(BookmarkView),
    Del(JidView),
}

/// The action a parsed command resolves to, if it is a well-formed
/// `/bookmark` command (`edit` re-adds, a known gap of this design).
pub open spec fn spec_command_action(cmd: ParsedCommandView) -> Option<BookmarkActionView> {
    if cmd.path.len() == 2 && cmd.path[0] == "bookmark"@ && (cmd.path[1] == "add"@ || cmd.path[1]
        == "edit"@) {
        match (spec_get_arg(cmd.args, 0, "name"@), spec_get_arg(cmd.args, 0, "conference"@)) {
            (Some(ArgValueView::Text(n)), Some(ArgValueView::Address(j))) => Some(
                BookmarkActionView::Add(
                    spec_bookmark_from_args(
                        n,
                        j,
                        match spec_get_arg(cmd.args, 0, "autojoin"@) {
                            Some(ArgValueView::Switch(b)) => Some(b),
                            _ => None,
                        },
                    ),
                ),
            ),
            _ => None,
        }
    } else if cmd.path.len() == 2 && cmd.path[0] == "bookmark"@ && cmd.path[1] == "del"@ {
        match spec_get_arg(cmd.args, 0, "conference"@) {
            Some(ArgValueView::Address(j)) => Some(BookmarkActionView::Del(j)),
            _ => None,
        }
    } else {
        None
    }
}

/// What one command does to the component and the outgoing queue.
pub open spec fn spec_command_effects(
    pre: BookmarksPlugin,
    post: BookmarksPlugin,
    pre_out: Seq<(crate::event::AccountView, StanzaBodyView)>,
    post_out: Seq<(crate::event::AccountView, StanzaBodyView)>,
    account: crate::event::AccountView,
    cmd: ParsedCommandView,
    r: Result<(), CommandError>,
) -> bool {
    match spec_command_action(cmd) {
        Some(BookmarkActionView::Add(b)) => {
            &&& post.bookmarks_model() == pre.bookmarks_model().push(b)
            &&& post.by_name_map() == pre.by_name_map()
            &&& post.by_jid_map() == pre.by_jid_map()
            &&& if pre.modern_active() {
                &&& r == Ok::<(), CommandError>(())
                &&& post_out == pre_out.push((account, spec_publish_stanza(b)))
            } else {
                &&& r == Err::<(), CommandError>(CommandError::Unsupported)
                &&& post_out == pre_out
            }
        },
        Some(BookmarkActionView::Del(j)) => {
            &&& post.bookmarks_model() == pre.bookmarks_model()
            &&& post.by_name_map() == pre.by_name_map()
            &&& post.by_jid_map() == pre.by_jid_map()
            &&& if pre.modern_active() {
                &&& r == Ok::<(), CommandError>(())
                &&& post_out == pre_out.push(
                    (
                        account,
                        StanzaBodyView::PubsubRetract {
                            node: spec_ns_bookmarks2(),
                            item_id: spec_jid_string(j),
                        },
                    ),
                )
            } else {
                &&& r == Err::<(), CommandError>(CommandError::Unsupported)
                &&& post_out == pre_out
            }
        },
        None => {
            &&& r == Err::<(), CommandError>(CommandError::BadCommand)
            &&& post.bookmarks_model() == pre.bookmarks_model()
            &&& post.by_name_map() == pre.by_name_map()
            &&& post.by_jid_map() == pre.by_jid_map()
            &&& post.modern_active() == pre.modern_active()
            &&& post_out == pre_out
        },
    }
}

/// Autojoin uses the full address exactly when a nickname is set.
pub proof fn lemma_autojoin_address(b: BookmarkView)
    ensures
        b.nick is Some ==> autojoin_jid(b) == JidView::Full(
            FullJidView { bare: b.jid, resource: b.nick->0 },
        ),
        b.nick is None ==> autojoin_jid(b) == JidView::Bare(b.jid),
{
}

} // verus!
