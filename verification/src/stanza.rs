//! The stanza model. Incoming stanzas arrive already decoded by the
//! transport collaborator; outgoing stanzas are structured values that the
//! transport encodes. The library never touches raw bytes or XML syntax.

use vstd::prelude::*;
use crate::contact::Subscription;
use crate::jid::{BareJid, BareJidView, Jid, JidView};

verus! {

// ---------------------------------------------------------------------
// Incoming stanzas
// ---------------------------------------------------------------------

/// Availability hint carried by a presence stanza.
#[derive(Clone, Copy, Debug, PartialEq, Eq, Structural)]
pub enum Show {
    Away,
    Chat,
    Dnd,
    Xa,
}

/// Abstract value of a presence stanza.
pub struct PresenceStanzaView {
    pub from: Option<JidView>,
    pub show: Option<Show>,
}

/// A decoded presence notification.
pub struct PresenceStanza {
    pub from: Option<Jid>,
    pub show: Option<Show>,
}

impl View for PresenceStanza {
    type V = PresenceStanzaView;

    open spec fn view(&self) -> PresenceStanzaView {
        PresenceStanzaView {
            from: match &self.from {
                Some(j) => Some(j@),
                None => None,
            },
            show: self.show,
        }
    }
}

/// Abstract value of a roster entry as it appears in a roster result.
pub struct RosterItemView {
    pub jid: BareJidView,
    pub name: Option<Seq<char>>,
    pub subscription: Subscription,
    pub groups: Seq<Seq<char>>,
}

/// One entry of a roster query result.
pub struct RosterItem {
    pub jid: BareJid,
    pub name: Option<String>,
    pub subscription: Subscription,
    pub groups: Vec<String>,
}

impl View for RosterItem {
    type V = RosterItemView;

    open spec fn view(&self) -> RosterItemView {
        RosterItemView {
            jid: self.jid@,
            name: match self.name {
                Some(n) => Some(n@),
                None => None,
            },
            subscription: self.subscription,
            groups: self.groups@.map(|i: int, g: String| g@),
        }
    }
}

/// Abstract value of a modern per-conference bookmark payload.
pub struct ConferenceInfoView {
    pub autojoin: bool,
    pub name: Option<Seq<char>>,
    pub nick: Option<Seq<char>>,
    pub password: Option<Seq<char>>,
}

/// The modern bookmark payload: one structured entry per conference.
pub struct ConferenceInfo {
    pub autojoin: bool,
    pub name: Option<String>,
    pub nick: Option<String>,
    pub password: Option<String>,
}

impl View for ConferenceInfo {
    type V = ConferenceInfoView;

    open spec fn view(&self) -> ConferenceInfoView {
        ConferenceInfoView {
            autojoin: self.autojoin,
            name: match self.name {
                Some(n) => Some(n@),
                None => None,
            },
            nick: match self.nick {
                Some(n) => Some(n@),
                None => None,
            },
            password: match self.password {
                Some(p) => Some(p@),
                None => None,
            },
        }
    }
}

/// Abstract value of one conference entry of a legacy storage document.
pub struct StorageConferenceView {
    pub autojoin: bool,
    pub jid: BareJidView,
    pub name: Seq<char>,
    pub nick: Option<Seq<char>>,
    pub password: Option<Seq<char>>,
}

/// One conference entry of the legacy flat storage document.
pub struct StorageConference {
    pub autojoin: bool,
    pub jid: BareJid,
    pub name: String,
    pub nick: Option<String>,
    pub password: Option<String>,
}

impl View for StorageConference {
    type V = StorageConferenceView;

    open spec fn view(&self) -> StorageConferenceView {
        StorageConferenceView {
            autojoin: self.autojoin,
            jid: self.jid@,
            name: self.name@,
            nick: match self.nick {
                Some(n) => Some(n@),
                None => None,
            },
            password: match self.password {
                Some(p) => Some(p@),
                None => None,
            },
        }
    }
}

/// Abstract value of a pubsub item payload.
pub enum ItemPayloadView {
    /// A modern per-conference payload.
    Conference(ConferenceInfoView),
    /// A legacy storage document listing conference entries.
    Storage(Seq<StorageConferenceView>),
    /// A payload the decoder for the active backend cannot read.
    Other,
}

/// The payload of a pubsub item, as far as this library reads it.
pub enum ItemPayload {
    Conference(ConferenceInfo),
    Storage(Vec<StorageConference>),
    Other,
}

impl View for ItemPayload {
    type V = ItemPayloadView;

    open spec fn view(&self) -> ItemPayloadView {
        match self {
            ItemPayload::Conference(c) => ItemPayloadView::Conference(c@),
            ItemPayload::Storage(v) => ItemPayloadView::Storage(
                v@.map(|i: int, c: StorageConference| c@),
            ),
            ItemPayload::Other => ItemPayloadView::Other,
        }
    }
}

/// Abstract value of one pubsub item.
pub struct PubsubItemView {
    pub id: Option<Seq<char>>,
    pub payload: Option<ItemPayloadView>,
}

/// One pubsub item of a retrieval result.
pub struct PubsubItem {
    pub id: Option<String>,
    pub payload: Option<ItemPayload>,
}

impl View for PubsubItem {
    type V = PubsubItemView;

    open spec fn view(&self) -> PubsubItemView {
        PubsubItemView {
            id: match self.id {
                Some(i) => Some(i@),
                None => None,
            },
            payload: match &self.payload {
                Some(p) => Some(p@),
                None => None,
            },
        }
    }
}

/// Abstract value of a pubsub items result.
pub struct PubsubItemsView {
    pub node: Seq<char>,
    pub items: Seq<PubsubItemView>,
}

/// The items of one pubsub node, as carried by a retrieval result.
pub struct PubsubItems {
    pub node: String,
    pub items: Vec<PubsubItem>,
}

impl View for PubsubItems {
    type V = PubsubItemsView;

    open spec fn view(&self) -> PubsubItemsView {
        PubsubItemsView { node: self.node@, items: self.items@.map(|i: int, it: PubsubItem| it@) }
    }
}

/// Abstract value of an iq result payload.
pub enum IqResultPayloadView {
    Roster(Seq<RosterItemView>),
    Pubsub(PubsubItemsView),
    Other,
}

/// The payload of an iq result, as far as this library reads it.
pub enum IqResultPayload {
    /// A roster query result.
    Roster(Vec<RosterItem>),
    /// A pubsub items retrieval result.
    Pubsub(PubsubItems),
    /// A payload no component of this library reads.
    Other,
}

impl View for IqResultPayload {
    type V = IqResultPayloadView;

    open spec fn view(&self) -> IqResultPayloadView {
        match self {
            IqResultPayload::Roster(v) => IqResultPayloadView::Roster(
                v@.map(|i: int, it: RosterItem| it@),
            ),
            IqResultPayload::Pubsub(p) => IqResultPayloadView::Pubsub(p@),
            IqResultPayload::Other => IqResultPayloadView::Other,
        }
    }
}

/// Abstract value of an iq stanza's kind and payload.
pub enum IqTypeView {
    Get,
    SetQuery,
    Result(Option<IqResultPayloadView>),
    Error,
}

/// The kind of an incoming iq stanza, with the payload of a result.
pub enum IqType {
    Get,
    SetQuery,
    Result(Option<IqResultPayload>),
    Error,
}

impl View for IqType {
    type V = IqTypeView;

    open spec fn view(&self) -> IqTypeView {
        match self {
            IqType::Get => IqTypeView::Get,
            IqType::SetQuery => IqTypeView::SetQuery,
            IqType::Result(p) => IqTypeView::Result(
                match p {
                    Some(pl) => Some(pl@),
                    None => None,
                },
            ),
            IqType::Error => IqTypeView::Error,
        }
    }
}

/// Abstract value of an iq stanza.
pub struct IqView {
    pub payload: IqTypeView,
}

/// A decoded iq stanza.
pub struct Iq {
    pub payload: IqType,
}

impl View for Iq {
    type V = IqView;

    open spec fn view(&self) -> IqView {
        IqView { payload: self.payload@ }
    }
}

// ---------------------------------------------------------------------
// Outgoing stanzas
// ---------------------------------------------------------------------

/// Abstract value of a pubsub node configuration form.
pub struct NodeConfigView {
    pub persist_items: bool,
    pub send_last_published_item: Seq<char>,
    pub access_model: Seq<char>,
    pub max_items: Seq<char>,
}

/// The node configuration form submitted when setting up the modern
/// bookmark node.
pub struct NodeConfig {
    pub persist_items: bool,
    pub send_last_published_item: String,
    pub access_model: String,
    pub max_items: String,
}

impl View for NodeConfig {
    type V = NodeConfigView;

    open spec fn view(&self) -> NodeConfigView {
        NodeConfigView {
            persist_items: self.persist_items,
            send_last_published_item: self.send_last_published_item@,
            access_model: self.access_model@,
            max_items: self.max_items@,
        }
    }
}

/// Abstract value of a publish-options form.
pub struct PublishOptionsView {
    pub persist_items: bool,
    pub access_model: Seq<char>,
}

/// The publish-options form attached to a bookmark publish.
pub struct PublishOptions {
    pub persist_items: bool,
    pub access_model: String,
}

impl View for PublishOptions {
    type V = PublishOptionsView;

    open spec fn view(&self) -> PublishOptionsView {
        PublishOptionsView {
            persist_items: self.persist_items,
            access_model: self.access_model@,
        }
    }
}

/// Abstract value of an outgoing stanza body.
pub enum StanzaBodyView {
    RosterGet,
    PubsubRetrieve { node: Seq<char> },
    PubsubCreate { node: Seq<char> },
    PubsubConfigure { node: Seq<char>, form: NodeConfigView },
    PubsubPublish {
        node: Seq<char>,
        item_id: Seq<char>,
        payload: ConferenceInfoView,
        options: PublishOptionsView,
    },
    PubsubRetract { node: Seq<char>, item_id: Seq<char> },
}

/// What an outgoing stanza asks the server to do.
pub enum StanzaBody {
    /// A roster `get` query.
    RosterGet,
    /// Retrieval of the items of one pubsub node.
    PubsubRetrieve { node: String },
    /// Creation of a pubsub node.
    PubsubCreate { node: String },
    /// Configuration of a pubsub node with a submitted form.
    PubsubConfigure { node: String, form: NodeConfig },
    /// Publication of one item with publish-time options.
    PubsubPublish {
        node: String,
        item_id: String,
        payload: ConferenceInfo,
        options: PublishOptions,
    },
    /// Retraction of one item.
    PubsubRetract { node: String, item_id: String },
}

impl View for StanzaBody {
    type V = StanzaBodyView;

    open spec fn view(&self) -> StanzaBodyView {
        match self {
            StanzaBody::RosterGet => StanzaBodyView::RosterGet,
            StanzaBody::PubsubRetrieve { node } => StanzaBodyView::PubsubRetrieve {
                node: node@,
            },
            StanzaBody::PubsubCreate { node } => StanzaBodyView::PubsubCreate { node: node@ },
            StanzaBody::PubsubConfigure { node, form } => StanzaBodyView::PubsubConfigure {
                node: node@,
                form: form@,
            },
            StanzaBody::PubsubPublish { node, item_id, payload, options } => {
                StanzaBodyView::PubsubPublish {
                    node: node@,
                    item_id: item_id@,
                    payload: payload@,
                    options: options@,
                }
            },
            StanzaBody::PubsubRetract { node, item_id } => StanzaBodyView::PubsubRetract {
                node: node@,
                item_id: item_id@,
            },
        }
    }
}

/// Abstract value of an outgoing stanza.
pub struct StanzaView {
    pub id: Seq<char>,
    pub body: StanzaBodyView,
}

/// An outgoing stanza: a fresh id and the request body.
pub struct Stanza {
    pub id: String,
    pub body: StanzaBody,
}

impl View for Stanza {
    type V = StanzaView;

    open spec fn view(&self) -> StanzaView {
        StanzaView { id: self.id@, body: self.body@ }
    }
}

/// Length of a hyphenated UUID rendering.
pub const STANZA_ID_LEN: usize = 36;

/// Relies on `uuid::Uuid::new_v4` and `to_hyphenated`: a fresh random
/// identifier, rendered as 36 hyphen-separated hex digits. Nothing more
/// is promised of a random value.
#[verifier::external_body]
pub fn fresh_id() -> (r: String)
    ensures
        r@.len() == STANZA_ID_LEN,
{
    uuid::Uuid::new_v4().to_hyphenated().to_string()
}

/// The node name of the legacy bookmark storage.
pub open spec fn spec_ns_bookmarks() -> Seq<char> {
    "storage:bookmarks"@
}

/// The node name of the modern per-item bookmark storage.
pub open spec fn spec_ns_bookmarks2() -> Seq<char> {
    "urn:xmpp:bookmarks:1"@
}

/// The legacy bookmark node name.
pub fn ns_bookmarks() -> (r: String)
    ensures
        r@ == spec_ns_bookmarks(),
{
    String::from_str("storage:bookmarks")
}

/// The modern bookmark node name.
pub fn ns_bookmarks2() -> (r: String)
    ensures
        r@ == spec_ns_bookmarks2(),
{
    String::from_str("urn:xmpp:bookmarks:1")
}

} // verus!
