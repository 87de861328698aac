//! Accounts and the closed set of semantic events that flows over the bus.
//! Every variant is pure data: no variant carries a handle to engine state.

use vstd::prelude::*;
use crate::contact::{Bookmark, BookmarkView, Contact, ContactView};
use crate::jid::{BareJid, BareJidView, Jid, JidView};
use crate::stanza::{Iq, IqView, PresenceStanza, PresenceStanzaView};

verus! {

/// Abstract value of an account.
pub struct AccountView {
    pub jid: BareJidView,
}

/// One configured protocol identity, used as a partition key for all
/// per-identity session state.
pub struct Account {
    pub jid: BareJid,
}

impl View for Account {
    type V = AccountView;

    open spec fn view(&self) -> AccountView {
        AccountView { jid: self.jid@ }
    }
}

impl Clone for Account {
    fn clone(&self) -> (res: Self)
        ensures
            res@ == self@,
    {
        Account { jid: self.jid.clone() }
    }
}

/// Abstract value of an event.
pub enum EventView {
    Connected(AccountView, JidView),
    Disco(AccountView),
    Iq(AccountView, IqView),
    Presence(AccountView, PresenceStanzaView),
    Contact(AccountView, ContactView),
    ContactUpdate(AccountView, ContactView),
    Bookmark(BookmarkView),
    Join(JidView, bool),
}

/// A semantic event, produced by the connection manager or scheduled by a
/// component as a follow-up.
pub enum Event {
    /// A session came up under the given full address.
    Connected(Account, Jid),
    /// Service-discovery results for the account are available.
    Disco(Account),
    /// An iq stanza arrived.
    Iq(Account, Iq),
    /// A presence notification arrived.
    Presence(Account, PresenceStanza),
    /// A contact was created or refreshed from a roster result.
    Contact(Account, Contact),
    /// An existing contact changed.
    ContactUpdate(Account, Contact),
    /// A bookmark became known.
    Bookmark(Bookmark),
    /// A conference should be joined; the flag says whether a password
    /// will be prompted for.
    Join(Jid, bool),
}

impl View for Event {
    type V = EventView;

    open spec fn view(&self) -> EventView {
        match self {
            Event::Connected(a, j) => EventView::Connected(a@, j@),
            Event::Disco(a) => EventView::Disco(a@),
            Event::Iq(a, iq) => EventView::Iq(a@, iq@),
            Event::Presence(a, p) => EventView::Presence(a@, p@),
            Event::Contact(a, c) => EventView::Contact(a@, c@),
            Event::ContactUpdate(a, c) => EventView::ContactUpdate(a@, c@),
            Event::Bookmark(b) => EventView::Bookmark(b@),
            Event::Join(j, p) => EventView::Join(j@, *p),
        }
    }
}

} // verus!
