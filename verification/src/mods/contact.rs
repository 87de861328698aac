//! Contact management: consumes connection, roster-result and presence
//! events, and maintains one contact per `(account, bare address)` key.
//!
//! Contacts are created only from roster results. A presence for an
//! address with no roster entry is dropped silently; a presence for a
//! known contact updates it in place.

use vstd::prelude::*;
use crate::bus::Aparte;
use crate::contact::{clone_opt_string, Contact, ContactView, Group, Presence};
use crate::event::{Account, AccountView, Event, EventView};
use crate::jid::{BareJid, BareJidView};
use crate::stanza::{
    IqResultPayload, IqType, PresenceStanzaView, RosterItem, RosterItemView, Show, StanzaBodyView,
};

verus! {

/// Abstract value of a contact key.
pub struct ContactIndexView {
    pub account: AccountView,
    pub jid: BareJidView,
}

/// The key a contact is stored under: one contact per account and bare
/// address. A value type, never a live handle.
pub struct ContactIndex {
    pub account: Account,
    pub jid: BareJid,
}

impl View for ContactIndex {
    type V = ContactIndexView;

    open spec fn view(&self) -> ContactIndexView {
        ContactIndexView { account: self.account@, jid: self.jid@ }
    }
}

/// The finite map an association list denotes: later entries win.
pub open spec fn assoc_map(s: Seq<(ContactIndex, Contact)>) -> Map<ContactIndexView, ContactView>
    decreases s.len(),
{
    if s.len() == 0 {
        Map::empty()
    } else {
        assoc_map(s.drop_last()).insert(s.last().0@, s.last().1@)
    }
}

/// No two entries share a key.
pub open spec fn unique_keys(s: Seq<(ContactIndex, Contact)>) -> bool {
    forall|i: int, j: int| 0 <= i < j < s.len() ==> s[i].0@ != s[j].0@
}

pub proof fn lemma_assoc_absent(s: Seq<(ContactIndex, Contact)>, k: ContactIndexView)
    requires
        forall|i: int| 0 <= i < s.len() ==> s[i].0@ != k,
    ensures
        !assoc_map(s).dom().contains(k),
    decreases s.len(),
{
    if s.len() > 0 {
        lemma_assoc_absent(s.drop_last(), k);
    }
}

pub proof fn lemma_assoc_at(s: Seq<(ContactIndex, Contact)>, i: int)
    requires
        unique_keys(s),
        0 <= i < s.len(),
    ensures
        assoc_map(s).dom().contains(s[i].0@),
        assoc_map(s)[s[i].0@] == s[i].1@,
    decreases s.len(),
{
    if i < s.len() - 1 {
        lemma_assoc_at(s.drop_last(), i);
    }
}

pub proof fn lemma_assoc_update(s: Seq<(ContactIndex, Contact)>, i: int, p: (ContactIndex, Contact))
    requires
        unique_keys(s),
        0 <= i < s.len(),
        s[i].0@ == p.0@,
    ensures
        assoc_map(s.update(i, p)) == assoc_map(s).insert(p.0@, p.1@),
    decreases s.len(),
{
    if i == s.len() - 1 {
        assert(s.update(i, p).drop_last() =~= s.drop_last());
        assert(assoc_map(s.drop_last()).insert(s.last().0@, s.last().1@).insert(p.0@, p.1@)
            =~= assoc_map(s.drop_last()).insert(p.0@, p.1@));
    } else {
        lemma_assoc_update(s.drop_last(), i, p);
        assert(s.update(i, p).drop_last() =~= s.drop_last().update(i, p));
        assert(s.update(i, p).last() == s.last());
        assert(assoc_map(s.drop_last()).insert(p.0@, p.1@).insert(s.last().0@, s.last().1@)
            =~= assoc_map(s.drop_last()).insert(s.last().0@, s.last().1@).insert(p.0@, p.1@));
    }
}

/// The contact a roster entry denotes: presence defaults to unavailable,
/// groups are copied in order.
pub open spec fn contact_of_item(it: RosterItemView) -> ContactView {
    ContactView {
        jid: it.jid,
        name: it.name,
        subscription: it.subscription,
        presence: Presence::Unavailable,
        groups: it.groups,
    }
}

/// The key a roster entry is stored under.
pub open spec fn item_index(account: AccountView, it: RosterItemView) -> ContactIndexView {
    ContactIndexView { account, jid: it.jid }
}

/// Insert every roster entry in order, overwriting earlier ones.
pub open spec fn roster_apply(
    m: Map<ContactIndexView, ContactView>,
    account: AccountView,
    items: Seq<RosterItemView>,
) -> Map<ContactIndexView, ContactView>
    decreases items.len(),
{
    if items.len() == 0 {
        m
    } else {
        roster_apply(
            m.insert(item_index(account, items[0]), contact_of_item(items[0])),
            account,
            items.drop_first(),
        )
    }
}

/// The events a roster result schedules: one per entry, in order.
pub open spec fn roster_events(account: AccountView, items: Seq<RosterItemView>) -> Seq<
    EventView,
> {
    items.map(|i: int, it: RosterItemView| EventView::Contact(account, contact_of_item(it)))
}

/// The key-to-contact pairs of a roster result, later entries winning.
pub open spec fn roster_pairs(account: AccountView, items: Seq<RosterItemView>) -> Map<
    ContactIndexView,
    ContactView,
>
    decreases items.len(),
{
    if items.len() == 0 {
        Map::empty()
    } else {
        Map::empty().insert(
            item_index(account, items[0]),
            contact_of_item(items[0]),
        ).union_prefer_right(roster_pairs(account, items.drop_first()))
    }
}

pub proof fn lemma_roster_apply_as_union(
    m: Map<ContactIndexView, ContactView>,
    account: AccountView,
    items: Seq<RosterItemView>,
)
    ensures
        roster_apply(m, account, items) == m.union_prefer_right(roster_pairs(account, items)),
    decreases items.len(),
{
    if items.len() == 0 {
        assert(m.union_prefer_right(roster_pairs(account, items)) =~= m);
    } else {
        let k = item_index(account, items[0]);
        let c = contact_of_item(items[0]);
        lemma_roster_apply_as_union(m.insert(k, c), account, items.drop_first());
        assert(m.insert(k, c).union_prefer_right(roster_pairs(account, items.drop_first()))
            =~= m.union_prefer_right(roster_pairs(account, items)));
    }
}

/// Roster population is idempotent: applying the same roster result
/// twice yields the same contact map as applying it once — keys are
/// overwritten, never duplicated.
pub proof fn lemma_roster_apply_idempotent(
    m: Map<ContactIndexView, ContactView>,
    account: AccountView,
    items: Seq<RosterItemView>,
)
    ensures
        roster_apply(roster_apply(m, account, items), account, items) == roster_apply(
            m,
            account,
            items,
        ),
{
    let p = roster_pairs(account, items);
    lemma_roster_apply_as_union(m, account, items);
    lemma_roster_apply_as_union(m.union_prefer_right(p), account, items);
    assert(m.union_prefer_right(p).union_prefer_right(p) =~= m.union_prefer_right(p));
}

/// The availability a presence's `show` value maps to.
pub open spec fn show_to_presence(show: Option<Show>) -> Presence {
    match show {
        Some(Show::Away) => Presence::Away,
        Some(Show::Chat) => Presence::Chat,
        Some(Show::Dnd) => Presence::Dnd,
        Some(Show::Xa) => Presence::Xa,
        None => Presence::Available,
    }
}

/// A contact with its presence replaced.
pub open spec fn with_presence(c: ContactView, show: Option<Show>) -> ContactView {
    ContactView {
        jid: c.jid,
        name: c.name,
        subscription: c.subscription,
        presence: show_to_presence(show),
        groups: c.groups,
    }
}

/// The contact map after a presence: updated in place when the sender's
/// bare address is known, unchanged otherwise. Never a new key.
pub open spec fn presence_new_map(
    m: Map<ContactIndexView, ContactView>,
    account: AccountView,
    p: PresenceStanzaView,
) -> Map<ContactIndexView, ContactView> {
    match p.from {
        Some(from) => {
            let k = ContactIndexView { account, jid: from.to_bare() };
            if m.dom().contains(k) {
                m.insert(k, with_presence(m[k], p.show))
            } else {
                m
            }
        },
        None => m,
    }
}

/// The events a presence schedules: one update when the sender is known.
pub open spec fn presence_events(
    m: Map<ContactIndexView, ContactView>,
    account: AccountView,
    p: PresenceStanzaView,
) -> Seq<EventView> {
    match p.from {
        Some(from) => {
            let k = ContactIndexView { account, jid: from.to_bare() };
            if m.dom().contains(k) {
                seq![EventView::ContactUpdate(account, with_presence(m[k], p.show))]
            } else {
                Seq::empty()
            }
        },
        None => Seq::empty(),
    }
}

/// Presence updates never create contacts: the map after a presence has
/// exactly the keys it had before.
pub proof fn lemma_presence_preserves_contact_set(
    m: Map<ContactIndexView, ContactView>,
    account: AccountView,
    p: PresenceStanzaView,
)
    ensures
        presence_new_map(m, account, p).dom() == m.dom(),
{
    match p.from {
        Some(from) => {
            let k = ContactIndexView { account, jid: from.to_bare() };
            if m.dom().contains(k) {
                assert(m.insert(k, with_presence(m[k], p.show)).dom() =~= m.dom());
            }
        },
        None => {},
    }
}

/// The contact map after one event, as event delivery leaves it.
pub open spec fn contact_map_after(
    m: Map<ContactIndexView, ContactView>,
    e: EventView,
) -> Map<ContactIndexView, ContactView> {
    match e {
        EventView::Iq(account, iq) => match iq.payload {
            crate::stanza::IqTypeView::Result(Some(
                crate::stanza::IqResultPayloadView::Roster(items),
            )) => roster_apply(m, account, items),
            _ => m,
        },
        EventView::Presence(account, p) => presence_new_map(m, account, p),
        _ => m,
    }
}

/// Contact management: the per-account contact states.
pub struct ContactMod {
    pub contacts: Vec<(ContactIndex, Contact)>,
}

impl ContactMod {
    /// The contacts as a map from key to contact.
    pub open spec fn contacts_map(&self) -> Map<ContactIndexView, ContactView> {
        assoc_map(self.contacts@)
    }

    /// The store keeps one entry per key.
    pub open spec fn wf(&self) -> bool {
        unique_keys(self.contacts@)
    }

    /// A contact component with no contacts yet.
    pub fn new() -> (r: ContactMod)
        ensures
            r.wf(),
            r.contacts_map() == Map::<ContactIndexView, ContactView>::empty(),
    {
        ContactMod { contacts: Vec::new() }
    }

    /// A short human-readable description of this component.
    pub fn description(&self) -> (r: String)
        ensures
            r@ == "Contact management"@,
    {
        String::from_str("Contact management")
    }

    /// Nothing to set up.
    pub fn init(&mut self, _aparte: &mut Aparte) -> (r: Result<(), ()>)
        ensures
            r is Ok,
            *final(self) == *old(self),
    {
        Ok(())
    }

    fn find(&self, idx: &ContactIndex) -> (r: Option<usize>)
        ensures
            match r {
                Some(i) => i < self.contacts@.len() && self.contacts@[i as int].0@ == idx@,
                None => forall|i: int|
                    0 <= i < self.contacts@.len() ==> self.contacts@[i].0@ != idx@,
            },
    {
        let mut i: usize = 0;
        while i < self.contacts.len()
            invariant
                i <= self.contacts@.len(),
                forall|j: int| 0 <= j < i ==> self.contacts@[j].0@ != idx@,
            decreases self.contacts@.len() - i,
        {
            let entry = &self.contacts[i];
            if entry.0.account.jid.same_as(&idx.account.jid) && entry.0.jid.same_as(&idx.jid) {
                return Some(i);
            }
            i = i + 1;
        }
        None
    }

    /// Insert or overwrite the contact stored under the key.
    fn upsert(&mut self, idx: ContactIndex, c: Contact)
        requires
            old(self).wf(),
        ensures
            final(self).wf(),
            final(self).contacts_map() == old(self).contacts_map().insert(idx@, c@),
    {
        let ghost k = idx@;
        let ghost cv = c@;
        match self.find(&idx) {
            Some(i) => {
                let ghost s = self.contacts@;
                self.contacts.remove(i);
                self.contacts.insert(i, (idx, c));
                proof {
                    assert(self.contacts@ =~= s.update(i as int, self.contacts@[i as int]));
                    lemma_assoc_update(s, i as int, self.contacts@[i as int]);
                }
            },
            None => {
                let ghost s = self.contacts@;
                self.contacts.push((idx, c));
                proof {
                    assert(self.contacts@.drop_last() =~= s);
                    assert(self.contacts_map() == assoc_map(s).insert(k, cv));
                }
            },
        }
    }

    /// The stored contact for a key, if any.
    pub fn get(&self, idx: &ContactIndex) -> (r: Option<&Contact>)
        requires
            self.wf(),
        ensures
            match r {
                Some(c) => self.contacts_map().dom().contains(idx@) && self.contacts_map()[idx@]
                    == c@,
                None => !self.contacts_map().dom().contains(idx@),
            },
    {
        match self.find(idx) {
            Some(i) => {
                proof {
                    lemma_assoc_at(self.contacts@, i as int);
                }
                Some(&self.contacts[i].1)
            },
            None => {
                proof {
                    lemma_assoc_absent(self.contacts@, idx@);
                }
                None
            },
        }
    }

    /// Deliver one event: request the roster on connect, populate the
    /// contacts from a roster result, update presence in place.
    pub fn on_event(&mut self, aparte: &mut Aparte, event: &Event)
        requires
            old(self).wf(),
        ensures
            final(self).wf(),
            final(self).contacts_map() == contact_map_after(old(self).contacts_map(), event@),
            final(aparte).components == old(aparte).components,
            final(aparte).commands == old(aparte).commands,
            match event {
                Event::Connected(account, _) => {
                    &&& final(self).contacts_map() == old(self).contacts_map()
                    &&& final(aparte).queue_model() == old(aparte).queue_model()
                    &&& final(aparte).outgoing_bodies() == old(aparte).outgoing_bodies().push(
                        (account@, StanzaBodyView::RosterGet),
                    )
                },
                Event::Iq(account, iq) => match &iq.payload {
                    IqType::Result(Some(IqResultPayload::Roster(items))) => {
                        &&& final(self).contacts_map() == roster_apply(
                            old(self).contacts_map(),
                            account@,
                            items@.map(|i: int, it: RosterItem| it@),
                        )
                        &&& final(aparte).queue_model() == old(aparte).queue_model()
                            + roster_events(account@, items@.map(|i: int, it: RosterItem| it@))
                        &&& final(aparte).outgoing_bodies() == old(aparte).outgoing_bodies()
                    },
                    _ => {
                        &&& final(self).contacts_map() == old(self).contacts_map()
                        &&& final(aparte).queue_model() == old(aparte).queue_model()
                        &&& final(aparte).outgoing_bodies() == old(aparte).outgoing_bodies()
                    },
                },
                Event::Presence(account, presence) => {
                    &&& final(self).contacts_map() == presence_new_map(
                        old(self).contacts_map(),
                        account@,
                        presence@,
                    )
                    &&& final(self).contacts_map().dom() == old(self).contacts_map().dom()
                    &&& final(aparte).queue_model() == old(aparte).queue_model()
                        + presence_events(old(self).contacts_map(), account@, presence@)
                    &&& final(aparte).outgoing_bodies() == old(aparte).outgoing_bodies()
                },
                _ => {
                    &&& final(self).contacts_map() == old(self).contacts_map()
                    &&& final(aparte).queue_model() == old(aparte).queue_model()
                    &&& final(aparte).outgoing_bodies() == old(aparte).outgoing_bodies()
                },
            },
    {
        match event {
            Event::Connected(account, _) => {
                aparte.send(account, crate::stanza::StanzaBody::RosterGet);
            },
            Event::Iq(account, iq) => {
                match &iq.payload {
                    IqType::Result(opt) => match opt {
                        Some(IqResultPayload::Roster(items)) => {
                            self.apply_roster(aparte, account, items);
                        },
                        _ => {},
                    },
                    _ => {},
                }
            },
            Event::Presence(account, presence) => {
                match &presence.from {
                    Some(from) => {
                        let bare = from.clone().to_bare();
                        let idx = ContactIndex { account: account.clone(), jid: bare };
                        match self.find(&idx) {
                            Some(i) => {
                                proof {
                                    lemma_assoc_at(self.contacts@, i as int);
                                }
                                let mut c = self.contacts[i].1.clone();
                                c.presence = match presence.show {
                                    Some(Show::Away) => Presence::Away,
                                    Some(Show::Chat) => Presence::Chat,
                                    Some(Show::Dnd) => Presence::Dnd,
                                    Some(Show::Xa) => Presence::Xa,
                                    None => Presence::Available,
                                };
                                let c2 = c.clone();
                                self.upsert(idx, c);
                                aparte.schedule(Event::ContactUpdate(account.clone(), c2));
                                proof {
                                    lemma_presence_preserves_contact_set(
                                        old(self).contacts_map(),
                                        account@,
                                        presence@,
                                    );
                                }
                            },
                            None => {
                                proof {
                                    lemma_assoc_absent(self.contacts@, idx@);
                                }
                            },
                        }
                    },
                    None => {},
                }
            },
            _ => {},
        }
    }

    fn apply_roster(&mut self, aparte: &mut Aparte, account: &Account, items: &Vec<RosterItem>)
        requires
            old(self).wf(),
        ensures
            final(self).wf(),
            final(aparte).components == old(aparte).components,
            final(aparte).commands == old(aparte).commands,
            final(self).contacts_map() == roster_apply(
                old(self).contacts_map(),
                account@,
                items@.map(|i: int, it: RosterItem| it@),
            ),
            final(aparte).queue_model() == old(aparte).queue_model() + roster_events(
                account@,
                items@.map(|i: int, it: RosterItem| it@),
            ),
            final(aparte).outgoing_bodies() == old(aparte).outgoing_bodies(),
    {
        let ghost itemsv = items@.map(|i: int, it: RosterItem| it@);
        let ghost m0 = self.contacts_map();
        let ghost q0 = aparte.queue_model();
        let mut i: usize = 0;
        proof {
            assert(itemsv.skip(0) =~= itemsv);
            assert(q0 + roster_events(account@, itemsv.take(0)) =~= q0);
        }
        while i < items.len()
            invariant
                i <= items@.len(),
                itemsv == items@.map(|k: int, it: RosterItem| it@),
                self.wf(),
                roster_apply(m0, account@, itemsv) == roster_apply(
                    self.contacts_map(),
                    account@,
                    itemsv.skip(i as int),
                ),
                aparte.queue_model() == q0 + roster_events(account@, itemsv.take(i as int)),
                aparte.outgoing_bodies() == old(aparte).outgoing_bodies(),
                aparte.components == old(aparte).components,
                aparte.commands == old(aparte).commands,
            decreases items@.len() - i,
        {
            let it = &items[i];
            let contact = contact_from_item(it);
            let contact2 = contact.clone();
            let idx = ContactIndex { account: account.clone(), jid: it.jid.clone() };
            let ghost m_cur = self.contacts_map();
            proof {
                assert(itemsv.skip(i as int)[0] == itemsv[i as int]);
                assert(itemsv.skip(i as int).drop_first() =~= itemsv.skip(i as int + 1));
            }
            self.upsert(idx, contact);
            aparte.schedule(Event::Contact(account.clone(), contact2));
            proof {
                assert(roster_events(account@, itemsv.take(i as int)).push(
                    EventView::Contact(account@, contact_of_item(itemsv[i as int])),
                ) =~= roster_events(account@, itemsv.take(i as int + 1)));
            }
            i = i + 1;
        }
        proof {
            assert(itemsv.skip(items@.len() as int) =~= Seq::<RosterItemView>::empty());
            assert(itemsv.take(items@.len() as int) =~= itemsv);
        }
    }
}

/// The contact a roster entry denotes, as a value.
fn contact_from_item(it: &RosterItem) -> (c: Contact)
    ensures
        c@ == contact_of_item(it@),
{
    let mut groups: Vec<Group> = Vec::new();
    let mut i: usize = 0;
    while i < it.groups.len()
        invariant
            i <= it.groups@.len(),
            groups@.len() == i as int,
            forall|j: int| 0 <= j < i ==> groups@[j]@ == it.groups@[j]@,
        decreases it.groups@.len() - i,
    {
        groups.push(Group(it.groups[i].clone()));
        i = i + 1;
    }
    let c = Contact {
        jid: it.jid.clone(),
        name: clone_opt_string(&it.name),
        subscription: it.subscription,
        presence: Presence::Unavailable,
        groups,
    };
    proof {
        assert(c@.groups =~= it@.groups);
    }
    c
}

} // verus!
