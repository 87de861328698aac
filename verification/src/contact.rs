//! Contacts and bookmarks: the per-account roster entries and the saved
//! conference references that the protocol components maintain.

use vstd::prelude::*;
use crate::jid::{BareJid, BareJidView};

verus! {

/// Availability derived from a presence stanza's `show` value.
#[derive(Clone, Copy, Debug, PartialEq, Eq, Structural)]
pub enum Presence {
    Unavailable,
    Available,
    Away,
    Chat,
    Dnd,
    Xa,
}

/// Subscription state of a roster entry.
#[derive(Clone, Copy, Debug, PartialEq, Eq, Structural)]
pub enum Subscription {
    NotSubscribed,
    From,
    To,
    Both,
    Remove,
}

/// A contact group name.
pub struct Group(pub String);

impl View for Group {
    type V = Seq<char>;

    open spec fn view(&self) -> Seq<char> {
        self.0@
    }
}

impl Clone for Group {
    fn clone(&self) -> (res: Self)
        ensures
            res@ == self@,
    {
        Group(self.0.clone())
    }
}

/// Abstract value of a contact.
pub struct ContactView {
    pub jid: BareJidView,
    pub name: Option<Seq<char>>,
    pub subscription: Subscription,
    pub presence: Presence,
    pub groups: Seq<Seq<char>>,
}

/// One roster entry: an address, an optional display name, the
/// subscription state, the last seen presence, and the groups it
/// belongs to, in roster order.
pub struct Contact {
    pub jid: BareJid,
    pub name: Option<String>,
    pub subscription: Subscription,
    pub presence: Presence,
    pub groups: Vec<Group>,
}

impl View for Contact {
    type V = ContactView;

    open spec fn view(&self) -> ContactView {
        ContactView {
            jid: self.jid@,
            name: match self.name {
                Some(n) => Some(n@),
                None => None,
            },
            subscription: self.subscription,
            presence: self.presence,
            groups: self.groups@.map(|i: int, g: Group| g@),
        }
    }
}

impl Clone for Contact {
    fn clone(&self) -> (res: Self)
        ensures
            res@ == self@,
    {
        let mut groups: Vec<Group> = Vec::new();
        let mut i: usize = 0;
        while i < self.groups.len()
            invariant
                i <= self.groups.len(),
                groups@.len() == i as int,
                forall|j: int| 0 <= j < i ==> groups@[j]@ == self.groups@[j]@,
            decreases self.groups.len() - i,
        {
            groups.push(self.groups[i].clone());
            i = i + 1;
        }
        let res = Contact {
            jid: self.jid.clone(),
            name: match &self.name {
                Some(n) => Some(n.clone()),
                None => None,
            },
            subscription: self.subscription,
            presence: self.presence,
            groups,
        };
        proof {
            assert(res@.groups =~= self@.groups);
        }
        res
    }
}

/// Abstract value of a bookmark.
pub struct BookmarkView {
    pub jid: BareJidView,
    pub name: Option<Seq<char>>,
    pub nick: Option<Seq<char>>,
    pub password: Option<Seq<char>>,
    pub autojoin: bool,
}

/// A saved conference reference. Identity is the conference address;
/// there is no synthetic id.
pub struct Bookmark {
    pub jid: BareJid,
    pub name: Option<String>,
    pub nick: Option<String>,
    pub password: Option<String>,
    pub autojoin: bool,
}

impl View for Bookmark {
    type V = BookmarkView;

    open spec fn view(&self) -> BookmarkView {
        BookmarkView {
            jid: self.jid@,
            name: match self.name {
                Some(n) => Some(n@),
                None => None,
            },
            nick: match self.nick {
                Some(n) => Some(n@),
                None => None,
            },
            password: match self.password {
                Some(p) => Some(p@),
                None => None,
            },
            autojoin: self.autojoin,
        }
    }
}

pub(crate) fn clone_opt_string(s: &Option<String>) -> (res: Option<String>)
    ensures
        match (s, &res) {
            (Some(a), Some(b)) => a@ == b@,
            (None, None) => true,
            _ => false,
        },
{
    match s {
        Some(a) => Some(a.clone()),
        None => None,
    }
}

impl Clone for Bookmark {
    fn clone(&self) -> (res: Self)
        ensures
            res@ == self@,
    {
        Bookmark {
            jid: self.jid.clone(),
            name: clone_opt_string(&self.name),
            nick: clone_opt_string(&self.nick),
            password: clone_opt_string(&self.password),
            autojoin: self.autojoin,
        }
    }
}

} // verus!
