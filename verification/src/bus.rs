//! The event bus and component registry. `Aparte` is the mutable hub: a
//! FIFO queue of pending events, the outgoing stanza queue per account,
//! the registered components in registration order, and the declared
//! commands. Scheduling enqueues and never dispatches synchronously;
//! `dispatch_next` draws one event and delivers it to every component,
//! in registration order, to completion.

use vstd::prelude::*;
use std::collections::VecDeque;
use crate::event::{Account, AccountView, Event, EventView};
use crate::command::{parse, CommandDef, CommandError, ParseError};
use crate::mods::contact::ContactMod;
use crate::mods::disco::Disco;
use crate::plugins::bookmarks::{spec_command_effects, BookmarksPlugin};
use crate::stanza::{fresh_id, Stanza, StanzaBody, StanzaBodyView, STANZA_ID_LEN};

verus! {

/// One registered component. The set of component kinds is closed here;
/// each is looked up by its kind when one component reads another's state.
pub enum Component {
    Contact(ContactMod),
    Disco(Disco),
    Bookmarks(BookmarksPlugin),
}

/// The index of the first discovery component, from `j` on.
pub open spec fn spec_disco_index(cs: Seq<Component>, j: int) -> Option<int>
    decreases cs.len() - j,
{
    if j < 0 || j >= cs.len() {
        None
    } else if cs[j] is Disco {
        Some(j)
    } else {
        spec_disco_index(cs, j + 1)
    }
}

/// The features the first discovery component advertises, if one is
/// registered.
pub open spec fn spec_disco_features(cs: Seq<Component>) -> Option<Seq<Seq<char>>> {
    match spec_disco_index(cs, 0) {
        Some(j) => Some(cs[j]->Disco_0.features_model()),
        None => None,
    }
}

/// The mutable core: pending events, outgoing stanzas, registered
/// components and declared commands.
pub struct Aparte {
    pub queue: VecDeque<Event>,
    pub outgoing: Vec<(Account, Stanza)>,
    pub components: Vec<Component>,
    pub commands: Vec<CommandDef>,
}

impl Aparte {
    /// The pending events, oldest first.
    pub open spec fn queue_model(&self) -> Seq<EventView> {
        self.queue@.map(|i: int, e: Event| e@)
    }

    /// The outgoing stanzas without their fresh ids.
    pub open spec fn outgoing_bodies(&self) -> Seq<(AccountView, StanzaBodyView)> {
        self.outgoing@.map(|i: int, t: (Account, Stanza)| (t.0@, t.1.body@))
    }

    /// An empty core: nothing pending, nothing registered.
    pub fn new() -> (r: Aparte)
        ensures
            r.queue_model() == Seq::<EventView>::empty(),
            r.outgoing_bodies() == Seq::<(AccountView, StanzaBodyView)>::empty(),
            r.components@ == Seq::<Component>::empty(),
            r.commands@ == Seq::<CommandDef>::empty(),
    {
        let r = Aparte {
            queue: VecDeque::new(),
            outgoing: Vec::new(),
            components: Vec::new(),
            commands: Vec::new(),
        };
        proof {
            assert(r.queue_model() =~= Seq::<EventView>::empty());
            assert(r.outgoing_bodies() =~= Seq::<(AccountView, StanzaBodyView)>::empty());
        }
        r
    }

    /// Enqueue an event for later delivery. Never dispatches
    /// synchronously: the event is observed only by a later
    /// `dispatch_next`, after everything already pending.
    pub fn schedule(&mut self, event: Event)
        ensures
            final(self).queue_model() == old(self).queue_model().push(event@),
            final(self).outgoing == old(self).outgoing,
            final(self).components == old(self).components,
            final(self).commands == old(self).commands,
    {
        let ghost prev = self.queue_model();
        let ghost ev = event@;
        self.queue.push_back(event);
        proof {
            assert(self.queue_model() =~= prev.push(ev));
        }
    }

    /// Hand a stanza body to the connection manager's outgoing queue for
    /// the account, under a fresh id. Does not block the caller.
    pub fn send(&mut self, account: &Account, body: StanzaBody)
        ensures
            final(self).outgoing_bodies() == old(self).outgoing_bodies().push((account@, body@)),
            final(self).outgoing@.len() == old(self).outgoing@.len() + 1,
            forall|i: int|
                0 <= i < old(self).outgoing@.len() ==> final(self).outgoing@[i] == old(self).outgoing@[i],
            final(self).outgoing@.last().1.id@.len() == STANZA_ID_LEN,
            final(self).queue == old(self).queue,
            final(self).components == old(self).components,
            final(self).commands == old(self).commands,
    {
        let ghost prev = self.outgoing_bodies();
        let ghost b = body@;
        let ghost av = account@;
        let stanza = Stanza { id: fresh_id(), body };
        self.outgoing.push((account.clone(), stanza));
        proof {
            assert(self.outgoing_bodies() =~= prev.push((av, b)));
        }
    }

    /// Take ownership of one component; it is delivered events after all
    /// previously registered ones.
    pub fn register(&mut self, component: Component)
        ensures
            final(self).components@ == old(self).components@.push(component),
            final(self).queue == old(self).queue,
            final(self).outgoing == old(self).outgoing,
            final(self).commands == old(self).commands,
    {
        self.components.push(component);
    }

    /// Declare one command.
    pub fn add_command(&mut self, def: CommandDef)
        ensures
            final(self).commands@ == old(self).commands@.push(def),
            final(self).queue == old(self).queue,
            final(self).outgoing == old(self).outgoing,
            final(self).components == old(self).components,
    {
        self.commands.push(def);
    }

    /// Ask the discovery component whether a feature was advertised;
    /// `None` when no discovery component is registered (or it is the
    /// one currently being visited).
    pub fn disco_has_feature(&self, feature: &String) -> (r: Option<bool>)
        ensures
            match r {
                Some(b) => spec_disco_features(self.components@) == Some(
                    spec_disco_features(self.components@)->0,
                ) && b == spec_disco_features(self.components@)->0.contains(feature@),
                None => spec_disco_features(self.components@) is None,
            },
    {
        let mut j: usize = 0;
        while j < self.components.len()
            invariant
                j <= self.components@.len(),
                spec_disco_index(self.components@, 0) == spec_disco_index(
                    self.components@,
                    j as int,
                ),
            decreases self.components@.len() - j,
        {
            match &self.components[j] {
                Component::Disco(d) => {
                    return Some(d.has_feature(feature));
                },
                _ => {},
            }
            j = j + 1;
        }
        None
    }

    /// Record a feature on the discovery component; `false` when none is
    /// registered.
    pub fn disco_add_feature(&mut self, feature: String) -> (r: bool)
        ensures
            final(self).queue == old(self).queue,
            final(self).outgoing == old(self).outgoing,
            final(self).commands == old(self).commands,
            match spec_disco_index(old(self).components@, 0) {
                Some(j) => {
                    &&& r
                    &&& final(self).components@.len() == old(self).components@.len()
                    &&& forall|k: int|
                        0 <= k < old(self).components@.len() && k != j ==> final(self).components@[k] == old(self).components@[k]
                    &&& final(self).components@[j] is Disco
                    &&& final(self).components@[j]->Disco_0.features_model() == old(self).components@[j]->Disco_0.features_model().push(feature@)
                },
                None => {
                    &&& !r
                    &&& final(self).components == old(self).components
                },
            },
    {
        let mut j: usize = 0;
        while j < self.components.len()
            invariant
                j <= self.components@.len(),
                self.components == old(self).components,
                self.queue == old(self).queue,
                self.outgoing == old(self).outgoing,
                self.commands == old(self).commands,
                spec_disco_index(self.components@, 0) == spec_disco_index(
                    self.components@,
                    j as int,
                ),
            decreases self.components@.len() - j,
        {
            let is_disco = match &self.components[j] {
                Component::Disco(_) => true,
                _ => false,
            };
            if is_disco {
                let c = self.components.remove(j);
                match c {
                    Component::Disco(mut d) => {
                        d.add_feature(feature);
                        self.components.insert(j, Component::Disco(d));
                        proof {
                            assert(self.components@ =~= old(self).components@.update(
                                j as int,
                                self.components@[j as int],
                            ));
                        }
                        return true;
                    },
                    _ => {
                        // unreachable: the slot was just seen to be Disco
                        self.components.insert(j, c);
                        return false;
                    },
                }
            }
            j = j + 1;
        }
        false
    }
}

/// One component's own invariant.
pub open spec fn component_wf(c: Component) -> bool {
    match c {
        Component::Contact(cm) => cm.wf(),
        Component::Disco(_) => true,
        Component::Bookmarks(b) => b.wf(),
    }
}

/// Every stateful component is well-formed.
pub open spec fn components_wf(cs: Seq<Component>) -> bool {
    forall|i: int| 0 <= i < cs.len() ==> component_wf(#[trigger] cs[i])
}

/// How one component's state may change under one delivered event: a
/// discovery component is untouched, a contact component's map steps by
/// the event, a bookmarks component never falls back from the modern
/// encoding.
pub open spec fn component_stepped(a: Component, b: Component, e: EventView) -> bool {
    match a {
        Component::Disco(_) => b == a,
        Component::Contact(c) => b is Contact && b->Contact_0.contacts_map()
            == crate::mods::contact::contact_map_after(c.contacts_map(), e),
        Component::Bookmarks(p) => b is Bookmarks && (p.modern_active()
            ==> b->Bookmarks_0.modern_active()),
    }
}

/// Same number of components, of the same kinds, in the same order.
pub open spec fn same_kinds(a: Seq<Component>, b: Seq<Component>) -> bool {
    &&& a.len() == b.len()
    &&& forall|i: int|
        #![trigger a[i], b[i]]
        0 <= i < a.len() ==> ((a[i] is Contact <==> b[i] is Contact) && (a[i] is Disco <==> b[i]
            is Disco) && (a[i] is Bookmarks <==> b[i] is Bookmarks))
}

/// The index of the first bookmarks component, from `j` on.
pub open spec fn spec_bookmarks_index(cs: Seq<Component>, j: int) -> Option<int>
    decreases cs.len() - j,
{
    if j < 0 || j >= cs.len() {
        None
    } else if cs[j] is Bookmarks {
        Some(j)
    } else {
        spec_bookmarks_index(cs, j + 1)
    }
}

/// Why an input line was not acted on.
pub enum InputError {
    /// The line is not a well-formed command.
    Parse(ParseError),
    /// The resolved handler refused the command.
    Command(CommandError),
    /// No component serves the resolved command.
    NoHandler,
}

impl Aparte {
    /// Every registered stateful component is well-formed.
    pub open spec fn wf(&self) -> bool {
        components_wf(self.components@)
    }

    /// Draw the oldest pending event and deliver it to every registered
    /// component, in registration order, to completion, before any other
    /// event is drawn. A component failure is component-local: handlers
    /// return nothing and cannot abort delivery to the rest. Pending
    /// events that were behind the drawn one keep their order; the
    /// outgoing queue only grows.
    pub fn dispatch_next(&mut self) -> (r: Option<Event>)
        requires
            old(self).wf(),
        ensures
            final(self).wf(),
            final(self).commands == old(self).commands,
            match r {
                None => {
                    &&& old(self).queue_model().len() == 0
                    &&& final(self).queue@ == old(self).queue@
                    &&& final(self).outgoing == old(self).outgoing
                    &&& final(self).components == old(self).components
                },
                Some(e) => {
                    &&& old(self).queue_model().len() > 0
                    &&& e@ == old(self).queue_model()[0]
                    &&& same_kinds(old(self).components@, final(self).components@)
                    &&& forall|i: int|
                        0 <= i < old(self).components@.len() ==> component_stepped(
                            old(self).components@[i],
                            #[trigger] final(self).components@[i],
                            e@,
                        )
                    &&& final(self).queue_model().len() >= old(self).queue_model().len() - 1
                    &&& forall|i: int|
                        0 <= i < old(self).queue_model().len() - 1 ==> final(self).queue_model()[i]
                            == old(self).queue_model()[i + 1]
                    &&& final(self).outgoing_bodies().len() >= old(self).outgoing_bodies().len()
                    &&& forall|i: int|
                        0 <= i < old(self).outgoing_bodies().len() ==> final(self).outgoing_bodies()[i] == old(self).outgoing_bodies()[i]
                },
            },
    {
        let e = match self.queue.pop_front() {
            None => {
                return None;
            },
            Some(e) => e,
        };
        let ghost q_rest = self.queue_model();
        let ghost ob0 = self.outgoing_bodies();
        proof {
            assert(e@ == old(self).queue_model()[0]);
            assert(q_rest =~= old(self).queue_model().subrange(
                1,
                old(self).queue_model().len() as int,
            ));
            assert(forall|k: int|
                0 <= k < q_rest.len() ==> q_rest[k] == old(self).queue_model()[k + 1]);
            assert(ob0 == old(self).outgoing_bodies());
        }
        let mut i: usize = 0;
        while i < self.components.len()
            invariant
                i <= self.components@.len(),
                components_wf(self.components@),
                same_kinds(old(self).components@, self.components@),
                forall|k: int|
                    0 <= k < self.components@.len() ==> {
                        &&& (k < i ==> component_stepped(
                            old(self).components@[k],
                            #[trigger] self.components@[k],
                            e@,
                        ))
                        &&& (k >= i ==> self.components@[k] == old(self).components@[k])
                    },
                self.commands == old(self).commands,
                self.queue_model().len() >= q_rest.len(),
                forall|k: int| 0 <= k < q_rest.len() ==> self.queue_model()[k] == q_rest[k],
                self.outgoing_bodies().len() >= ob0.len(),
                forall|k: int| 0 <= k < ob0.len() ==> self.outgoing_bodies()[k] == ob0[k],
            decreases self.components@.len() - i,
        {
            let ghost comps_pre = self.components@;
            let ghost q_pre = self.queue_model();
            let ghost ob_pre = self.outgoing_bodies();
            let c = self.components.remove(i);
            match c {
                Component::Contact(mut cm) => {
                    cm.on_event(self, &e);
                    self.components.insert(i, Component::Contact(cm));
                },
                Component::Disco(d) => {
                    self.components.insert(i, Component::Disco(d));
                },
                Component::Bookmarks(mut b) => {
                    b.on_event(self, &e);
                    self.components.insert(i, Component::Bookmarks(b));
                },
            }
            proof {
                assert(self.components@ =~= comps_pre.update(i as int, self.components@[i as int]));
                assert(forall|k: int|
                    0 <= k < q_pre.len() ==> self.queue_model()[k] == q_pre[k]);
                assert(forall|k: int|
                    0 <= k < ob_pre.len() ==> self.outgoing_bodies()[k] == ob_pre[k]);
            }
            i = i + 1;
        }
        proof {
            assert forall|k: int|
                0 <= k < old(self).queue_model().len() - 1 implies self.queue_model()[k] == old(
                self,
            ).queue_model()[k + 1] by {
                assert(self.queue_model()[k] == q_rest[k]);
                assert(q_rest[k] == old(self).queue_model()[k + 1]);
            }
        }
        Some(e)
    }

    /// Parse one input line against the declared commands and run the
    /// resolved command against the component that serves it. Parse
    /// errors are returned as data and mutate nothing.
    pub fn handle_input(&mut self, account: &Account, line: &str) -> (r: Result<(), InputError>)
        requires
            old(self).wf(),
        ensures
            final(self).wf(),
            final(self).commands == old(self).commands,
            final(self).queue_model() == old(self).queue_model(),
            ({
                let pr = crate::command::spec_parse(
                    old(self).commands@.map(|i: int, d: CommandDef| d@),
                    line@,
                );
                match r {
                    Err(InputError::Parse(e)) => pr == Err::<
                        crate::command::ParsedCommandView,
                        crate::command::ParseErrorView,
                    >(e@) && *final(self) == *old(self),
                    Err(InputError::NoHandler) => pr is Ok && spec_bookmarks_index(
                        old(self).components@,
                        0,
                    ) is None && *final(self) == *old(self),
                    Err(InputError::Command(ce)) => pr is Ok && bookmarks_step(
                        *old(self),
                        *final(self),
                        account@,
                        pr->Ok_0,
                        Err(ce),
                    ),
                    Ok(_) => pr is Ok && bookmarks_step(
                        *old(self),
                        *final(self),
                        account@,
                        pr->Ok_0,
                        Ok(()),
                    ),
                }
            }),
    {
        let parsed = match parse(&self.commands, line) {
            Ok(p) => p,
            Err(e) => {
                return Err(InputError::Parse(e));
            },
        };
        let mut j: usize = 0;
        while j < self.components.len()
            invariant
                j <= self.components@.len(),
                *self == *old(self),
                self.wf(),
                crate::command::spec_parse(
                    old(self).commands@.map(|i: int, d: CommandDef| d@),
                    line@,
                ) == Ok::<crate::command::ParsedCommandView, crate::command::ParseErrorView>(
                    parsed@,
                ),
                spec_bookmarks_index(self.components@, 0) == spec_bookmarks_index(
                    self.components@,
                    j as int,
                ),
            decreases self.components@.len() - j,
        {
            let is_bookmarks = match &self.components[j] {
                Component::Bookmarks(_) => true,
                _ => false,
            };
            if is_bookmarks {
                let ghost comps_pre = self.components@;
                proof {
                    assert(component_wf(self.components@[j as int]));
                }
                let c = self.components.remove(j);
                match c {
                    Component::Bookmarks(mut b) => {
                        let res = b.handle_command(self, account, &parsed);
                        self.components.insert(j, Component::Bookmarks(b));
                        proof {
                            assert(self.components@ =~= comps_pre.update(
                                j as int,
                                self.components@[j as int],
                            ));
                            assert forall|k: int|
                                0 <= k < self.components@.len() implies component_wf(
                                #[trigger] self.components@[k],
                            ) by {
                                if k != j {
                                    assert(self.components@[k] == comps_pre[k]);
                                    assert(component_wf(comps_pre[k]));
                                }
                            }
                            assert(spec_bookmarks_index(old(self).components@, j as int)
                                == Some(j as int));
                            assert(forall|k: int|
                                0 <= k < old(self).components@.len() && k != j
                                    ==> self.components@[k] == old(self).components@[k]);
                            assert(self.components@[j as int] is Bookmarks);
                        }
                        return match res {
                            Ok(_) => Ok(()),
                            Err(ce) => Err(InputError::Command(ce)),
                        };
                    },
                    _ => {
                        self.components.insert(j, c);
                        return Err(InputError::NoHandler);
                    },
                }
            }
            j = j + 1;
        }
        Err(InputError::NoHandler)
    }
}

/// The command was run against the first bookmarks component: that slot
/// stepped as the command says, everything else is unchanged.
pub open spec fn bookmarks_step(
    pre: Aparte,
    post: Aparte,
    account: AccountView,
    cmd: crate::command::ParsedCommandView,
    r: Result<(), CommandError>,
) -> bool {
    match spec_bookmarks_index(pre.components@, 0) {
        Some(j) => {
            &&& post.components@.len() == pre.components@.len()
            &&& forall|k: int|
                0 <= k < pre.components@.len() && k != j ==> post.components@[k]
                    == pre.components@[k]
            &&& post.components@[j] is Bookmarks
            &&& spec_command_effects(
                pre.components@[j]->Bookmarks_0,
                post.components@[j]->Bookmarks_0,
                pre.outgoing_bodies(),
                post.outgoing_bodies(),
                account,
                cmd,
                r,
            )
        },
        None => false,
    }
}

// ---------------------------------------------------------------------
// The FIFO law of the bus
// ---------------------------------------------------------------------

/// The first `n` events a queue yields, drawing from the front.
pub open spec fn spec_drawn(q: Seq<EventView>, n: nat) -> Seq<EventView>
    decreases n,
{
    if n == 0 || q.len() == 0 {
        Seq::empty()
    } else {
        seq![q[0]] + spec_drawn(q.drop_first(), (n - 1) as nat)
    }
}

/// Dispatch order equals schedule order: drawing `n` events from the
/// front of the queue yields exactly its first `n` entries, in order.
/// Scheduling appends, so events come out in the order they went in.
pub proof fn lemma_dispatch_order_is_schedule_order(q: Seq<EventView>, n: nat)
    requires
        n <= q.len(),
    ensures
        spec_drawn(q, n) == q.take(n as int),
    decreases n,
{
    if n == 0 {
        assert(spec_drawn(q, n) =~= q.take(0));
    } else {
        lemma_dispatch_order_is_schedule_order(q.drop_first(), (n - 1) as nat);
        assert(spec_drawn(q, n) =~= q.take(n as int));
    }
}

/// Scheduling preserves the position of everything already pending: an
/// event never overtakes an earlier one.
pub proof fn lemma_schedule_keeps_order(q: Seq<EventView>, e: EventView, i: int)
    requires
        0 <= i < q.len(),
    ensures
        q.push(e)[i] == q[i],
        q.push(e)[q.len() as int] == e,
{
}

} // verus!
