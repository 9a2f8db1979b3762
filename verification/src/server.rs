//! The coordination hub: the one owner of membership, readiness and the media
//! queue.
//!
//! [`DTPServer`] decides and records; it does not deliver. Each operation
//! returns the [`Broadcast`] that it causes, which names the event and every
//! member that is to receive it. Delivery is fire-and-forget and belongs to
//! whoever holds the hub.

use std::collections::VecDeque;
use vstd::prelude::*;
use crate::hub::{Command, Hub};
use crate::packets::{
    Connect, ConnectNotification, Disconnect, DisconnectNotification, Play, Poll, Ready2, S2CView,
    Skip, S2C,
};

verus! {

/// A connected participant: its id, and the capability through which events
/// reach it.
pub struct Member<R> {
    pub id: String,
    pub outbound: R,
}

/// One event, to be delivered once to each member in `to`.
pub struct Broadcast<'a, R> {
    pub event: S2C,
    pub to: Vec<&'a Member<R>>,
}

/// `to` names every entry of `members` exactly once, each with the capability
/// that `members` holds for it; so it is as long as `members` is large.
pub open spec fn reaches_all<R>(to: Seq<&Member<R>>, members: Map<Seq<char>, R>) -> bool {
    &&& to.len() == members.dom().len()
    &&& forall|i: int|
        0 <= i < to.len() ==> members.contains_pair(#[trigger] to[i].id@, to[i].outbound)
    &&& forall|i: int, j: int| 0 <= i < j < to.len() ==> to[i].id@ != to[j].id@
    &&& forall|id: Seq<char>|
        members.dom().contains(id) ==> exists|i: int| 0 <= i < to.len() && #[trigger] to[i].id@ == id
}

/// The ids of a list of members, in the list's order.
spec fn ids_of<R>(v: Seq<Member<R>>) -> Seq<Seq<char>> {
    v.map_values(|m: Member<R>| m.id@)
}

/// The views of a list of strings, in the list's order.
spec fn views_of(v: Seq<String>) -> Seq<Seq<char>> {
    v.map_values(|s: String| s@)
}

/// The membership that a list of members stands for.
spec fn members_of<R>(v: Seq<Member<R>>) -> Map<Seq<char>, R> {
    Map::new(
        |id: Seq<char>| ids_of(v).contains(id),
        |id: Seq<char>| v[ids_of(v).index_of(id)].outbound,
    )
}

/// In a list without a repeated id, entry `i` is what the membership holds
/// under its id.
proof fn lemma_lookup<R>(v: Seq<Member<R>>, i: int)
    requires
        ids_of(v).no_duplicates(),
        0 <= i < v.len(),
    ensures
        ids_of(v).contains(v[i].id@),
        ids_of(v).index_of(v[i].id@) == i,
        members_of(v).contains_pair(v[i].id@, v[i].outbound),
{
    let ids = ids_of(v);
    assert(ids[i] == v[i].id@);
    let j = ids.index_of(v[i].id@);
    assert(0 <= j < ids.len() && ids[j] == v[i].id@);
}

/// The membership's domain is the set of the list's ids, and has the list's
/// length where no id repeats.
proof fn lemma_members_size<R>(v: Seq<Member<R>>)
    ensures
        members_of(v).dom() == ids_of(v).to_set(),
        members_of(v).dom().finite(),
        ids_of(v).no_duplicates() ==> members_of(v).dom().len() == v.len(),
{
    assert(members_of(v).dom() =~= ids_of(v).to_set());
    vstd::seq_lib::seq_to_set_is_finite(ids_of(v));
    if ids_of(v).no_duplicates() {
        ids_of(v).unique_seq_to_set();
    }
}

/// Appending a member under a new id inserts it.
proof fn lemma_members_push<R>(v: Seq<Member<R>>, m: Member<R>)
    requires
        ids_of(v).no_duplicates(),
        !ids_of(v).contains(m.id@),
    ensures
        ids_of(v.push(m)).no_duplicates(),
        members_of(v.push(m)) == members_of(v).insert(m.id@, m.outbound),
{
    let w = v.push(m);
    assert(ids_of(w) =~= ids_of(v).push(m.id@));
    assert forall|i: int, j: int| 0 <= i < w.len() && 0 <= j < w.len() && i != j implies ids_of(
        w,
    )[i] != ids_of(w)[j] by {
        if i < v.len() {
            assert(ids_of(v)[i] == ids_of(w)[i]);
        }
        if j < v.len() {
            assert(ids_of(v)[j] == ids_of(w)[j]);
        }
    }
    assert forall|id: Seq<char>| members_of(w).dom().contains(id) <==> members_of(v).insert(
        m.id@,
        m.outbound,
    ).dom().contains(id) by {
        if ids_of(w).contains(id) {
            let k = choose|k: int| 0 <= k < w.len() && ids_of(w)[k] == id;
            if k < v.len() {
                assert(ids_of(v)[k] == id);
            }
        }
        if ids_of(v).contains(id) {
            let k = choose|k: int| 0 <= k < v.len() && ids_of(v)[k] == id;
            assert(ids_of(w)[k] == id);
        }
        if id == m.id@ {
            assert(ids_of(w)[v.len() as int] == id);
        }
    }
    assert forall|id: Seq<char>| members_of(w).dom().contains(id) implies members_of(w)[id]
        == members_of(v).insert(m.id@, m.outbound)[id] by {
        let k = ids_of(w).index_of(id);
        assert(0 <= k < w.len() && ids_of(w)[k] == id);
        lemma_lookup(w, k);
        if k < v.len() {
            assert(ids_of(v)[k] == id);
            lemma_lookup(v, k);
        }
    }
    assert(members_of(w) =~= members_of(v).insert(m.id@, m.outbound));
}

/// Replacing a member by one of the same id overwrites its entry.
proof fn lemma_members_update<R>(v: Seq<Member<R>>, i: int, m: Member<R>)
    requires
        ids_of(v).no_duplicates(),
        0 <= i < v.len(),
        v[i].id@ == m.id@,
    ensures
        ids_of(v.update(i, m)).no_duplicates(),
        members_of(v.update(i, m)) == members_of(v).insert(m.id@, m.outbound),
{
    let w = v.update(i, m);
    assert(ids_of(w) =~= ids_of(v));
    lemma_lookup(v, i);
    assert forall|id: Seq<char>| members_of(w).dom().contains(id) implies members_of(w)[id]
        == members_of(v).insert(m.id@, m.outbound)[id] by {
        let k = ids_of(w).index_of(id);
        assert(0 <= k < w.len() && ids_of(w)[k] == id);
        lemma_lookup(w, k);
        lemma_lookup(v, k);
    }
    assert(members_of(w) =~= members_of(v).insert(m.id@, m.outbound));
}

/// Taking a member out of the list removes its entry.
proof fn lemma_members_remove<R>(v: Seq<Member<R>>, i: int)
    requires
        ids_of(v).no_duplicates(),
        0 <= i < v.len(),
    ensures
        ids_of(v.remove(i)).no_duplicates(),
        members_of(v.remove(i)) == members_of(v).remove(v[i].id@),
{
    let w = v.remove(i);
    assert forall|k: int| 0 <= k < w.len() implies #[trigger] ids_of(w)[k] == ids_of(v)[if k
        < i {
        k
    } else {
        k + 1
    }] by {}
    assert forall|a: int, b: int| 0 <= a < w.len() && 0 <= b < w.len() && a != b implies ids_of(
        w,
    )[a] != ids_of(w)[b] by {
        let a2 = if a < i { a } else { a + 1 };
        let b2 = if b < i { b } else { b + 1 };
        assert(ids_of(w)[a] == ids_of(v)[a2]);
        assert(ids_of(w)[b] == ids_of(v)[b2]);
    }
    let gone = v[i].id@;
    assert(ids_of(v)[i] == gone);
    assert forall|id: Seq<char>| members_of(w).dom().contains(id) <==> members_of(v).remove(
        gone,
    ).dom().contains(id) by {
        if ids_of(w).contains(id) {
            let k = choose|k: int| 0 <= k < w.len() && ids_of(w)[k] == id;
            let k2 = if k < i { k } else { k + 1 };
            assert(ids_of(w)[k] == ids_of(v)[k2]);
        }
        if ids_of(v).contains(id) && id != gone {
            let k = choose|k: int| 0 <= k < v.len() && ids_of(v)[k] == id;
            let k2 = if k < i { k } else { k - 1 };
            assert(ids_of(w)[k2] == ids_of(v)[k]);
        }
    }
    assert forall|id: Seq<char>| members_of(w).dom().contains(id) implies members_of(w)[id]
        == members_of(v).remove(gone)[id] by {
        let k = ids_of(w).index_of(id);
        assert(0 <= k < w.len() && ids_of(w)[k] == id);
        let k2 = if k < i { k } else { k + 1 };
        assert(ids_of(w)[k] == ids_of(v)[k2]);
        lemma_lookup(w, k);
        lemma_lookup(v, k2);
    }
    assert(members_of(w) =~= members_of(v).remove(gone));
}

/// The hub of one room.
///
/// Members and ready ids are kept in lists in which no id occurs twice; the
/// queue is first in, first out.
pub struct DTPServer<R> {
    active_broadcasts: Vec<Member<R>>,
    ready2_clients: Vec<String>,
    queue: VecDeque<String>,
}

impl<R> View for DTPServer<R> {
    type V = Hub<R>;

    closed spec fn view(&self) -> Hub<R> {
        Hub {
            members: members_of(self.active_broadcasts@),
            ready: views_of(self.ready2_clients@).to_set(),
            queue: views_of(self.queue@),
        }
    }
}

impl<R> DTPServer<R> {
    /// No id occurs twice among the members, nor among the ready ids. Every
    /// hub made by this module is well formed, and every operation keeps it so.
    pub closed spec fn wf(&self) -> bool {
        &&& ids_of(self.active_broadcasts@).no_duplicates()
        &&& views_of(self.ready2_clients@).no_duplicates()
    }

    /// Every hub's view has finite membership and a finite ready set.
    pub proof fn lemma_view_wf(&self)
        ensures
            self@.wf(),
    {
        lemma_members_size(self.active_broadcasts@);
        vstd::seq_lib::seq_to_set_is_finite(views_of(self.ready2_clients@));
    }

    /// A hub with no members, nobody ready and nothing queued.
    pub fn new() -> (out: Self)
        ensures
            out.wf(),
            out@ == Hub::<R>::empty(),
    {
        let out = DTPServer {
            active_broadcasts: Vec::new(),
            ready2_clients: Vec::new(),
            queue: VecDeque::new(),
        };
        proof {
            assert(members_of(out.active_broadcasts@) =~= Map::<Seq<char>, R>::empty());
            assert(views_of(out.ready2_clients@).to_set() =~= Set::<Seq<char>>::empty());
            assert(views_of(out.queue@) =~= Seq::<Seq<char>>::empty());
        }
        out
    }

    /// Where in the member list `id` stands, if it is a member.
    fn position(&self, id: &String) -> (out: Option<usize>)
        ensures
            match out {
                Some(i) => i < self.active_broadcasts@.len() && self.active_broadcasts@[i as int].id@
                    == id@,
                None => !ids_of(self.active_broadcasts@).contains(id@),
            },
    {
        let mut i: usize = 0;
        while i < self.active_broadcasts.len()
            invariant
                i <= self.active_broadcasts@.len(),
                forall|j: int| 0 <= j < i ==> self.active_broadcasts@[j].id@ != id@,
            decreases self.active_broadcasts@.len() - i,
        {
            if self.active_broadcasts[i].id == *id {
                return Some(i);
            }
            i += 1;
        }
        proof {
            assert forall|j: int| 0 <= j < self.active_broadcasts@.len() implies ids_of(
                self.active_broadcasts@,
            )[j] != id@ by {}
        }
        None
    }

    /// The broadcast of `event` to every current member.
    fn broadcast<'a>(&'a self, event: S2C) -> (out: Broadcast<'a, R>)
        requires
            self.wf(),
        ensures
            out.event == event,
            reaches_all(out.to@, self@.members),
    {
        let mut to: Vec<&'a Member<R>> = Vec::new();
        let mut i: usize = 0;
        while i < self.active_broadcasts.len()
            invariant
                i <= self.active_broadcasts@.len(),
                to@.len() == i,
                forall|j: int| 0 <= j < i ==> *(#[trigger] to@[j]) == self.active_broadcasts@[j],
            decreases self.active_broadcasts@.len() - i,
        {
            to.push(&self.active_broadcasts[i]);
            i += 1;
        }
        proof {
            let v = self.active_broadcasts@;
            lemma_members_size(v);
            assert forall|j: int| 0 <= j < to@.len() implies self@.members.contains_pair(
                #[trigger] to@[j].id@,
                to@[j].outbound,
            ) by {
                lemma_lookup(v, j);
            }
            assert forall|a: int, b: int| 0 <= a < b < to@.len() implies to@[a].id@ != to@[b].id@ by {
                assert(ids_of(v)[a] == to@[a].id@);
                assert(ids_of(v)[b] == to@[b].id@);
            }
            assert forall|id: Seq<char>| self@.members.dom().contains(id) implies exists|j: int|
                0 <= j < to@.len() && #[trigger] to@[j].id@ == id by {
                let k = choose|k: int| 0 <= k < v.len() && ids_of(v)[k] == id;
                assert(to@[k].id@ == id);
            }
        }
        Broadcast { event, to }
    }

    /// The announcement of `notif` to every current member.
    fn notify_connect<'a>(&'a self, notif: ConnectNotification) -> (out: Broadcast<'a, R>)
        requires
            self.wf(),
        ensures
            out.event@ == (S2CView::ConnectNotification { id: notif.id@ }),
            reaches_all(out.to@, self@.members),
    {
        self.broadcast(S2C::ConnectNotification(notif))
    }

    /// Takes in the member `event.id` with the capability `event.addr`,
    /// overwriting an earlier entry under that id, and announces
    /// `event.notif` to the membership it leaves, the newcomer included.
    pub fn connect<'a>(&'a mut self, event: Connect<R>) -> (out: Broadcast<'a, R>)
        requires
            old(self).wf(),
        ensures
            final(self).wf(),
            final(self)@ == old(self)@.register(event.id@, event.addr),
            out.event@ == (S2CView::ConnectNotification { id: event.notif.id@ }),
            reaches_all(out.to@, final(self)@.members),
    {
        let Connect { addr, id, notif } = event;
        let found = self.position(&id);
        let member = Member { id, outbound: addr };
        match found {
            Some(i) => {
                proof {
                    lemma_members_update(self.active_broadcasts@, i as int, member);
                }
                self.active_broadcasts.set(i, member);
            },
            None => {
                proof {
                    lemma_members_push(self.active_broadcasts@, member);
                }
                self.active_broadcasts.push(member);
            },
        }
        self.notify_connect(notif)
    }

    /// The announcement of `notif` to every current member.
    fn notify_disconnect<'a>(&'a self, notif: DisconnectNotification) -> (out: Broadcast<'a, R>)
        requires
            self.wf(),
        ensures
            out.event@ == (S2CView::DisconnectNotification { id: notif.id@ }),
            reaches_all(out.to@, self@.members),
    {
        self.broadcast(S2C::DisconnectNotification(notif))
    }

    /// Lets the member `msg.id` go, if it is one, and announces `msg.notif`
    /// to those who remain. Whether the id had reported ready is not
    /// touched.
    pub fn disconnect<'a>(&'a mut self, msg: Disconnect) -> (out: Broadcast<'a, R>)
        requires
            old(self).wf(),
        ensures
            final(self).wf(),
            final(self)@ == old(self)@.unregister(msg.id@),
            out.event@ == (S2CView::DisconnectNotification { id: msg.notif.id@ }),
            reaches_all(out.to@, final(self)@.members),
    {
        let Disconnect { id, notif } = msg;
        match self.position(&id) {
            Some(i) => {
                proof {
                    lemma_members_remove(self.active_broadcasts@, i as int);
                }
                self.active_broadcasts.remove(i);
            },
            None => {
                assert(members_of(self.active_broadcasts@).remove(id@) =~= members_of(
                    self.active_broadcasts@,
                ));
            },
        }
        self.notify_disconnect(notif)
    }

    /// Appends `msg.link` to the queue and announces it to every member. The
    /// announcement tells of the submission; the start comes from
    /// [`DTPServer::poll`].
    pub fn play<'a>(&'a mut self, msg: Play) -> (out: Broadcast<'a, R>)
        requires
            old(self).wf(),
        ensures
            final(self).wf(),
            final(self)@ == old(self)@.enqueue(msg.link@),
            out.event@ == (S2CView::Play { yt_link: msg.link@ }),
            reaches_all(out.to@, final(self)@.members),
    {
        let event = S2C::Play { yt_link: msg.link.clone() };
        assert(views_of(self.queue@.push(msg.link)) =~= views_of(self.queue@).push(msg.link@));
        self.queue.push_back(msg.link);
        self.broadcast(event)
    }

    /// The announcement of a skip to every current member.
    fn notify_skip<'a>(&'a self) -> (out: Broadcast<'a, R>)
        requires
            self.wf(),
        ensures
            out.event@ == S2CView::Skip,
            reaches_all(out.to@, self@.members),
    {
        self.broadcast(S2C::Skip)
    }

    /// Announces a skip to every member. Nothing changes: the hub is only
    /// read.
    pub fn skip<'a>(&'a self, _msg: Skip) -> (out: Broadcast<'a, R>)
        requires
            self.wf(),
        ensures
            out.event@ == S2CView::Skip,
            reaches_all(out.to@, self@.members),
    {
        self.notify_skip()
    }

    /// Where in the ready list `id` stands, if it has reported ready.
    fn ready_position(&self, id: &String) -> (out: Option<usize>)
        ensures
            match out {
                Some(i) => i < self.ready2_clients@.len() && self.ready2_clients@[i as int]@ == id@,
                None => !views_of(self.ready2_clients@).contains(id@),
            },
    {
        let mut i: usize = 0;
        while i < self.ready2_clients.len()
            invariant
                i <= self.ready2_clients@.len(),
                forall|j: int| 0 <= j < i ==> self.ready2_clients@[j]@ != id@,
            decreases self.ready2_clients@.len() - i,
        {
            if self.ready2_clients[i] == *id {
                return Some(i);
            }
            i += 1;
        }
        proof {
            assert forall|j: int| 0 <= j < self.ready2_clients@.len() implies views_of(
                self.ready2_clients@,
            )[j] != id@ by {}
        }
        None
    }

    /// Records that `msg.id` is ready for the synchronized start. A second
    /// report in the same round changes nothing. The id is not held against
    /// the membership.
    pub fn ready2(&mut self, msg: Ready2)
        requires
            old(self).wf(),
        ensures
            final(self).wf(),
            final(self)@ == old(self)@.mark_ready(msg.id@),
    {
        let ghost before = views_of(self.ready2_clients@);
        match self.ready_position(&msg.id) {
            Some(i) => {
                proof {
                    assert(before[i as int] == msg.id@);
                    assert(before.to_set().insert(msg.id@) =~= before.to_set());
                }
            },
            None => {
                proof {
                    assert(views_of(self.ready2_clients@.push(msg.id)) =~= before.push(msg.id@));
                    before.lemma_push_to_set_commute(msg.id@);
                }
                self.ready2_clients.push(msg.id);
            },
        }
    }

    /// The barrier. If at least one link waits and as many ids have reported
    /// ready as there are members, the head of the queue is consumed, a
    /// start is announced to every member and the ready set is emptied.
    /// Otherwise nothing happens.
    pub fn poll<'a>(&'a mut self, _msg: Poll) -> (out: Option<Broadcast<'a, R>>)
        requires
            old(self).wf(),
        ensures
            final(self).wf(),
            old(self)@.barrier_open() ==> final(self)@ == old(self)@.release(),
            !old(self)@.barrier_open() ==> final(self)@ == old(self)@,
            out is Some <==> old(self)@.barrier_open(),
            out matches Some(b) ==> {
                &&& b.event@ == S2CView::Start
                &&& reaches_all(b.to@, final(self)@.members)
                &&& final(self)@.members == old(self)@.members
                &&& final(self)@.ready.len() == 0
                &&& final(self)@.queue.len() == old(self)@.queue.len() - 1
            },
    {
        proof {
            lemma_members_size(self.active_broadcasts@);
            views_of(self.ready2_clients@).unique_seq_to_set();
        }
        if self.queue.len() > 0 && self.active_broadcasts.len() == self.ready2_clients.len() {
            assert(views_of(self.queue@.subrange(1, self.queue@.len() as int)) =~= views_of(
                self.queue@,
            ).drop_first());
            let _ = self.queue.pop_front();
            self.ready2_clients.clear();
            assert(views_of(self.ready2_clients@).to_set() =~= Set::<Seq<char>>::empty());
            Some(self.broadcast(S2C::Start))
        } else {
            None
        }
    }

    /// Takes one command: the state moves as [`Hub::step`] says, and the
    /// broadcast that [`Hub::announces`] gives for it comes back.
    pub fn handle<'a>(&'a mut self, cmd: Command<R>) -> (out: Option<Broadcast<'a, R>>)
        requires
            old(self).wf(),
        ensures
            final(self).wf(),
            final(self)@ == old(self)@.step(cmd@),
            match old(self)@.announces(cmd@) {
                Some(a) => out matches Some(b) && b.event@ == a.event && reaches_all(
                    b.to@,
                    a.audience,
                ),
                None => out is None,
            },
    {
        match cmd {
            Command::Connect(c) => Some(self.connect(c)),
            Command::Disconnect(d) => Some(self.disconnect(d)),
            Command::Play(p) => Some(self.play(p)),
            Command::Skip(s) => Some(self.skip(s)),
            Command::Ready2(r) => {
                self.ready2(r);
                None
            },
            Command::Poll(p) => self.poll(p),
        }
    }

    /// How many members are connected.
    pub fn member_count(&self) -> (out: usize)
        requires
            self.wf(),
        ensures
            out == self@.members.dom().len(),
    {
        proof {
            lemma_members_size(self.active_broadcasts@);
        }
        self.active_broadcasts.len()
    }

    /// How many ids have reported ready in this round.
    pub fn ready_count(&self) -> (out: usize)
        requires
            self.wf(),
        ensures
            out == self@.ready.len(),
    {
        proof {
            views_of(self.ready2_clients@).unique_seq_to_set();
        }
        self.ready2_clients.len()
    }

    /// Whether `id` is a member.
    pub fn is_member(&self, id: &String) -> (out: bool)
        ensures
            out == self@.members.dom().contains(id@),
    {
        let found = self.position(id);
        proof {
            if let Some(i) = found {
                assert(ids_of(self.active_broadcasts@)[i as int] == id@);
            }
        }
        found.is_some()
    }

    /// Whether `id` has reported ready in this round.
    pub fn is_ready(&self, id: &String) -> (out: bool)
        ensures
            out == self@.ready.contains(id@),
    {
        let found = self.ready_position(id);
        proof {
            if let Some(i) = found {
                assert(views_of(self.ready2_clients@)[i as int] == id@);
            }
        }
        found.is_some()
    }

    /// The capability held for the member `id`, if it is one.
    pub fn outbound_of(&self, id: &String) -> (out: Option<&R>)
        requires
            self.wf(),
        ensures
            match out {
                Some(r) => self@.members.contains_pair(id@, *r),
                None => !self@.members.dom().contains(id@),
            },
    {
        match self.position(id) {
            Some(i) => {
                proof {
                    lemma_lookup(self.active_broadcasts@, i as int);
                }
                Some(&self.active_broadcasts[i].outbound)
            },
            None => None,
        }
    }

    /// The links that wait, oldest first.
    pub fn queue(&self) -> (out: &VecDeque<String>)
        ensures
            out@.map_values(|s: String| s@) == self@.queue,
    {
        &self.queue
    }
}

impl<R> Default for DTPServer<R> {
    fn default() -> (out: Self)
        ensures
            out.wf(),
            out@ == Hub::<R>::empty(),
    {
        DTPServer::new()
    }
}

} // verus!
