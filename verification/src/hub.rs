//! The mathematical model of the coordination hub.
//!
//! A [`Hub`] is the shared state of one room: who is connected, who has
//! reported ready for the current round, and which links wait to be played.
//! The hub takes one [`CommandView`] at a time; [`Hub::step`] gives the state
//! after it and [`Hub::announces`] the broadcast it causes, if any. The
//! executable hub in [`crate::server`] is proved against these functions.

use vstd::prelude::*;
use crate::packets::{Connect, Disconnect, Play, Poll, Ready2, S2CView, Skip};

verus! {

/// The state of the room.
pub struct Hub<R> {
    /// The connected members: id to outbound capability.
    pub members: Map<Seq<char>, R>,
    /// The ids that have reported ready since the last start.
    pub ready: Set<Seq<char>>,
    /// The links that wait for their synchronized start, oldest first.
    pub queue: Seq<Seq<char>>,
}

/// A broadcast: one event, and the membership it goes out to.
pub struct Announcement<R> {
    pub event: S2CView,
    pub audience: Map<Seq<char>, R>,
}

/// A request to the hub.
pub enum Command<R> {
    Connect(Connect<R>),
    Disconnect(Disconnect),
    Play(Play),
    Skip(Skip),
    Ready2(Ready2),
    Poll(Poll),
}

/// The view of a [`Command`].
pub enum CommandView<R> {
    Connect { id: Seq<char>, addr: R, notif: Seq<char> },
    Disconnect { id: Seq<char>, notif: Seq<char> },
    Play { link: Seq<char> },
    Skip,
    Ready2 { id: Seq<char> },
    Poll,
}

impl<R> View for Command<R> {
    type V = CommandView<R>;

    open spec fn view(&self) -> CommandView<R> {
        match self {
            Command::Connect(c) => CommandView::Connect {
                id: c.id@,
                addr: c.addr,
                notif: c.notif.id@,
            },
            Command::Disconnect(d) => CommandView::Disconnect { id: d.id@, notif: d.notif.id@ },
            Command::Play(p) => CommandView::Play { link: p.link@ },
            Command::Skip(_) => CommandView::Skip,
            Command::Ready2(r) => CommandView::Ready2 { id: r.id@ },
            Command::Poll(_) => CommandView::Poll,
        }
    }
}

impl<R> Hub<R> {
    /// The room before anyone has connected.
    pub open spec fn empty() -> Self {
        Hub { members: Map::empty(), ready: Set::empty(), queue: Seq::empty() }
    }

    /// Both collections of ids are finite, so that their sizes mean something.
    pub open spec fn wf(self) -> bool {
        self.members.dom().finite() && self.ready.finite()
    }

    /// `id` joins with the capability `addr`; an earlier entry under the same
    /// id is overwritten.
    pub open spec fn register(self, id: Seq<char>, addr: R) -> Self {
        Hub { members: self.members.insert(id, addr), ..self }
    }

    /// `id` leaves. The ready set is left as it is.
    pub open spec fn unregister(self, id: Seq<char>) -> Self {
        Hub { members: self.members.remove(id), ..self }
    }

    /// `link` is appended to the queue.
    pub open spec fn enqueue(self, link: Seq<char>) -> Self {
        Hub { queue: self.queue.push(link), ..self }
    }

    /// `id` reports ready.
    pub open spec fn mark_ready(self, id: Seq<char>) -> Self {
        Hub { ready: self.ready.insert(id), ..self }
    }

    /// The barrier: something waits to be played, and as many ids have
    /// reported ready as there are members.
    pub open spec fn barrier_open(self) -> bool {
        self.queue.len() > 0 && self.ready.len() == self.members.dom().len()
    }

    /// The state after a synchronized start: the head of the queue is gone
    /// and a new round begins with nobody ready.
    pub open spec fn release(self) -> Self {
        Hub { ready: Set::empty(), queue: self.queue.drop_first(), ..self }
    }

    /// The state after `cmd`.
    pub open spec fn step(self, cmd: CommandView<R>) -> Self {
        match cmd {
            CommandView::Connect { id, addr, .. } => self.register(id, addr),
            CommandView::Disconnect { id, .. } => self.unregister(id),
            CommandView::Play { link } => self.enqueue(link),
            CommandView::Skip => self,
            CommandView::Ready2 { id } => self.mark_ready(id),
            CommandView::Poll => if self.barrier_open() {
                self.release()
            } else {
                self
            },
        }
    }

    /// The event that `cmd` has the hub broadcast, if it causes one. It goes
    /// out to the members of the state after the command.
    pub open spec fn event_of(self, cmd: CommandView<R>) -> Option<S2CView> {
        match cmd {
            CommandView::Connect { notif, .. } => Some(S2CView::ConnectNotification { id: notif }),
            CommandView::Disconnect { notif, .. } => Some(
                S2CView::DisconnectNotification { id: notif },
            ),
            CommandView::Play { link } => Some(S2CView::Play { yt_link: link }),
            CommandView::Skip => Some(S2CView::Skip),
            CommandView::Ready2 { .. } => None,
            CommandView::Poll => if self.barrier_open() {
                Some(S2CView::Start)
            } else {
                None
            },
        }
    }

    /// The broadcast that `cmd` causes, if any.
    pub open spec fn announces(self, cmd: CommandView<R>) -> Option<Announcement<R>> {
        match self.event_of(cmd) {
            Some(event) => Some(Announcement { event, audience: self.step(cmd).members }),
            None => None,
        }
    }

    /// The state after the commands `cmds`, taken in order.
    pub open spec fn run(self, cmds: Seq<CommandView<R>>) -> Self
        decreases cmds.len(),
    {
        if cmds.len() == 0 {
            self
        } else {
            self.run(cmds.drop_last()).step(cmds.last())
        }
    }

    /// What the hub broadcasts while it takes the commands `cmds`: entry `i`
    /// is what command `i` caused.
    pub open spec fn trace(self, cmds: Seq<CommandView<R>>) -> Seq<Option<Announcement<R>>> {
        Seq::new(cmds.len(), |i: int| self.run(cmds.take(i)).announces(cmds[i]))
    }

    /// Every id that has reported ready is a member.
    pub open spec fn ready_within_members(self) -> bool {
        self.ready.subset_of(self.members.dom())
    }

    /// `cmd` is neither the departure of an id that has reported ready nor a
    /// ready report from an id that is no member.
    pub open spec fn keeps_ready_within_members(self, cmd: CommandView<R>) -> bool {
        match cmd {
            CommandView::Disconnect { id, .. } => !self.ready.contains(id),
            CommandView::Ready2 { id } => self.members.dom().contains(id),
            _ => true,
        }
    }
}

impl<R> CommandView<R> {
    /// The command takes `id` into the membership.
    pub open spec fn joins(self, id: Seq<char>) -> bool {
        self matches CommandView::Connect { id: who, .. } && who == id
    }

    /// The command takes `id` out of the membership.
    pub open spec fn leaves(self, id: Seq<char>) -> bool {
        self matches CommandView::Disconnect { id: who, .. } && who == id
    }

    /// The id whose membership the command decides, if it decides one.
    pub open spec fn subject(self) -> Option<Seq<char>> {
        match self {
            CommandView::Connect { id, .. } => Some(id),
            CommandView::Disconnect { id, .. } => Some(id),
            _ => None,
        }
    }
}

/// Command `i` of `cmds` takes `id` in, and no later one takes it out.
pub open spec fn joined_at<R>(cmds: Seq<CommandView<R>>, i: int, id: Seq<char>) -> bool {
    &&& 0 <= i < cmds.len()
    &&& cmds[i].joins(id)
    &&& forall|j: int| i < j < cmds.len() ==> !(#[trigger] cmds[j]).leaves(id)
}

/// The ids that are present after `cmds`: those that some command took in and
/// no later command took out.
pub open spec fn present<R>(cmds: Seq<CommandView<R>>) -> Set<Seq<char>> {
    Set::new(|id: Seq<char>| exists|i: int| joined_at(cmds, i, id))
}

/// The links that `cmds` submit, in order.
pub open spec fn links<R>(cmds: Seq<CommandView<R>>) -> Seq<Seq<char>>
    decreases cmds.len(),
{
    if cmds.len() == 0 {
        Seq::empty()
    } else {
        match cmds.last() {
            CommandView::Play { link } => links(cmds.drop_last()).push(link),
            _ => links(cmds.drop_last()),
        }
    }
}

/// The links that the broadcasts of `trace` announce as submitted, in order.
pub open spec fn announced_links<R>(trace: Seq<Option<Announcement<R>>>) -> Seq<Seq<char>>
    decreases trace.len(),
{
    if trace.len() == 0 {
        Seq::empty()
    } else {
        match trace.last() {
            Some(Announcement { event: S2CView::Play { yt_link }, .. }) => announced_links(
                trace.drop_last(),
            ).push(yt_link),
            _ => announced_links(trace.drop_last()),
        }
    }
}

/// How many synchronized starts `trace` holds.
pub open spec fn starts<R>(trace: Seq<Option<Announcement<R>>>) -> nat
    decreases trace.len(),
{
    if trace.len() == 0 {
        0
    } else {
        match trace.last() {
            Some(Announcement { event: S2CView::Start, .. }) => starts(trace.drop_last()) + 1,
            _ => starts(trace.drop_last()),
        }
    }
}

/// Finiteness of the membership and of the ready set survives every command.
pub proof fn lemma_step_wf<R>(s: Hub<R>, cmd: CommandView<R>)
    requires
        s.wf(),
    ensures
        s.step(cmd).wf(),
{
}

/// Finiteness of the membership and of the ready set survives every run.
pub proof fn lemma_run_wf<R>(s: Hub<R>, cmds: Seq<CommandView<R>>)
    requires
        s.wf(),
    ensures
        s.run(cmds).wf(),
    decreases cmds.len(),
{
    if cmds.len() > 0 {
        lemma_run_wf(s, cmds.drop_last());
        lemma_step_wf(s.run(cmds.drop_last()), cmds.last());
    }
}

/// If every ready id is a member, it is still so after any command other
/// than the departure of a ready id and a ready report from a stranger.
pub proof fn lemma_ready_within_members<R>(s: Hub<R>, cmd: CommandView<R>)
    requires
        s.ready_within_members(),
        s.keeps_ready_within_members(cmd),
    ensures
        s.step(cmd).ready_within_members(),
{
}

/// The two commands that are left out above do take a ready id out of the
/// membership: the departure of a ready id, and a ready report from a
/// stranger.
pub proof fn lemma_ready_escapes_members<R>(s: Hub<R>, cmd: CommandView<R>)
    requires
        s.ready_within_members(),
        !s.keeps_ready_within_members(cmd),
    ensures
        !s.step(cmd).ready_within_members(),
{
    let id = match cmd {
        CommandView::Disconnect { id, .. } => id,
        CommandView::Ready2 { id } => id,
        _ => arbitrary(),
    };
    assert(s.step(cmd).ready.contains(id));
    assert(!s.step(cmd).members.dom().contains(id));
}

/// While every ready id is a member, the barrier counts what it is meant to
/// count: it is open exactly when a link waits and every member has reported
/// ready.
pub proof fn lemma_barrier_waits_for_everyone<R>(s: Hub<R>)
    requires
        s.wf(),
        s.ready_within_members(),
    ensures
        s.barrier_open() <==> s.queue.len() > 0 && s.ready == s.members.dom(),
{
    if s.ready.len() == s.members.dom().len() {
        vstd::set_lib::lemma_subset_equality(s.ready, s.members.dom());
    }
}

/// A start opens a new round: right after it the barrier is shut again
/// unless the room is empty.
pub proof fn lemma_start_opens_a_round<R>(s: Hub<R>)
    requires
        s.wf(),
        s.barrier_open(),
    ensures
        s.release().barrier_open() ==> s.members.dom().len() == 0,
        s.members.dom().len() > 0 ==> s.release().announces(CommandView::Poll) is None,
{
}

/// If every ready id is a member and no command of a run, at the moment it
/// is taken, is the departure of a ready id or a ready report from a
/// stranger, then every ready id is a member after every prefix of the run.
pub proof fn lemma_ready_within_members_always<R>(s: Hub<R>, cmds: Seq<CommandView<R>>, n: int)
    requires
        s.ready_within_members(),
        forall|i: int|
            0 <= i < cmds.len() ==> (#[trigger] s.run(cmds.take(i))).keeps_ready_within_members(
                cmds[i],
            ),
        0 <= n <= cmds.len(),
    ensures
        s.run(cmds.take(n)).ready_within_members(),
    decreases n,
{
    if n > 0 {
        lemma_ready_within_members_always(s, cmds, n - 1);
        assert(cmds.take(n).drop_last() =~= cmds.take(n - 1));
        assert(cmds.take(n).last() == cmds[n - 1]);
        lemma_ready_within_members(s.run(cmds.take(n - 1)), cmds[n - 1]);
    }
}

/// After any run of commands from the empty room, the members are exactly
/// the ids that are present: taken in by some command and not taken out by
/// a later one. The size of the membership is the number of those ids.
pub proof fn lemma_members_are_present<R>(cmds: Seq<CommandView<R>>)
    ensures
        Hub::<R>::empty().run(cmds).members.dom() == present(cmds),
        present(cmds).finite(),
        Hub::<R>::empty().run(cmds).members.dom().len() == present(cmds).len(),
    decreases cmds.len(),
{
    let s = Hub::<R>::empty();
    lemma_run_wf(s, cmds);
    if cmds.len() == 0 {
        assert(s.run(cmds).members.dom() =~= present(cmds));
    } else {
        let init = cmds.drop_last();
        let last = cmds.last();
        let n = init.len() as int;
        lemma_members_are_present(init);
        assert forall|id: Seq<char>| #[trigger]
            present(cmds).contains(id) <==> (last.joins(id) || (present(init).contains(id)
                && !last.leaves(id))) by {
            if present(cmds).contains(id) {
                let i = choose|i: int| joined_at(cmds, i, id);
                if i < n {
                    assert forall|j: int| i < j < init.len() implies !(#[trigger] init[j]).leaves(
                        id,
                    ) by {
                        assert(init[j] == cmds[j]);
                    }
                    assert(init[i] == cmds[i]);
                    assert(joined_at(init, i, id));
                    assert(cmds[n] == last);
                }
            }
            if last.joins(id) {
                assert(joined_at(cmds, n, id));
            }
            if present(init).contains(id) && !last.leaves(id) {
                let i = choose|i: int| joined_at(init, i, id);
                assert(init[i] == cmds[i]);
                assert forall|j: int| i < j < cmds.len() implies !(#[trigger] cmds[j]).leaves(
                    id,
                ) by {
                    if j < n {
                        assert(init[j] == cmds[j]);
                    }
                }
                assert(joined_at(cmds, i, id));
            }
        }
        assert(s.run(cmds).members.dom() =~= present(cmds));
    }
}

/// Two commands that decide the membership of different ids, or of which
/// one decides none, leave the same membership in either order.
pub proof fn lemma_membership_order_independent<R>(
    s: Hub<R>,
    a: CommandView<R>,
    b: CommandView<R>,
)
    requires
        a.subject() is None || b.subject() is None || a.subject() != b.subject(),
    ensures
        s.step(a).step(b).members == s.step(b).step(a).members,
{
    assert(s.step(a).step(b).members =~= s.step(b).step(a).members);
}

/// A run of two lists of commands, one after the other, is the run of the
/// second from where the first one ends.
pub proof fn lemma_run_concat<R>(s: Hub<R>, first: Seq<CommandView<R>>, second: Seq<CommandView<R>>)
    ensures
        s.run(first + second) == s.run(first).run(second),
    decreases second.len(),
{
    if second.len() == 0 {
        assert(first + second =~= first);
    } else {
        lemma_run_concat(s, first, second.drop_last());
        assert((first + second).drop_last() =~= first + second.drop_last());
        assert((first + second).last() == second.last());
    }
}

/// The membership after a run depends on the membership before it and on
/// nothing else of the state.
pub proof fn lemma_membership_follows_membership<R>(
    s: Hub<R>,
    t: Hub<R>,
    cmds: Seq<CommandView<R>>,
)
    requires
        s.members == t.members,
    ensures
        s.run(cmds).members == t.run(cmds).members,
    decreases cmds.len(),
{
    if cmds.len() > 0 {
        lemma_membership_follows_membership(s, t, cmds.drop_last());
    }
}

/// The run of two commands is one step and then the other.
proof fn lemma_run_two<R>(s: Hub<R>, a: CommandView<R>, b: CommandView<R>)
    ensures
        s.run(seq![a, b]) == s.step(a).step(b),
{
    let none = Seq::<CommandView<R>>::empty();
    let one = seq![a];
    let two = seq![a, b];
    assert(s.run(none) == s);
    assert(one.drop_last() =~= none && one.last() == a);
    assert(s.run(one) == s.step(a));
    assert(two.drop_last() =~= one && two.last() == b);
}

/// Within any run, two neighbouring commands that decide the membership of
/// different ids, or of which one decides none, may change places: the
/// membership at the end is the same.
pub proof fn lemma_membership_order_independent_in_run<R>(
    s: Hub<R>,
    before: Seq<CommandView<R>>,
    a: CommandView<R>,
    b: CommandView<R>,
    after: Seq<CommandView<R>>,
)
    requires
        a.subject() is None || b.subject() is None || a.subject() != b.subject(),
    ensures
        s.run(before + seq![a, b] + after).members == s.run(before + seq![b, a] + after).members,
{
    let ab = seq![a, b];
    let ba = seq![b, a];
    lemma_run_concat(s, before + ab, after);
    lemma_run_concat(s, before + ba, after);
    lemma_run_concat(s, before, ab);
    lemma_run_concat(s, before, ba);
    let m = s.run(before);
    lemma_run_two(m, a, b);
    lemma_run_two(m, b, a);
    lemma_membership_order_independent(m, a, b);
    lemma_membership_follows_membership(m.run(ab), m.run(ba), after);
}

/// The barrier check announces a start exactly when the barrier is open.
/// It then leaves nobody ready and the queue shorter by its head; when the
/// barrier is shut it changes nothing.
pub proof fn lemma_poll<R>(s: Hub<R>)
    ensures
        s.announces(CommandView::Poll) is Some <==> s.queue.len() > 0 && s.ready.len()
            == s.members.dom().len(),
        s.announces(CommandView::Poll) matches Some(a) ==> {
            &&& a.event == S2CView::Start
            &&& a.audience == s.members
            &&& s.step(CommandView::Poll).ready == Set::<Seq<char>>::empty()
            &&& s.step(CommandView::Poll).ready.len() == 0
            &&& s.step(CommandView::Poll).queue.len() == s.queue.len() - 1
            &&& s.step(CommandView::Poll).queue == s.queue.drop_first()
        },
        s.announces(CommandView::Poll) is None ==> s.step(CommandView::Poll) == s,
{
}

/// The trace of a run that ends in `cmds.last()` is the trace of what came
/// before, and then what the last command caused.
proof fn lemma_trace_unfold<R>(s: Hub<R>, cmds: Seq<CommandView<R>>)
    requires
        cmds.len() > 0,
    ensures
        s.trace(cmds) == s.trace(cmds.drop_last()).push(
            s.run(cmds.drop_last()).announces(cmds.last()),
        ),
{
    let init = cmds.drop_last();
    assert forall|i: int| 0 <= i < init.len() implies s.trace(cmds)[i] == s.trace(init)[i] by {
        assert(cmds.take(i) =~= init.take(i));
    }
    assert(cmds.take(init.len() as int) =~= init);
    assert(s.trace(cmds) =~= s.trace(init).push(s.run(init).announces(cmds.last())));
}

/// Command `i` of a run submits a link exactly when broadcast `i` of its
/// trace announces one; the broadcast then carries that link and goes to the
/// members of that moment.
pub proof fn lemma_play_announced<R>(s: Hub<R>, cmds: Seq<CommandView<R>>, i: int)
    requires
        0 <= i < cmds.len(),
    ensures
        cmds[i] matches CommandView::Play { link } ==> s.trace(cmds)[i] == Some(
            Announcement {
                event: S2CView::Play { yt_link: link },
                audience: s.run(cmds.take(i)).members,
            },
        ),
        s.trace(cmds)[i] matches Some(a) && a.event is Play ==> cmds[i] is Play,
{
}

/// The links that a run's broadcasts announce are the links that its
/// commands submit, one broadcast for each and in the same order.
pub proof fn lemma_plays_in_order<R>(s: Hub<R>, cmds: Seq<CommandView<R>>)
    ensures
        announced_links(s.trace(cmds)) == links(cmds),
    decreases cmds.len(),
{
    if cmds.len() > 0 {
        lemma_plays_in_order(s, cmds.drop_last());
        lemma_trace_unfold(s, cmds);
        let t = s.trace(cmds.drop_last());
        let a = s.run(cmds.drop_last()).announces(cmds.last());
        assert(t.push(a).drop_last() =~= t);
        assert(t.push(a).last() == a);
    } else {
        assert(s.trace(cmds) =~= Seq::empty());
    }
}

/// The queue is first in, first out: after a run it holds what it held
/// before and then the links submitted, without one head for each start that
/// was announced.
pub proof fn lemma_queue_fifo<R>(s: Hub<R>, cmds: Seq<CommandView<R>>)
    ensures
        starts(s.trace(cmds)) <= (s.queue + links(cmds)).len(),
        s.run(cmds).queue == (s.queue + links(cmds)).skip(starts(s.trace(cmds)) as int),
    decreases cmds.len(),
{
    if cmds.len() > 0 {
        let init = cmds.drop_last();
        lemma_queue_fifo(s, init);
        lemma_trace_unfold(s, cmds);
        let t = s.trace(init);
        let a = s.run(init).announces(cmds.last());
        assert(t.push(a).drop_last() =~= t);
        assert(t.push(a).last() == a);
        let k = starts(t) as int;
        let all = s.queue + links(init);
        match cmds.last() {
            CommandView::Play { link } => {
                assert(s.queue + links(cmds) =~= all.push(link));
                assert(all.push(link).skip(k) =~= all.skip(k).push(link));
            },
            CommandView::Poll => {
                if s.run(init).barrier_open() {
                    assert(all.skip(k).drop_first() =~= all.skip(k + 1));
                }
            },
            _ => {},
        }
    } else {
        assert(s.trace(cmds) =~= Seq::empty());
        assert((s.queue + links(cmds)).skip(0) =~= s.queue);
    }
}

} // verus!
