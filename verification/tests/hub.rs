//! The hub's operations one by one.

use dtp::hub::Command;
use dtp::packets::{
    Connect, ConnectNotification, Disconnect, DisconnectNotification, Play, Poll, Ready2, Skip,
    S2C,
};
use dtp::server::{Broadcast, DTPServer};

fn s(text: &str) -> String {
    text.to_string()
}

fn connect(id: &str, addr: u32) -> Connect<u32> {
    Connect { addr, id: s(id), notif: ConnectNotification { id: s(id) } }
}

fn disconnect(id: &str) -> Disconnect {
    Disconnect { id: s(id), notif: DisconnectNotification { id: s(id) } }
}

/// The recipients of a broadcast as (id, capability), sorted by id.
fn recipients(broadcast: &Broadcast<'_, u32>) -> Vec<(String, u32)> {
    let mut out: Vec<(String, u32)> =
        broadcast.to.iter().map(|m| (m.id.clone(), m.outbound)).collect();
    out.sort();
    out
}

fn queue_of(hub: &DTPServer<u32>) -> Vec<String> {
    hub.queue().iter().cloned().collect()
}

#[test]
fn new_hub_is_empty() {
    let hub: DTPServer<u32> = DTPServer::new();
    assert_eq!(hub.member_count(), 0);
    assert_eq!(hub.ready_count(), 0);
    assert!(hub.queue().is_empty());
    assert!(!hub.is_member(&s("a")));
    assert!(!hub.is_ready(&s("a")));
    assert_eq!(hub.outbound_of(&s("a")), None);
}

#[test]
fn default_hub_is_empty() {
    let hub: DTPServer<u32> = DTPServer::default();
    assert_eq!(hub.member_count(), 0);
    assert_eq!(hub.ready_count(), 0);
    assert!(hub.queue().is_empty());
}

#[test]
fn connect_announces_to_everyone_including_the_newcomer() {
    let mut hub = DTPServer::new();
    {
        let out = hub.connect(connect("a", 1));
        assert_eq!(out.event, S2C::ConnectNotification(ConnectNotification { id: s("a") }));
        assert_eq!(recipients(&out), vec![(s("a"), 1)]);
    }
    {
        let out = hub.connect(connect("b", 2));
        assert_eq!(out.event, S2C::ConnectNotification(ConnectNotification { id: s("b") }));
        assert_eq!(recipients(&out), vec![(s("a"), 1), (s("b"), 2)]);
    }
    assert_eq!(hub.member_count(), 2);
    assert!(hub.is_member(&s("a")));
    assert!(hub.is_member(&s("b")));
    assert_eq!(hub.outbound_of(&s("a")), Some(&1));
    assert_eq!(hub.outbound_of(&s("b")), Some(&2));
}

#[test]
fn connect_announces_the_notification_it_was_given() {
    let mut hub = DTPServer::new();
    let out = hub.connect(Connect {
        addr: 1u32,
        id: s("a"),
        notif: ConnectNotification { id: s("someone else") },
    });
    assert_eq!(out.event, S2C::ConnectNotification(ConnectNotification { id: s("someone else") }));
    assert_eq!(recipients(&out), vec![(s("a"), 1)]);
}

#[test]
fn connecting_an_id_again_replaces_its_capability() {
    let mut hub = DTPServer::new();
    hub.connect(connect("a", 1));
    hub.connect(connect("b", 2));
    {
        let out = hub.connect(connect("a", 3));
        assert_eq!(recipients(&out), vec![(s("a"), 3), (s("b"), 2)]);
    }
    assert_eq!(hub.member_count(), 2);
    assert_eq!(hub.outbound_of(&s("a")), Some(&3));
    assert_eq!(hub.outbound_of(&s("b")), Some(&2));
}

#[test]
fn disconnect_announces_to_those_who_remain() {
    let mut hub = DTPServer::new();
    hub.connect(connect("a", 1));
    hub.connect(connect("b", 2));
    hub.connect(connect("c", 3));
    {
        let out = hub.disconnect(disconnect("b"));
        assert_eq!(out.event, S2C::DisconnectNotification(DisconnectNotification { id: s("b") }));
        assert_eq!(recipients(&out), vec![(s("a"), 1), (s("c"), 3)]);
    }
    assert_eq!(hub.member_count(), 2);
    assert!(!hub.is_member(&s("b")));
    assert!(hub.is_member(&s("a")));
    assert!(hub.is_member(&s("c")));
    assert_eq!(hub.outbound_of(&s("b")), None);
}

#[test]
fn disconnecting_a_stranger_changes_nothing_but_is_announced() {
    let mut hub = DTPServer::new();
    hub.connect(connect("a", 1));
    {
        let out = hub.disconnect(disconnect("zz"));
        assert_eq!(out.event, S2C::DisconnectNotification(DisconnectNotification { id: s("zz") }));
        assert_eq!(recipients(&out), vec![(s("a"), 1)]);
    }
    assert_eq!(hub.member_count(), 1);
    {
        // A second departure of the same id is as harmless.
        hub.disconnect(disconnect("a"));
        let out = hub.disconnect(disconnect("a"));
        assert!(out.to.is_empty());
    }
    assert_eq!(hub.member_count(), 0);
}

#[test]
fn play_appends_and_announces() {
    let mut hub = DTPServer::new();
    hub.connect(connect("a", 1));
    hub.connect(connect("b", 2));
    {
        let out = hub.play(Play { link: s("u1") });
        assert_eq!(out.event, S2C::Play { yt_link: s("u1") });
        assert_eq!(recipients(&out), vec![(s("a"), 1), (s("b"), 2)]);
    }
    {
        let out = hub.play(Play { link: s("u2") });
        assert_eq!(out.event, S2C::Play { yt_link: s("u2") });
    }
    assert_eq!(queue_of(&hub), vec![s("u1"), s("u2")]);
}

#[test]
fn play_in_an_empty_room_is_queued_and_reaches_no_one() {
    let mut hub: DTPServer<u32> = DTPServer::new();
    {
        let out = hub.play(Play { link: s("u1") });
        assert_eq!(out.event, S2C::Play { yt_link: s("u1") });
        assert!(out.to.is_empty());
    }
    assert_eq!(queue_of(&hub), vec![s("u1")]);
}

#[test]
fn the_same_link_may_wait_twice() {
    let mut hub: DTPServer<u32> = DTPServer::new();
    hub.play(Play { link: s("u1") });
    hub.play(Play { link: s("u1") });
    assert_eq!(queue_of(&hub), vec![s("u1"), s("u1")]);
}

#[test]
fn skip_is_announced_and_touches_nothing() {
    let mut hub = DTPServer::new();
    hub.connect(connect("a", 1));
    hub.connect(connect("b", 2));
    hub.play(Play { link: s("u1") });
    hub.ready2(Ready2 { id: s("a") });
    {
        let out = hub.skip(Skip);
        assert_eq!(out.event, S2C::Skip);
        assert_eq!(recipients(&out), vec![(s("a"), 1), (s("b"), 2)]);
    }
    assert_eq!(queue_of(&hub), vec![s("u1")]);
    assert_eq!(hub.ready_count(), 1);
    assert_eq!(hub.member_count(), 2);
}

#[test]
fn ready2_is_idempotent() {
    let mut hub = DTPServer::new();
    hub.connect(connect("a", 1));
    hub.connect(connect("b", 2));
    hub.ready2(Ready2 { id: s("a") });
    hub.ready2(Ready2 { id: s("a") });
    hub.ready2(Ready2 { id: s("a") });
    assert_eq!(hub.ready_count(), 1);
    assert!(hub.is_ready(&s("a")));
    assert!(!hub.is_ready(&s("b")));
    // Reporting twice does not stand in for the other member.
    hub.play(Play { link: s("u1") });
    assert!(hub.poll(Poll).is_none());
}

#[test]
fn ready2_from_a_stranger_is_recorded() {
    let mut hub = DTPServer::new();
    hub.connect(connect("a", 1));
    hub.ready2(Ready2 { id: s("ghost") });
    assert!(hub.is_ready(&s("ghost")));
    assert!(!hub.is_member(&s("ghost")));
    assert_eq!(hub.ready_count(), 1);
}

#[test]
fn poll_needs_a_waiting_link() {
    let mut hub = DTPServer::new();
    hub.connect(connect("a", 1));
    hub.ready2(Ready2 { id: s("a") });
    assert!(hub.poll(Poll).is_none());
    // Nothing was consumed or forgotten.
    assert_eq!(hub.ready_count(), 1);
    hub.play(Play { link: s("u1") });
    {
        let out = hub.poll(Poll).expect("the barrier is open");
        assert_eq!(out.event, S2C::Start);
        assert_eq!(recipients(&out), vec![(s("a"), 1)]);
    }
    assert_eq!(hub.ready_count(), 0);
    assert!(hub.queue().is_empty());
}

#[test]
fn poll_needs_equal_counts() {
    let mut hub = DTPServer::new();
    hub.connect(connect("a", 1));
    hub.connect(connect("b", 2));
    hub.play(Play { link: s("u1") });
    assert!(hub.poll(Poll).is_none());
    hub.ready2(Ready2 { id: s("a") });
    assert!(hub.poll(Poll).is_none());
    hub.ready2(Ready2 { id: s("b") });
    hub.ready2(Ready2 { id: s("ghost") });
    // Three ready ids, two members: more is not equal either.
    assert!(hub.poll(Poll).is_none());
    assert_eq!(queue_of(&hub), vec![s("u1")]);
    assert_eq!(hub.ready_count(), 3);
}

#[test]
fn poll_in_an_empty_room_consumes_the_head() {
    let mut hub: DTPServer<u32> = DTPServer::new();
    hub.play(Play { link: s("u1") });
    hub.play(Play { link: s("u2") });
    {
        let out = hub.poll(Poll).expect("zero ready ids, zero members");
        assert_eq!(out.event, S2C::Start);
        assert!(out.to.is_empty());
    }
    assert_eq!(queue_of(&hub), vec![s("u2")]);
}

#[test]
fn handle_does_what_the_operations_do() {
    let mut hub = DTPServer::new();
    {
        let out = hub.handle(Command::Connect(connect("a", 1))).expect("announced");
        assert_eq!(out.event, S2C::ConnectNotification(ConnectNotification { id: s("a") }));
        assert_eq!(recipients(&out), vec![(s("a"), 1)]);
    }
    {
        let out = hub.handle(Command::Connect(connect("b", 2))).expect("announced");
        assert_eq!(recipients(&out), vec![(s("a"), 1), (s("b"), 2)]);
    }
    {
        let out = hub.handle(Command::Play(Play { link: s("u1") })).expect("announced");
        assert_eq!(out.event, S2C::Play { yt_link: s("u1") });
    }
    {
        let out = hub.handle(Command::Skip(Skip)).expect("announced");
        assert_eq!(out.event, S2C::Skip);
    }
    assert!(hub.handle(Command::Ready2(Ready2 { id: s("a") })).is_none());
    assert!(hub.handle(Command::Poll(Poll)).is_none());
    assert!(hub.handle(Command::Ready2(Ready2 { id: s("b") })).is_none());
    {
        let out = hub.handle(Command::Poll(Poll)).expect("the barrier is open");
        assert_eq!(out.event, S2C::Start);
        assert_eq!(recipients(&out), vec![(s("a"), 1), (s("b"), 2)]);
    }
    {
        let out = hub.handle(Command::Disconnect(disconnect("a"))).expect("announced");
        assert_eq!(out.event, S2C::DisconnectNotification(DisconnectNotification { id: s("a") }));
        assert_eq!(recipients(&out), vec![(s("b"), 2)]);
    }
    assert_eq!(hub.member_count(), 1);
    assert!(hub.queue().is_empty());
    assert_eq!(hub.ready_count(), 0);
}

#[test]
fn membership_counts_the_ids_that_are_present() {
    // Five registrations and three departures, interleaved; "a" comes back,
    // "c" registers twice, "zz" leaves without having come.
    let mut hub = DTPServer::new();
    hub.connect(connect("a", 1));
    hub.connect(connect("b", 2));
    hub.disconnect(disconnect("a"));
    hub.connect(connect("c", 3));
    hub.disconnect(disconnect("zz"));
    hub.connect(connect("c", 4));
    hub.connect(connect("a", 5));
    hub.disconnect(disconnect("b"));
    assert_eq!(hub.member_count(), 2);
    assert!(hub.is_member(&s("a")));
    assert!(!hub.is_member(&s("b")));
    assert!(hub.is_member(&s("c")));
    assert_eq!(hub.outbound_of(&s("a")), Some(&5));
    assert_eq!(hub.outbound_of(&s("c")), Some(&4));
}

#[test]
fn membership_does_not_depend_on_the_order_of_different_ids() {
    let mut one = DTPServer::new();
    one.connect(connect("a", 1));
    one.connect(connect("b", 2));
    one.disconnect(disconnect("a"));
    one.connect(connect("c", 3));

    let mut other = DTPServer::new();
    other.connect(connect("c", 3));
    other.connect(connect("a", 1));
    other.connect(connect("b", 2));
    other.disconnect(disconnect("a"));

    assert_eq!(one.member_count(), 2);
    assert_eq!(other.member_count(), 2);
    for id in ["a", "b", "c", "d"] {
        assert_eq!(one.is_member(&s(id)), other.is_member(&s(id)));
        assert_eq!(one.outbound_of(&s(id)), other.outbound_of(&s(id)));
    }
}

#[test]
fn plays_are_announced_one_for_one_in_order() {
    let mut hub = DTPServer::new();
    hub.connect(connect("a", 1));
    let mut announced: Vec<String> = Vec::new();
    let commands = vec![
        Command::Play(Play { link: s("u1") }),
        Command::Skip(Skip),
        Command::Play(Play { link: s("u2") }),
        Command::Ready2(Ready2 { id: s("a") }),
        Command::Poll(Poll),
        Command::Play(Play { link: s("u3") }),
        Command::Connect(connect("b", 2)),
        Command::Play(Play { link: s("u1") }),
    ];
    for command in commands {
        if let Some(out) = hub.handle(command) {
            if let S2C::Play { yt_link } = out.event {
                announced.push(yt_link);
            }
        }
    }
    assert_eq!(announced, vec![s("u1"), s("u2"), s("u3"), s("u1")]);
    // One start was announced: the queue is what was submitted without its head.
    assert_eq!(queue_of(&hub), vec![s("u2"), s("u3"), s("u1")]);
}

#[test]
fn ready_ids_stay_members_while_nobody_leaves_ready_or_reports_as_a_stranger() {
    let mut hub = DTPServer::new();
    let ids = ["a", "b", "c", "d"];
    let within = |hub: &DTPServer<u32>| ids.iter().all(|id| !hub.is_ready(&s(id)) || hub.is_member(&s(id)));
    hub.connect(connect("a", 1));
    assert!(within(&hub));
    hub.connect(connect("b", 2));
    hub.ready2(Ready2 { id: s("a") });
    assert!(within(&hub));
    hub.disconnect(disconnect("b"));
    assert!(within(&hub));
    hub.play(Play { link: s("u1") });
    hub.poll(Poll);
    assert!(within(&hub));
    hub.disconnect(disconnect("a"));
    assert!(within(&hub));
    hub.connect(connect("c", 3));
    hub.ready2(Ready2 { id: s("c") });
    hub.skip(Skip);
    assert!(within(&hub));
    // The departure of a ready id is what breaks it.
    hub.disconnect(disconnect("c"));
    assert!(!within(&hub));
}
