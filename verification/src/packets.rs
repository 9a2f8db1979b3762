//! The vocabulary spoken between members, their supervisors and the hub.
//!
//! Everything here is data. The two wire enums, [`C2S`] and [`S2C`], have a
//! mathematical view in which every string is a `Seq<char>`; contracts
//! elsewhere in the crate speak of those views.

use vstd::prelude::*;

verus! {

/// What a member may say to the hub.
#[derive(Clone, Debug, PartialEq, Eq)]
pub enum C2S {
    Play { yt_link: String },
    Skip,
    Ready1,
    Ready2,
    Playing,
}

/// The view of a [`C2S`].
pub enum C2SView {
    Play { yt_link: Seq<char> },
    Skip,
    Ready1,
    Ready2,
    Playing,
}

impl View for C2S {
    type V = C2SView;

    open spec fn view(&self) -> C2SView {
        match self {
            C2S::Play { yt_link } => C2SView::Play { yt_link: yt_link@ },
            C2S::Skip => C2SView::Skip,
            C2S::Ready1 => C2SView::Ready1,
            C2S::Ready2 => C2SView::Ready2,
            C2S::Playing => C2SView::Playing,
        }
    }
}

/// What the hub may say to a member.
#[derive(Clone, Debug, PartialEq, Eq)]
pub enum S2C {
    ConnectNotification(ConnectNotification),
    DisconnectNotification(DisconnectNotification),
    Play { yt_link: String },
    Start,
    Skip,
}

/// The view of an [`S2C`].
pub enum S2CView {
    ConnectNotification { id: Seq<char> },
    DisconnectNotification { id: Seq<char> },
    Play { yt_link: Seq<char> },
    Start,
    Skip,
}

impl View for S2C {
    type V = S2CView;

    open spec fn view(&self) -> S2CView {
        match self {
            S2C::ConnectNotification(n) => S2CView::ConnectNotification { id: n.id@ },
            S2C::DisconnectNotification(n) => S2CView::DisconnectNotification { id: n.id@ },
            S2C::Play { yt_link } => S2CView::Play { yt_link: yt_link@ },
            S2C::Start => S2CView::Start,
            S2C::Skip => S2CView::Skip,
        }
    }
}

/// Tells the room that the member `id` has joined.
#[derive(Clone, Debug, PartialEq, Eq)]
pub struct ConnectNotification {
    pub id: String,
}

/// Tells the room that the member `id` has left.
#[derive(Clone, Debug, PartialEq, Eq)]
pub struct DisconnectNotification {
    pub id: String,
}

/// Asks the hub to take in a member.
///
/// `addr` is the capability through which the hub's broadcasts reach the
/// member; the hub stores it and hands it back with every broadcast, and never
/// looks inside.
#[derive(Debug)]
pub struct Connect<R> {
    pub addr: R,
    pub id: String,
    pub notif: ConnectNotification,
}

/// Asks the hub to let a member go.
#[derive(Clone, Debug, PartialEq, Eq)]
pub struct Disconnect {
    pub id: String,
    pub notif: DisconnectNotification,
}

/// Submits a media link to the shared queue.
#[derive(Clone, Debug, PartialEq, Eq)]
pub struct Play {
    pub link: String,
}

/// Asks the hub to tell everyone to skip.
#[derive(Clone, Copy, Debug, PartialEq, Eq)]
pub struct Skip;

/// A member opens a new round for itself; the hub takes no part in it.
#[derive(Clone, Copy, Debug, PartialEq, Eq)]
pub struct Ready1;

/// A member reports itself ready for the synchronized start.
#[derive(Clone, Debug, PartialEq, Eq)]
pub struct Ready2 {
    pub id: String,
}

/// Asks the hub to check the barrier.
#[derive(Clone, Copy, Debug, PartialEq, Eq)]
pub struct Poll;

} // verus!
