//! Coordination of a group of viewers who watch shared media in lockstep.
//!
//! Members submit links to a shared queue, and playback starts for everyone
//! at the same moment. [`server::DTPServer`] is the hub that owns membership,
//! readiness and the queue; [`session::DTPSession`] supervises one member's
//! connection; [`packets`] is what they say to each other, and [`hub`] the
//! mathematical model that the hub is proved against.

pub mod hub;
pub mod packets;
pub mod server;
pub mod session;
