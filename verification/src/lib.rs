//! Core of a small WebRTC selective forwarding unit: publishers hand media in
//! over WHIP, subscribers receive it over WHEP, and a worker routes datagrams,
//! media and keyframe requests between the sessions it owns.

pub mod controller;
pub mod io;
pub mod http;
pub mod net;
pub mod remotes;
pub mod stun;
pub mod tasks;
pub mod worker;
