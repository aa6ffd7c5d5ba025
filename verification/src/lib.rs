//! Core logic of a chat-platform companion that expands message links into
//! rendered citations.
//!
//! The library covers link detection ([`matcher`]), the time-bounded metadata
//! caches ([`cache`]), citation assembly ([`citation`]) and the per-message
//! expansion policy ([`service`]).  Gateway wiring, remote fetches and reply
//! dispatch are left to the surrounding (unverified) process, which feeds the
//! library plain values and carries out the actions it decides on.

pub mod cache;
pub mod citation;
pub mod fetcher;
pub mod matcher;
pub mod ready;
pub mod service;
