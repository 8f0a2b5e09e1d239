//! Per-turn context for an agent conversation and the decisions around
//! its sessions, with contracts proved by Verus.
pub mod text;
pub mod moim;
pub mod conversation;
pub mod mode;
pub mod session;
