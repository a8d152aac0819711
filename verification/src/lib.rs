//! The verified core of a game-server orchestrator: host-port allocation,
//! container planning, and the decisions taken while creating a server.

pub mod allocator;
pub mod container;
pub mod orchestrator;
pub mod ports;
pub mod text;
