//! Folonet: an L4 load balancer and cold-start gateway.
//!
//! The crate holds the packet rewriting fast path, the tables it shares with
//! the control plane, the symmetric TCP connection tracker and the cold-start
//! controller, each with a machine-checked contract.

pub mod order;
pub mod endpoint;
pub mod checksum;
pub mod frame;
pub mod event;
pub mod notification;
pub mod table;
pub mod flows;
pub mod maps;
pub mod datapath;
pub mod guarantees;
pub mod tcp_fsm;
pub mod message;
pub mod state;
pub mod roster;
pub mod parse;
pub mod config;
pub mod service;
pub mod engine;
pub mod coldstart;
pub mod queue;
