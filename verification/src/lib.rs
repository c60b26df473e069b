//! Verified core logic of the Uppe monitoring service.
pub mod admin_trust;
pub mod admission;
pub mod audit;
pub mod audit_events;
pub mod canonical;
pub mod clock;
pub mod config;
pub mod crypto;
pub mod identities;
pub mod json;
pub mod location;
pub mod messages;
pub mod migrations;
pub mod models;
pub mod monitoring;
pub mod net;
pub mod orchestrator;
pub mod outbox;
pub mod p2p;
pub mod peer_storage;
pub mod public_groups;
pub mod private_monitors;
pub mod rate_limit;
pub mod retention;
pub mod signing;
pub mod text;
pub mod topics;
pub mod url;
pub mod validation;
