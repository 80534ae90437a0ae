//! Decision core of a BitTorrent daemon: queueing, containment, seeding,
//! storage and diagnostics rules as verified state transitions.
pub mod admission;
pub mod autopilot;
pub mod binary64;
pub mod clock;
pub mod config;
pub mod containment;
pub mod copies;
pub mod debounce;
pub mod doctor;
pub mod effects;
pub mod engine;
pub mod error;
pub mod fleet;
pub mod gate;
pub mod hash;
pub mod health;
pub mod identity;
pub mod index;
pub mod inspection;
pub mod launch;
pub mod layout;
pub mod listing;
pub mod livework;
pub mod network;
pub mod ops;
pub mod order;
pub mod ownership;
pub mod paths;
pub mod permits;
pub mod probe;
pub mod progress;
pub mod queue;
pub mod rates;
pub mod reconcile;
pub mod reconfigure;
pub mod relocation;
pub mod removal;
pub mod rename;
pub mod reset;
pub mod restore;
pub mod roots;
pub mod runtime;
pub mod scheduler;
pub mod seeders;
pub mod seeding;
pub mod settings;
pub mod start;
pub mod stats;
pub mod text;
pub mod torrent;
pub mod trackers;
pub mod transaction;
pub mod uploads;
pub mod watch;
