//! The local-first logic of a task board: accounts, spaces, boards, and the
//! decisions that keep a device and its account in step.
//!
//! Every function states what it returns over mathematical views of its
//! arguments. Reading clocks, browser storage and the network is left to the
//! program around this library, which hands the values in and performs the
//! actions that come back.
pub mod lists;
pub mod text;
pub mod model;
pub mod workspace;
pub mod identity;
pub mod adoption;
pub mod desk;
pub mod edits;
pub mod persist;
pub mod spaces;
pub mod account;
pub mod metadata;
pub mod drain;
pub mod manifest;
pub mod json;
pub mod records;
pub mod outbox;
pub mod reconcile;
pub mod status;
pub mod storage;
pub mod schedule;
pub mod arrivals;
pub mod tabs;
pub mod siblings;
pub mod ledger;
pub mod pull;
pub mod events;
pub mod calendar;
pub mod opening;
pub mod session;
pub mod projection;
pub mod auth;
pub mod controls;
pub mod frames;
