//! Keeps the access to text channels in step with who is in the voice
//! channels they are linked to.
//!
//! A guild links voice channels to text channels, room by room (`registry`).
//! When a member's voice state changes (`filter`, `events`), the rooms that
//! the change touches are synchronised (`sync`): the permission overwrites of
//! the text channel are read as explicit per-user entries (`access`), compared
//! with the members present (`reconcile`), and the resulting grants and
//! revokes are carried out one by one (`actuator`). `convergence` proves that
//! a pass leaves nothing for the next one to do. `commands` holds the
//! decisions behind the commands that link and unlink rooms, `messages` the
//! texts that answer them.
pub mod access;
pub mod actuator;
pub mod commands;
pub mod convergence;
pub mod events;
pub mod filter;
pub mod messages;
pub mod reconcile;
pub mod registry;
pub mod sync;
