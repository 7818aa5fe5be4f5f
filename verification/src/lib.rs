//! A presence model for a collaborative editing session: who is in the
//! session, what each participant is doing, and who follows whom.

pub mod follows;
pub mod laws;
pub mod model;
pub mod projector;
pub mod roster;
pub mod seq_facts;
pub mod session;
pub mod titlebar;
