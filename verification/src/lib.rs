//! The main environment of a transactional record cache.
//!
//! The environment keeps four collections in lock-step: a counter that hands
//! out operation ids, a log of every insert and delete, a map from primary
//! key to record metadata, and the set of operation ids whose inserts are
//! still live. It gives every primary key a record id that stays with the
//! key across deletes and inserts, and every record a version that counts
//! the inserts under its key.
//!
//! [`main_environment::MainEnvironment`] holds the collections in memory.
//! Its functions are verified against the environment as a mathematical
//! value, [`state::EnvironmentState`], on which [`history`] proves what holds
//! after any sequence of inserts and deletes. The decisions of an insert and
//! a delete ([`plan`]) and the byte layout of the metadata ([`metadata`]) read
//! nothing but their arguments, so that an environment on another store can
//! share them.

pub mod bytes;
pub mod errors;
pub mod history;
pub mod main_environment;
pub mod metadata;
pub mod operation;
pub mod plan;
pub mod state;
pub mod store;
pub mod types;
