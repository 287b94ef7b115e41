//! Flows, mailboxes, capabilities and the decisions of the scheduler.

pub mod capability;
pub mod delegate;
pub mod departures;
pub mod directory;
pub mod effects;
pub mod endings;
pub mod error;
pub mod finalize;
pub mod handle;
pub mod laws;
pub mod link;
pub mod living;
pub mod mailbox;
pub mod metrics;
pub mod model;
pub mod monitor;
pub mod moves;
pub mod oneshot;
pub mod order;
pub mod places;
pub mod process;
pub mod quantum;
pub mod queues;
pub mod registry;
pub mod replies;
pub mod requests;
pub mod runtime;
pub mod shared;
pub mod soundness;
pub mod supervisor;
pub mod timer;
pub mod waits;
pub mod worker;
