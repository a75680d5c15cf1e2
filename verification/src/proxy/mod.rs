//! The decisions of the relay: what becomes of a request on its way to an upstream
//! server, and of the answer on its way back.

pub mod admission;
pub mod billing;
pub mod body;
pub mod body_laws;
pub mod body_step_laws;
pub mod decision_laws;
pub mod headers;
pub mod journey;
pub mod limits;
pub mod hours;
pub mod policy_laws;
pub mod refusal;
pub mod request;
pub mod request_laws;
pub mod rows;
pub mod seam;
pub mod seam_laws;
pub mod server_laws;
pub mod servers;
pub mod side;
pub mod waterfall;
pub mod config;
pub mod failover;
pub mod failover_laws;
pub mod failover_step_laws;
