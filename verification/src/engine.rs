//! The decisions of a run. Nothing here performs network operations: each machine names the next
//! operation and is told what came of it.

pub mod observation;
pub mod preparation;
pub mod target;
pub mod target_laws;
pub mod conclusion_laws;
pub mod context_laws;
pub mod dns;
pub mod dns_laws;
pub mod evidence_laws;
pub mod plan_laws;
pub mod resolver;
pub mod resolver_laws;
pub mod run;
pub mod run_laws;
