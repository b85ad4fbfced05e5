/// Operations that may fail, each with the failure made explicit or excluded by contract.
pub mod fallible;
/// The request processor and its three failure-handling policies.
pub mod service;
/// Driving a request stream through a policy, and the laws its reports obey.
pub mod simulation;
