use vstd::prelude::*;

verus! {

/// Whether a node is alive.
#[derive(Clone, Copy, Debug, PartialEq, Eq, Structural)]
pub enum LivenessState {
    Unknown,
    Alive,
    Dead,
}

/// Whether a node is ready to serve.
#[derive(Clone, Copy, Debug, PartialEq, Eq, Structural)]
pub enum ReadinessState {
    Unknown,
    Ready,
    NotReady,
}

/// Answers health checks: a node that answers at all is alive and ready.
#[derive(Debug)]
pub struct HealthCheckService {}

impl HealthCheckService {
    /// A health check service.
    pub fn new() -> (service: HealthCheckService)
        ensures
            service == (HealthCheckService {}),
    {
        HealthCheckService {}
    }

    /// The answer to a liveness check.
    pub fn liveness(&self) -> (state: LivenessState)
        ensures
            state == LivenessState::Alive,
    {
        LivenessState::Alive
    }

    /// The answer to a readiness check.
    pub fn readiness(&self) -> (state: ReadinessState)
        ensures
            state == ReadinessState::Ready,
    {
        ReadinessState::Ready
    }
}

impl Default for HealthCheckService {
    fn default() -> (service: HealthCheckService)
        ensures
            service == (HealthCheckService {}),
    {
        HealthCheckService::new()
    }
}

} // verus!
