//! A stand-in for a real backend, for demonstrations and tests: it counts the requests it
//! gets, and its health can be switched off and on.

use vstd::prelude::*;

verus! {

/// A mock backend.
#[derive(Debug)]
pub struct MockState {
    pub name: String,
    pub port: u16,
    pub healthy: bool,
    pub request_count: u64,
}

/// The answer to a request for the root path.
#[derive(Debug)]
pub struct RootResponse {
    pub name: String,
    pub port: u16,
    pub request_count: u64,
}

/// The answer to a request that switches the health.
#[derive(Debug)]
pub struct ToggleResponse {
    pub name: String,
    pub healthy: bool,
}

impl MockState {
    /// A healthy mock backend that has had no requests.
    pub fn new(name: String, port: u16) -> (state: Self)
        ensures
            state == (MockState { name, port, healthy: true, request_count: 0 }),
    {
        MockState { name, port, healthy: true, request_count: 0 }
    }

    /// Answers a request for the root path: with the backend's name and port, and the number
    /// of such requests so far, this one included.
    pub fn root(&mut self) -> (response: RootResponse)
        requires
            old(self).request_count < u64::MAX,
        ensures
            *final(self) == (MockState {
                request_count: (old(self).request_count + 1) as u64,
                ..*old(self)
            }),
            response.name@ == old(self).name@,
            response.port == old(self).port,
            response.request_count == old(self).request_count + 1,
    {
        self.request_count = self.request_count + 1;
        RootResponse {
            name: self.name.clone(),
            port: self.port,
            request_count: self.request_count,
        }
    }

    /// The status of the answer to a health check: 200 while healthy, and 503 otherwise.
    pub fn health(&self) -> (status: u16)
        ensures
            status == if self.healthy {
                200u16
            } else {
                503u16
            },
    {
        if self.healthy {
            200
        } else {
            503
        }
    }

    /// Switches the health off or on, and reports the new one.
    pub fn toggle_health(&mut self) -> (response: ToggleResponse)
        ensures
            *final(self) == (MockState { healthy: !old(self).healthy, ..*old(self) }),
            response.name@ == old(self).name@,
            response.healthy == !old(self).healthy,
    {
        self.healthy = !self.healthy;
        ToggleResponse { name: self.name.clone(), healthy: self.healthy }
    }
}

} // verus!
