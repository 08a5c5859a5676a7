//! The thin identifiers the gateway processes carry around; the
//! gateway's networking and lightning sides are external collaborators
//! and only their configuration shapes appear here.

use vstd::prelude::*;

verus! {

/// Builds gateway clients rooted in a working directory.
#[derive(Clone, Debug, PartialEq, Eq)]
pub struct StandardGatewayClientBuilder {
    pub work_dir: String,
}

impl StandardGatewayClientBuilder {
    /// A builder rooted in the given working directory.
    pub fn new(work_dir: String) -> (r: StandardGatewayClientBuilder)
        ensures
            r.work_dir@ == work_dir@,
    {
        StandardGatewayClientBuilder { work_dir }
    }
}

/// How to reach a lightning node: its address and credentials.
#[derive(Clone, Debug, PartialEq, Eq)]
pub struct GatewayLndClient {
    pub address: String,
    pub tls_cert: String,
    pub macaroon: String,
}

} // verus!
