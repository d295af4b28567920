//! The `/api/health` response.

use vstd::prelude::*;

verus! {

/// What the health endpoint answers: the status `ok`, the application
/// version and the configured knowledge root.
#[derive(Debug)]
pub struct HealthResponse {
    status: &'static str,
    version: &'static str,
    knowledge_root: String,
}

impl HealthResponse {
    /// The status text, as characters.
    pub closed spec fn status_spec(&self) -> Seq<char> {
        self.status@
    }

    /// The version, as characters.
    pub closed spec fn version_spec(&self) -> Seq<char> {
        self.version@
    }

    /// The knowledge root, as characters.
    pub closed spec fn knowledge_root_spec(&self) -> Seq<char> {
        self.knowledge_root@
    }

    /// The status of a running server, which is always `ok`.
    pub open spec fn ok_status() -> Seq<char> {
        seq!['o', 'k']
    }

    /// A healthy response for `version` serving `knowledge_root`.
    pub fn new(version: &'static str, knowledge_root: String) -> (r: Self)
        ensures
            r.status_spec() == Self::ok_status(),
            r.version_spec() == version@,
            r.knowledge_root_spec() == knowledge_root@,
    {
        let status = "ok";
        proof {
            reveal_strlit("ok");
        }
        HealthResponse { status, version, knowledge_root }
    }

    /// The status text.
    pub fn status(&self) -> (s: &'static str)
        ensures
            s@ == self.status_spec(),
    {
        self.status
    }

    /// The application version.
    pub fn version(&self) -> (s: &'static str)
        ensures
            s@ == self.version_spec(),
    {
        self.version
    }

    /// The configured knowledge root.
    pub fn knowledge_root(&self) -> (s: &String)
        ensures
            s@ == self.knowledge_root_spec(),
    {
        &self.knowledge_root
    }
}

} // verus!
