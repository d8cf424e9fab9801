use vstd::prelude::*;
use vstd::string::*;

verus! {

/// Configuration for issuing version-control commands.
///
/// The repository path is injected once at construction and held as
/// immutable state for the lifetime of a workflow invocation; callers that
/// spawn the external version-control program read it back through
/// [`GitClient::working_directory`].
pub struct GitClient {
    working_directory: String,
}

impl GitClient {
    /// The repository path this client was constructed with.
    pub closed spec fn dir(&self) -> Seq<char> {
        self.working_directory@
    }

    pub fn new(path: &str) -> (client: GitClient)
        ensures
            client.dir() == path@,
    {
        GitClient { working_directory: String::from_str(path) }
    }

    pub fn working_directory(&self) -> (dir: &str)
        ensures
            dir@ == self.dir(),
    {
        self.working_directory.as_str()
    }
}

} // verus!
