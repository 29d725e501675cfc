//! How the service is set up.
use vstd::prelude::*;

verus! {

/// Where a channel of the service lives.
#[derive(Clone, Debug, PartialEq, Eq)]
pub enum FileOptions {
    /// A file at this path.
    File(String),
}

/// Options for the service.
#[derive(Clone, Debug, PartialEq, Eq)]
pub struct ServiceOptions {
    /// Whether the outbound target is removed when the service is torn down.
    pub cleanup: bool,
    /// The outbound target.
    pub output: FileOptions,
}

impl FileOptions {
    /// The path of the target.
    pub open spec fn path(&self) -> Seq<char> {
        match *self {
            FileOptions::File(path) => path@,
        }
    }
}

impl ServiceOptions {
    /// The same options, with the outbound target removed at teardown.
    pub fn with_cleanup(self) -> (r: ServiceOptions)
        ensures
            r.cleanup,
            r.output == self.output,
    {
        ServiceOptions { cleanup: true, output: self.output }
    }

    /// The options for a target platform: inside the sandbox the outbound
    /// target is `/output.bin`, elsewhere `./output.bin`; it is kept at
    /// teardown.
    pub fn for_target(sandboxed: bool) -> (r: ServiceOptions)
        ensures
            !r.cleanup,
            r.output.path() == if sandboxed {
                "/output.bin"@
            } else {
                "./output.bin"@
            },
    {
        let path = if sandboxed {
            "/output.bin".to_owned()
        } else {
            "./output.bin".to_owned()
        };
        ServiceOptions { cleanup: false, output: FileOptions::File(path) }
    }
}

impl Default for ServiceOptions {
    /// The options outside the sandbox: `./output.bin`, kept at teardown.
    fn default() -> (r: ServiceOptions)
        ensures
            !r.cleanup,
            r.output.path() == "./output.bin"@,
    {
        ServiceOptions::for_target(false)
    }
}

} // verus!
