use vstd::prelude::*;

verus! {

/// The operating system the application runs on, as far as the library's decisions
/// depend on it.
#[derive(Debug, Clone, Copy, PartialEq, Eq, Structural)]
pub enum TargetOs {
    Windows,
    MacOs,
    Other,
}

impl TargetOs {
    /// Suffix of executables on this system.
    pub fn exe_suffix(&self) -> (s: &'static str)
        ensures
            s@ == exe_suffix_spec(*self),
    {
        match self {
            TargetOs::Windows => ".exe",
            _ => "",
        }
    }
}

pub open spec fn exe_suffix_spec(os: TargetOs) -> Seq<char> {
    match os {
        TargetOs::Windows => ".exe"@,
        _ => ""@,
    }
}

} // verus!
