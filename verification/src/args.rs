use vstd::prelude::*;

verus! {

/// The scan depth used when the command line sets none.
pub const DEFAULT_MAX_DEPTH: usize = 2;

/// Which browser a run maintains. The browser that is not known by name
/// carries the profile path the user supplied, since its profiles cannot
/// be discovered.
#[derive(Debug)]
pub enum BrowserType {
    Firefox,
    Chromium,
    Unknown { profile_path: String },
}

/// A run's parameters as selected on the command line.
#[derive(Debug)]
pub struct Arguments {
    pub browser: BrowserType,
    pub max_depth: usize,
    pub dry_run: bool,
}

impl BrowserType {
    /// The name the registry carries for this browser; the liveness check
    /// matches running processes against it.
    pub fn browser_name(&self) -> (r: &'static str)
        ensures
            match self {
                BrowserType::Firefox => r@ == "Firefox"@,
                BrowserType::Chromium => r@ == "Chromium"@,
                BrowserType::Unknown { .. } => r@ == "Unknown"@,
            },
    {
        match self {
            BrowserType::Firefox => "Firefox",
            BrowserType::Chromium => "Chromium",
            BrowserType::Unknown { .. } => "Unknown",
        }
    }
}

} // verus!
