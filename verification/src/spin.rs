//! Companion-tool configuration decisions: the version string handed to
//! template-source resolution and the binary path the run and install flows
//! need. Reading the environment is the caller's business; the decisions on
//! what was read are made here.

use vstd::prelude::*;

verus! {

use vstd::string::StringExecFns;
use crate::hub_api::Error;

/// The version handed to template-source resolution: the configured value
/// when present, else the fixed default.
pub fn version_or_default(configured: Option<String>) -> (r: String)
    ensures
        (match configured {
            Some(s) => r@ == s@,
            None => r@ == "2.0.0"@,
        }),
{
    match configured {
        Some(s) => s,
        None => String::from_str("2.0.0"),
    }
}

/// The companion binary's path: required configuration, whose absence is a
/// fatal error at the point it is needed.
pub fn bin_path_from(configured: Option<String>) -> (r: Result<String, Error>)
    ensures
        (match configured {
            Some(s) => r matches Ok(p) && p@ == s@,
            None => r matches Err(e) && (e matches Error::MissingConfiguration(m) && m@
                == "SPIN_BIN_PATH"@),
        }),
{
    match configured {
        Some(s) => Ok(s),
        None => Err(Error::MissingConfiguration(String::from_str("SPIN_BIN_PATH"))),
    }
}

} // verus!
