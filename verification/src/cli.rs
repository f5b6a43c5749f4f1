//! The command line: which config file the session loads.

use vstd::prelude::*;
use vstd::string::*;

verus! {

/// The tool's arguments.
pub struct Args {
    pub config_file: String,
}

impl Default for Args {
    /// Without a flag the config file is `spacetraders.json` beside the
    /// working directory.
    fn default() -> (r: Args)
        ensures
            r.config_file@ == "spacetraders.json"@,
    {
        Args { config_file: String::from_str("spacetraders.json") }
    }
}

} // verus!
