//! Settings of the standalone server derived from its command line.

use vstd::prelude::*;

use crate::text::{decimal, decimal_text};

verus! {

/// Where the standalone server keeps its session database: next to the
/// substrate file, with `.sessions.db` appended to its path.
pub fn session_db_path(substrate: &str) -> (path: String)
    ensures
        path@ == substrate@ + ".sessions.db"@,
{
    String::from_str(substrate).concat(".sessions.db")
}

/// The address the server listens on: `bind:port`.
pub fn listen_address(bind: &str, port: u16) -> (addr: String)
    ensures
        addr@ == bind@ + ":"@ + decimal(port as nat),
{
    String::from_str(bind).concat(":").concat(decimal_text(port as usize).as_str())
}

/// The page served for every path that is neither API nor a static file:
/// `index.html` in the static directory.
pub fn index_file_path(static_dir: &str) -> (path: String)
    ensures
        path@ == static_dir@ + "/index.html"@,
{
    String::from_str(static_dir).concat("/index.html")
}

} // verus!
