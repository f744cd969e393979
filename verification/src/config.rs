//! Process-environment constants and the document-store paths.
//!
//! One fixed TCP port reaches the backend service in every operation,
//! and one well-known state directory holds the roadmap document. The
//! file I/O itself lives outside the library; this module computes the
//! paths and the default document.

use vstd::prelude::*;
use crate::ascii::{ascii_seq, lit, push_all};

verus! {

/// The well-known TCP port the backend service listens on.
pub const SERVICE_PORT: u16 = 51466;

/// The application-managed state directory: the backend's working
/// directory and the roadmap document's home.
pub const APP_DATA_DIR: &'static str =
    "/Users/SparkingAries/Library/Application Support/roadmap-manager";

/// The bytes of the state directory path.
pub open spec fn app_data_dir_spec() -> Seq<u8> {
    ascii_seq(APP_DATA_DIR@)
}

/// The state directory path as bytes.
pub fn app_data_dir_bytes() -> (v: Vec<u8>)
    ensures
        v@ == app_data_dir_spec(),
{
    proof {
        reveal_strlit("/Users/SparkingAries/Library/Application Support/roadmap-manager");
    }
    lit(APP_DATA_DIR)
}

/// The path of the roadmap document: the state directory plus
/// `/roadmap.md`.
pub open spec fn roadmap_path_spec() -> Seq<u8> {
    app_data_dir_spec() + ascii_seq("/roadmap.md"@)
}

/// The roadmap document's well-known path.
pub fn get_roadmap_path() -> (v: Vec<u8>)
    ensures
        v@ == roadmap_path_spec(),
{
    proof {
        reveal_strlit("/roadmap.md");
    }
    let mut v = app_data_dir_bytes();
    let tail = lit("/roadmap.md");
    push_all(&mut v, &tail);
    v
}

/// The skeleton the document store hands out when no roadmap file
/// exists yet.
pub open spec fn default_roadmap_spec() -> Seq<u8> {
    ascii_seq("# Roadmap\n\n"@)
}

/// The roadmap text to hand the caller: the stored text when the store
/// has one, else the default skeleton.
pub fn roadmap_or_default(stored: Option<Vec<u8>>) -> (v: Vec<u8>)
    ensures
        v@ == match stored {
            Some(text) => text@,
            None => default_roadmap_spec(),
        },
{
    match stored {
        Some(text) => text,
        None => {
            proof {
                reveal_strlit("# Roadmap\n\n");
            }
            lit("# Roadmap\n\n")
        },
    }
}

} // verus!
