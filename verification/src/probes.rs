//! The open-directory probe: the fixed list of sensitive paths and the
//! URLs they give under a base. The driver issues the GETs and reports the
//! ones that answer with success.

use vstd::prelude::*;
use vstd::string::StringExecFns;

verus! {

/// The fixed paths probed for open directories.
pub open spec fn probe_paths() -> Seq<Seq<char>> {
    seq!["/backup"@, "/config"@, "/logs"@, "/uploads"@]
}

/// The URLs probed under `base`: the base with each sensitive path behind it.
pub open spec fn spec_probe_urls(base: Seq<char>) -> Seq<Seq<char>> {
    probe_paths().map_values(|p: Seq<char>| base + p)
}

/// Builds the probe URLs for `base_url`, in the fixed order.
pub fn open_directory_probes(base_url: &str) -> (r: Vec<String>)
    ensures
        r.deep_view() == spec_probe_urls(base_url@),
{
    let mut out: Vec<String> = Vec::new();
    let mut u = base_url.to_owned();
    u.append("/backup");
    out.push(u);
    let mut u = base_url.to_owned();
    u.append("/config");
    out.push(u);
    let mut u = base_url.to_owned();
    u.append("/logs");
    out.push(u);
    let mut u = base_url.to_owned();
    u.append("/uploads");
    out.push(u);
    proof {
        assert(out.deep_view() =~= spec_probe_urls(base_url@));
    }
    out
}

} // verus!
