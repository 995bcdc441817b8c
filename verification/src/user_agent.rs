//! The text by which the program names itself to the services it talks to.

use vstd::prelude::*;
use vstd::string::StringExecFns;

verus! {

/// The lowercase form of a text as the standard library gives it.
pub uninterp spec fn lowercased(s: Seq<char>) -> Seq<char>;

/// `str::to_lowercase` returns the lowercase equivalent of the text. The
/// contract only gives that text its name.
pub assume_specification[ str::to_lowercase ](s: &str) -> (r: String)
    ensures
        r@ == lowercased(s@),
;

/// The identifier of a client of kind `client_type`, whose lowercase form is
/// `lowered`, in version `version`, on the system `os` and the processor
/// `arch`: `estrange-<lowered>-<version>/Rust (<os>; <arch>; <client_type>)`.
pub open spec fn agent_text(
    lowered: Seq<char>,
    client_type: Seq<char>,
    version: Seq<char>,
    os: Seq<char>,
    arch: Seq<char>,
) -> Seq<char> {
    "estrange-"@ + lowered + "-"@ + version + "/Rust ("@ + os + "; "@ + arch + "; "@ + client_type
        + ")"@
}

/// Puts the identifier together from its parts.
pub fn compose_user_agent(lowered: &str, client_type: &str, version: &str, os: &str, arch: &str) -> (r:
    String)
    ensures
        r@ == agent_text(lowered@, client_type@, version@, os@, arch@),
{
    let mut r = String::new();
    r.append("estrange-");
    r.append(lowered);
    r.append("-");
    r.append(version);
    r.append("/Rust (");
    r.append(os);
    r.append("; ");
    r.append(arch);
    r.append("; ");
    r.append(client_type);
    r.append(")");
    assert(r@ =~= agent_text(lowered@, client_type@, version@, os@, arch@));
    r
}

/// The identifier of a client of kind `client_type` in version `version`,
/// running on the system `os` and the processor `arch`.
pub fn build_user_agent(client_type: &str, version: &str, os: &str, arch: &str) -> (r: String)
    ensures
        r@ == agent_text(lowercased(client_type@), client_type@, version@, os@, arch@),
{
    let lowered = client_type.to_lowercase();
    compose_user_agent(lowered.as_str(), client_type, version, os, arch)
}

} // verus!
