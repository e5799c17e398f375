//! Platform detection: the OS/arch tag that selects the right
//! download URL from a catalog entry's URL template.
//!
//! The kernel name comes from the `sys_info` crate and depends on the
//! machine, so nothing is assumed of it; turning a name into a tag,
//! and a template plus a tag into a URL, is verified.

use vstd::prelude::*;
use vstd::string::StringExecFns;

use crate::dispatch::text;
use crate::registry::string_eq;

verus! {

/// Declares `sys_info`'s error type so its results can cross into
/// verified code.
#[verifier::external_type_specification]
#[verifier::external_body]
pub struct ExSysInfoError(sys_info::Error);

/// Relies on sys_info::os_type: the running kernel's name, such as
/// "Linux", "Darwin" or "Windows". The value depends on the machine,
/// so nothing is assumed of it.
#[verifier::external_body]
fn os_type_raw() -> (r: Result<String, sys_info::Error>) {
    sys_info::os_type()
}

/// The download tag of a kernel name: the known names map to their
/// tag, anything else to the generic tag.
pub open spec fn spec_platform_tag(os: Seq<char>) -> Seq<char> {
    if os == "Linux"@ {
        "linux"@
    } else if os == "Darwin"@ {
        "darwin"@
    } else if os == "Windows"@ {
        "windows"@
    } else {
        "generic"@
    }
}

/// Whether `t` is one of the tags `spec_platform_tag` can produce.
pub open spec fn is_platform_tag(t: Seq<char>) -> bool {
    t == "linux"@ || t == "darwin"@ || t == "windows"@ || t == "generic"@
}

/// Maps a kernel name to its download tag.
pub fn platform_tag_of(os: &String) -> (r: String)
    ensures
        r@ == spec_platform_tag(os@),
{
    if string_eq(os, &text("Linux")) {
        text("linux")
    } else if string_eq(os, &text("Darwin")) {
        text("darwin")
    } else if string_eq(os, &text("Windows")) {
        text("windows")
    } else {
        text("generic")
    }
}

/// The tag of the machine this process runs on. Whatever the OS probe
/// reports, and also when it fails, the result is a valid tag.
pub fn current_platform_tag() -> (r: String)
    ensures
        is_platform_tag(r@),
{
    match os_type_raw() {
        Ok(os) => platform_tag_of(&os),
        Err(_) => text("generic"),
    }
}

/// The download URL for a catalog entry on a platform: the entry's
/// URL template with the platform tag appended.
pub fn download_url(template: &String, tag: &String) -> (r: String)
    ensures
        r@ == template@ + tag@,
{
    template.clone().concat(tag.as_str())
}

} // verus!
