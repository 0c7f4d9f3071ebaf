//! Resolution of shortcut files to their embedded target paths.

use vstd::prelude::*;

use crate::text::{contains_seq, str_contains};

verus! {

/// Relies on `lnk::ShellLink::open` and `lnk::LinkInfo::local_base_path`:
/// reads the file at `path`, parses it as a shell-link file and returns
/// the embedded local base path when the link carries one; a read or
/// parse failure the parser reports comes back as `None`. What comes back
/// depends on what is on disk, so nothing is assumed of it. The parser
/// aborts on some malformed file contents instead of reporting them (it
/// casts size fields read from the file without checking their range),
/// and no condition on the path can exclude that: a host that must
/// survive arbitrary files contains the abort around the call.
#[verifier::external_body]
fn read_shortcut_target(path: &str) -> Option<String> {
    match lnk::ShellLink::open(path, lnk::encoding::WINDOWS_1252) {
        Ok(link) => match link.link_info() {
            Some(info) => match info.local_base_path() {
                Some(target) => Some(target.to_owned()),
                None => None,
            },
            None => None,
        },
        Err(_) => None,
    }
}

/// The resolved target of one shortcut file: the embedded local base
/// path, or `None` when the file cannot be read or parsed. A path that
/// contains the known-broken vendor substring is rejected before any
/// parsing, because the link parser is known to mishandle that vendor's
/// shortcuts: such a file contributes nothing, whatever it holds.
/// Shortcut corruption is expected and non-fatal, so no parse error is
/// ever propagated; the link parser's own abort on some malformed
/// contents is not contained here (see the wrapper above), so a caller
/// that must survive arbitrary files contains it around the call.
pub fn resolve_lnk_target(path: &str) -> (r: Option<String>)
    ensures
        contains_seq(path@, "Windows PowerShell"@) ==> r is None,
{
    if str_contains(path, "Windows PowerShell") {
        None
    } else {
        read_shortcut_target(path)
    }
}

} // verus!
