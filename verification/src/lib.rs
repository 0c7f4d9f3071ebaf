//! Discovery of installed applications.
//!
//! The library builds one normalized record per installed application:
//! a display name, an install root, a resolved executable path and an
//! icon path. Records come from an OS registry of installed software;
//! executable paths are reconciled against a pool of candidate paths
//! gathered from registry app-paths mappings and resolved start-menu
//! shortcuts. The caller performs the registry and filesystem reads and
//! hands the raw values in; everything from there on is verified.

use vstd::prelude::*;

pub mod aggregate;
pub mod apps;
pub mod bundle;
pub mod discovery;
pub mod shortcut;
pub mod text;

pub use aggregate::{Installed, RootQuery, RootSnapshot};
pub use apps::{App, RawKey};
pub use discovery::AppList;

use aggregate::{aggregate_of, scan_root};

verus! {

/// One whole discovery pass over the four fixed roots: system-scope
/// native and compatibility, then user-scope native and compatibility.
/// Each root's records are reconciled against the pool formed from its
/// app-paths values and the shared shortcut targets. A root that is
/// absent or unreadable contributes nothing; the pass fails only when the
/// mandatory system root itself cannot be opened.
pub fn list(
    sys: RootSnapshot,
    sys_compat: RootSnapshot,
    user: RootSnapshot,
    user_compat: RootSnapshot,
    shortcut_targets: Vec<String>,
) -> (r: Result<Installed, String>)
    ensures
        r is Ok <==> !(sys@.keys is Denied),
        r matches Ok(inst) ==> inst@ == aggregate_of(
            sys@,
            sys_compat@,
            user@,
            user_compat@,
            shortcut_targets.deep_view(),
        ),
        r matches Err(m) ==> m@ == "cannot open the mandatory system uninstall root"@,
{
    match &sys.keys {
        RootQuery::Denied => {
            return Err("cannot open the mandatory system uninstall root".to_owned());
        },
        _ => {},
    }
    let sys_list = scan_root(sys, &shortcut_targets);
    let sys_compat_list = scan_root(sys_compat, &shortcut_targets);
    let user_list = scan_root(user, &shortcut_targets);
    let user_compat_list = scan_root(user_compat, &shortcut_targets);
    Ok(Installed::new(sys_list, sys_compat_list, user_list, user_compat_list))
}

} // verus!
