//! Fanning discovery out over the fixed set of registry roots and
//! flattening the results into the exported shape.

use vstd::prelude::*;

use crate::apps::{wf_record, App, AppView, RawKey, RawKeyView};
use crate::discovery::{candidate_pool, lemma_records_well_formed, pool_of, records_of, AppList};

verus! {

/// The outcome of opening one discovery root: its subkeys, or the fact
/// that the root does not exist, or that it exists but cannot be read.
pub enum RootQuery {
    Found(Vec<RawKey>),
    Missing,
    Denied,
}

/// The mathematical content of a [`RootQuery`].
pub enum RootQueryView {
    Found(Seq<RawKeyView>),
    Missing,
    Denied,
}

impl View for RootQuery {
    type V = RootQueryView;

    open spec fn view(&self) -> RootQueryView {
        match self {
            RootQuery::Found(ks) => RootQueryView::Found(ks.deep_view()),
            RootQuery::Missing => RootQueryView::Missing,
            RootQuery::Denied => RootQueryView::Denied,
        }
    }
}

/// A root that is absent or unreadable contributes no subkeys.
pub open spec fn keys_of(q: RootQueryView) -> Seq<RawKeyView> {
    match q {
        RootQueryView::Found(ks) => ks,
        RootQueryView::Missing => Seq::empty(),
        RootQueryView::Denied => Seq::empty(),
    }
}

/// Everything one discovery root yielded: the subkey listing of its
/// uninstall subtree and the raw values of its app-paths sibling subtree
/// (`None` when that sibling does not exist).
pub struct RootSnapshot {
    pub keys: RootQuery,
    pub app_paths: Option<Vec<String>>,
}

/// The mathematical content of a [`RootSnapshot`].
pub struct RootSnapshotView {
    pub keys: RootQueryView,
    pub app_paths: Option<Seq<Seq<char>>>,
}

impl View for RootSnapshot {
    type V = RootSnapshotView;

    open spec fn view(&self) -> RootSnapshotView {
        RootSnapshotView { keys: self.keys@, app_paths: self.app_paths.deep_view() }
    }
}

/// The records one discovery root contributes: its subkeys reconciled
/// against its candidate pool. An absent or unreadable root contributes
/// nothing.
pub open spec fn scan_of(s: RootSnapshotView, targets: Seq<Seq<char>>) -> Seq<AppView> {
    records_of(keys_of(s.keys), pool_of(s.app_paths, targets))
}

/// The exported result: the flattened union of all roots, and its
/// system-scope and user-scope partitions.
pub struct Installed {
    pub apps: Vec<App>,
    pub apps_sys: Vec<App>,
    pub apps_user: Vec<App>,
}

/// The mathematical content of an [`Installed`].
pub struct InstalledView {
    pub apps: Seq<AppView>,
    pub apps_sys: Seq<AppView>,
    pub apps_user: Seq<AppView>,
}

impl View for Installed {
    type V = InstalledView;

    open spec fn view(&self) -> InstalledView {
        InstalledView {
            apps: self.apps.deep_view(),
            apps_sys: self.apps_sys.deep_view(),
            apps_user: self.apps_user.deep_view(),
        }
    }
}

impl Default for Installed {
    /// An empty result.
    fn default() -> (r: Installed)
        ensures
            r@.apps == Seq::<AppView>::empty(),
            r@.apps_sys == Seq::<AppView>::empty(),
            r@.apps_user == Seq::<AppView>::empty(),
    {
        let r = Installed { apps: Vec::new(), apps_sys: Vec::new(), apps_user: Vec::new() };
        proof {
            assert(r@.apps =~= Seq::<AppView>::empty());
            assert(r@.apps_sys =~= Seq::<AppView>::empty());
            assert(r@.apps_user =~= Seq::<AppView>::empty());
        }
        r
    }
}

/// Appends a fresh copy of every record in `src` to `dst`.
fn append_apps(dst: &mut Vec<App>, src: &Vec<App>)
    ensures
        final(dst).deep_view() == old(dst).deep_view() + src.deep_view(),
{
    let ghost base = old(dst).deep_view();
    let ghost sv = src.deep_view();
    let mut j: usize = 0;
    proof {
        assert(dst.deep_view() =~= base + sv.take(0));
    }
    while j < src.len()
        invariant
            sv == src.deep_view(),
            sv.len() == src@.len(),
            0 <= j <= src@.len(),
            dst.deep_view() == base + sv.take(j as int),
        decreases src@.len() - j,
    {
        let ghost prev = dst.deep_view();
        dst.push(src[j].duplicate());
        proof {
            assert(dst.deep_view() =~= prev.push(sv[j as int]));
            assert(prev.push(sv[j as int]) =~= base + sv.take(j + 1));
        }
        j = j + 1;
    }
    proof {
        assert(sv.take(j as int) =~= sv);
    }
}

impl Installed {
    /// The flattened result of the four fixed discovery roots: the system
    /// partition holds the system-scope native and compatibility records
    /// in that order, the user partition likewise, and the primary list
    /// is their ordered concatenation.
    pub fn new(sys: AppList, sys_compat: AppList, user: AppList, user_compat: AppList) -> (r:
        Installed)
        ensures
            r@.apps_sys == sys@ + sys_compat@,
            r@.apps_user == user@ + user_compat@,
            r@.apps == r@.apps_sys + r@.apps_user,
    {
        let mut apps_sys = sys.installed_apps;
        append_apps(&mut apps_sys, &sys_compat.installed_apps);
        let mut apps_user = user.installed_apps;
        append_apps(&mut apps_user, &user_compat.installed_apps);
        let mut apps: Vec<App> = Vec::new();
        proof {
            assert(apps.deep_view() =~= Seq::<AppView>::empty());
        }
        append_apps(&mut apps, &apps_sys);
        let ghost sys_part = apps.deep_view();
        proof {
            assert(sys_part =~= apps_sys.deep_view());
        }
        append_apps(&mut apps, &apps_user);
        Installed { apps, apps_sys, apps_user }
    }

    /// A result that holds the given records as its system partition,
    /// with an empty user partition; the primary list is, as always, the
    /// flattened union of both partitions.
    pub fn of_apps(records: Vec<App>) -> (r: Installed)
        ensures
            r@.apps_sys == records.deep_view(),
            r@.apps_user == Seq::<AppView>::empty(),
            r@.apps == r@.apps_sys + r@.apps_user,
    {
        let mut apps: Vec<App> = Vec::new();
        proof {
            assert(apps.deep_view() =~= Seq::<AppView>::empty());
        }
        append_apps(&mut apps, &records);
        let apps_user: Vec<App> = Vec::new();
        let r = Installed { apps, apps_sys: records, apps_user };
        proof {
            assert(r@.apps_user =~= Seq::<AppView>::empty());
            assert(r@.apps =~= r@.apps_sys + r@.apps_user);
        }
        r
    }
}

/// The records of one discovery root, reconciled against the pool formed
/// from its app-paths values and the shortcut targets.
pub fn scan_root(snapshot: RootSnapshot, shortcut_targets: &Vec<String>) -> (r: AppList)
    ensures
        r@ == scan_of(snapshot@, shortcut_targets.deep_view()),
{
    let RootSnapshot { keys, app_paths } = snapshot;
    let pool = candidate_pool(app_paths, shortcut_targets);
    match keys {
        RootQuery::Found(ks) => AppList::new(ks, &pool),
        RootQuery::Missing => {
            let empty_keys: Vec<RawKey> = Vec::new();
            proof {
                assert(empty_keys.deep_view() =~= Seq::<RawKeyView>::empty());
            }
            AppList::new(empty_keys, &pool)
        },
        RootQuery::Denied => {
            let empty_keys: Vec<RawKey> = Vec::new();
            proof {
                assert(empty_keys.deep_view() =~= Seq::<RawKeyView>::empty());
            }
            AppList::new(empty_keys, &pool)
        },
    }
}

/// What a whole discovery pass returns: per scope, the native root's
/// records followed by the compatibility root's, and the flattened union
/// of both scopes.
pub open spec fn aggregate_of(
    sys: RootSnapshotView,
    sys_compat: RootSnapshotView,
    user: RootSnapshotView,
    user_compat: RootSnapshotView,
    targets: Seq<Seq<char>>,
) -> InstalledView {
    let sys_part = scan_of(sys, targets) + scan_of(sys_compat, targets);
    let user_part = scan_of(user, targets) + scan_of(user_compat, targets);
    InstalledView { apps: sys_part + user_part, apps_sys: sys_part, apps_user: user_part }
}

/// A discovery root that does not exist, or cannot be read, yields an
/// empty contribution rather than an error: the pass succeeds with
/// whatever roots exist.
pub proof fn lemma_absent_root_contributes_nothing(s: RootSnapshotView, targets: Seq<Seq<char>>)
    requires
        s.keys is Missing || s.keys is Denied,
    ensures
        scan_of(s, targets) == Seq::<AppView>::empty(),
{
}

/// Every record in the result of a discovery pass is well formed: its
/// name and install root are non-empty, and its icon is empty or ends
/// with the icon-file suffix. This holds of the primary list and of both
/// partitions.
pub proof fn lemma_result_well_formed(
    sys: RootSnapshotView,
    sys_compat: RootSnapshotView,
    user: RootSnapshotView,
    user_compat: RootSnapshotView,
    targets: Seq<Seq<char>>,
)
    ensures
        forall|i: int|
            0 <= i < aggregate_of(sys, sys_compat, user, user_compat, targets).apps.len()
                ==> wf_record(
                #[trigger] aggregate_of(sys, sys_compat, user, user_compat, targets).apps[i],
            ),
        forall|i: int|
            0 <= i < aggregate_of(sys, sys_compat, user, user_compat, targets).apps_sys.len()
                ==> wf_record(
                #[trigger] aggregate_of(sys, sys_compat, user, user_compat, targets).apps_sys[i],
            ),
        forall|i: int|
            0 <= i < aggregate_of(sys, sys_compat, user, user_compat, targets).apps_user.len()
                ==> wf_record(
                #[trigger] aggregate_of(sys, sys_compat, user, user_compat, targets).apps_user[i],
            ),
{
    let a1 = scan_of(sys, targets);
    let a2 = scan_of(sys_compat, targets);
    let a3 = scan_of(user, targets);
    let a4 = scan_of(user_compat, targets);
    lemma_records_well_formed(keys_of(sys.keys), pool_of(sys.app_paths, targets));
    lemma_records_well_formed(keys_of(sys_compat.keys), pool_of(sys_compat.app_paths, targets));
    lemma_records_well_formed(keys_of(user.keys), pool_of(user.app_paths, targets));
    lemma_records_well_formed(keys_of(user_compat.keys), pool_of(user_compat.app_paths, targets));
    let result = aggregate_of(sys, sys_compat, user, user_compat, targets);
    assert forall|i: int| 0 <= i < result.apps_sys.len() implies wf_record(result.apps_sys[i]) by {
        if i < a1.len() {
            assert(result.apps_sys[i] == a1[i]);
        } else {
            assert(result.apps_sys[i] == a2[i - a1.len()]);
        }
    }
    assert forall|i: int| 0 <= i < result.apps_user.len() implies wf_record(result.apps_user[i]) by {
        if i < a3.len() {
            assert(result.apps_user[i] == a3[i]);
        } else {
            assert(result.apps_user[i] == a4[i - a3.len()]);
        }
    }
    assert forall|i: int| 0 <= i < result.apps.len() implies wf_record(result.apps[i]) by {
        if i < result.apps_sys.len() {
            assert(result.apps[i] == result.apps_sys[i]);
        } else {
            assert(result.apps[i] == result.apps_user[i - result.apps_sys.len()]);
        }
    }
}

/// Discovery is a function of the observed registry and filesystem state
/// alone: two passes over the same snapshots yield the same records.
pub proof fn lemma_discovery_deterministic(
    sys: RootSnapshotView,
    sys_compat: RootSnapshotView,
    user: RootSnapshotView,
    user_compat: RootSnapshotView,
    targets: Seq<Seq<char>>,
    first_pass: InstalledView,
    second_pass: InstalledView,
)
    requires
        first_pass == aggregate_of(sys, sys_compat, user, user_compat, targets),
        second_pass == aggregate_of(sys, sys_compat, user, user_compat, targets),
    ensures
        first_pass == second_pass,
{
}

} // verus!
