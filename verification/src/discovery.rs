//! Building application records from one registry subtree: suppression of
//! incomplete subkeys, icon normalization, and first-match reconciliation
//! of install roots against the candidate executable pool.

use vstd::prelude::*;

use crate::apps::{icon_suffix, val_or_empty, wf_record, App, AppView, RawKey, RawKeyView};
use crate::apps::value_or_empty;
use crate::text::{
    contains_seq, ends_with_seq, replace_seq, str_contains, str_ends_with, str_replace,
};

verus! {

/// The first candidate path that contains `root` as a substring, or the
/// empty sequence when none does. Enumeration order decides ties: this is
/// a documented first-match policy, not a best match.
pub open spec fn first_match(cands: Seq<Seq<char>>, root: Seq<char>) -> Seq<char>
    decreases cands.len(),
{
    if cands.len() == 0 {
        Seq::empty()
    } else if contains_seq(cands[0], root) {
        cands[0]
    } else {
        first_match(cands.skip(1), root)
    }
}

/// The position of the first candidate that contains `root`, or
/// `cands.len()` when none does.
pub open spec fn first_match_idx(cands: Seq<Seq<char>>, root: Seq<char>) -> int
    decreases cands.len(),
{
    if cands.len() == 0 {
        0
    } else if contains_seq(cands[0], root) {
        0
    } else {
        1 + first_match_idx(cands.skip(1), root)
    }
}

/// An icon reference is retained only when it ends with the icon-file
/// suffix; any other form (a missing value, a "path,index" composite) is
/// dropped rather than parsed further.
pub open spec fn norm_icon(icon: Seq<char>) -> Seq<char> {
    if ends_with_seq(icon, icon_suffix()) {
        icon
    } else {
        Seq::empty()
    }
}

/// The record one registry subkey contributes: `None` when the display
/// name or the install location is missing or empty, so that such a
/// subkey never enters the output.
pub open spec fn record_of(k: RawKeyView, cands: Seq<Seq<char>>) -> Option<AppView> {
    let name = val_or_empty(k.name);
    let root = val_or_empty(k.location);
    let icon = val_or_empty(k.icon);
    if name.len() == 0 || root.len() == 0 {
        None
    } else {
        Some(AppView { name, root, bin: first_match(cands, root), icon: norm_icon(icon) })
    }
}

/// The records of a whole subkey listing, in listing order, with the
/// suppressed subkeys left out.
pub open spec fn records_of(keys: Seq<RawKeyView>, cands: Seq<Seq<char>>) -> Seq<AppView>
    decreases keys.len(),
{
    if keys.len() == 0 {
        Seq::empty()
    } else {
        match record_of(keys[0], cands) {
            Some(a) => seq![a] + records_of(keys.skip(1), cands),
            None => records_of(keys.skip(1), cands),
        }
    }
}

/// The applications found under one discovery root.
pub struct AppList {
    pub installed_apps: Vec<App>,
}

impl View for AppList {
    type V = Seq<AppView>;

    open spec fn view(&self) -> Seq<AppView> {
        self.installed_apps.deep_view()
    }
}

impl Default for AppList {
    /// An empty listing.
    fn default() -> (r: AppList)
        ensures
            r@ == Seq::<AppView>::empty(),
    {
        let r = AppList { installed_apps: Vec::new() };
        proof {
            assert(r@ =~= Seq::<AppView>::empty());
        }
        r
    }
}

/// The first candidate that contains `root` as a substring, or the empty
/// string when none does.
pub fn find_bin(candidates: &Vec<String>, root: &str) -> (r: String)
    ensures
        r@ == first_match(candidates.deep_view(), root@),
{
    let ghost cands = candidates.deep_view();
    let mut i: usize = 0;
    proof {
        assert(cands.skip(0) =~= cands);
    }
    while i < candidates.len()
        invariant
            cands == candidates.deep_view(),
            cands.len() == candidates@.len(),
            0 <= i <= candidates@.len(),
            first_match(cands, root@) == first_match(cands.skip(i as int), root@),
        decreases candidates@.len() - i,
    {
        proof {
            assert(cands.skip(i as int)[0] == cands[i as int]);
        }
        if str_contains(candidates[i].as_str(), root) {
            return candidates[i].clone();
        }
        proof {
            assert(cands.skip(i as int).skip(1) =~= cands.skip(i + 1));
        }
        i = i + 1;
    }
    proof {
        assert(cands.skip(i as int) =~= Seq::<Seq<char>>::empty());
    }
    String::new()
}

impl AppList {
    /// The records of one discovery root: one per subkey that carries a
    /// non-empty display name and install location, each reconciled
    /// against the candidate pool, in subkey listing order.
    pub fn new(keys: Vec<RawKey>, candidates: &Vec<String>) -> (r: AppList)
        ensures
            r@ == records_of(keys.deep_view(), candidates.deep_view()),
    {
        let ghost kv = keys.deep_view();
        let ghost cv = candidates.deep_view();
        let mut out: Vec<App> = Vec::new();
        let mut i: usize = 0;
        proof {
            assert(kv.skip(0) =~= kv);
            assert(out.deep_view() + records_of(kv, cv) =~= records_of(kv, cv));
        }
        while i < keys.len()
            invariant
                kv == keys.deep_view(),
                cv == candidates.deep_view(),
                kv.len() == keys@.len(),
                0 <= i <= keys@.len(),
                records_of(kv, cv) == out.deep_view() + records_of(kv.skip(i as int), cv),
            decreases keys@.len() - i,
        {
            let ghost rest = kv.skip(i as int);
            proof {
                assert(rest[0] == kv[i as int]);
                assert(rest.skip(1) =~= kv.skip(i + 1));
            }
            let k = &keys[i];
            let name = value_or_empty(&k.name);
            let location = value_or_empty(&k.location);
            let icon_raw = value_or_empty(&k.icon);
            if name.as_str().unicode_len() > 0 && location.as_str().unicode_len() > 0 {
                let bin = find_bin(candidates, location.as_str());
                let icon = if str_ends_with(icon_raw.as_str(), ".ico") {
                    icon_raw
                } else {
                    String::new()
                };
                let app = App { name, root: location, bin, icon };
                let ghost av = app@;
                let ghost prev = out.deep_view();
                proof {
                    assert(record_of(kv[i as int], cv) == Some(av));
                }
                out.push(app);
                proof {
                    assert(out.deep_view() =~= prev.push(av));
                    assert(out.deep_view() + records_of(kv.skip(i + 1), cv) =~= prev + (seq![av]
                        + records_of(kv.skip(i + 1), cv)));
                }
            } else {
                proof {
                    assert(record_of(kv[i as int], cv) is None);
                }
            }
            i = i + 1;
        }
        proof {
            assert(kv.skip(i as int) =~= Seq::<RawKeyView>::empty());
            assert(out.deep_view() + records_of(kv.skip(i as int), cv) =~= out.deep_view());
        }
        AppList { installed_apps: out }
    }
}

/// The registry subtree that holds the app-paths mapping, derived from
/// the uninstall subtree path by substituting the fixed path segment.
pub fn app_paths_subtree(path: &str) -> (r: String)
    ensures
        r@ == replace_seq(path@, "Uninstall"@, "App Paths"@),
{
    str_replace(path, "Uninstall", "App Paths")
}

/// The candidate pool of one discovery root: the app-paths values (an
/// absent app-paths subtree contributes nothing), followed by the
/// resolved shortcut targets.
pub open spec fn pool_of(app_paths: Option<Seq<Seq<char>>>, targets: Seq<Seq<char>>) -> Seq<
    Seq<char>,
> {
    (match app_paths {
        Some(s) => s,
        None => Seq::empty(),
    }) + targets
}

/// Forms the candidate pool of one discovery root.
pub fn candidate_pool(app_paths: Option<Vec<String>>, shortcut_targets: &Vec<String>) -> (r: Vec<
    String,
>)
    ensures
        r.deep_view() == pool_of(app_paths.deep_view(), shortcut_targets.deep_view()),
{
    let ghost ap = app_paths.deep_view();
    let ghost tv = shortcut_targets.deep_view();
    let mut pool: Vec<String> = match app_paths {
        Some(v) => v,
        None => Vec::new(),
    };
    let ghost base = pool.deep_view();
    proof {
        assert(pool_of(ap, tv) =~= base + tv);
    }
    let mut j: usize = 0;
    proof {
        assert(pool.deep_view() =~= base + tv.take(0));
    }
    while j < shortcut_targets.len()
        invariant
            tv == shortcut_targets.deep_view(),
            tv.len() == shortcut_targets@.len(),
            0 <= j <= shortcut_targets@.len(),
            pool.deep_view() == base + tv.take(j as int),
        decreases shortcut_targets@.len() - j,
    {
        let ghost prev = pool.deep_view();
        pool.push(shortcut_targets[j].clone());
        proof {
            assert(pool.deep_view() =~= prev.push(tv[j as int]));
            assert(prev.push(tv[j as int]) =~= base + tv.take(j + 1));
        }
        j = j + 1;
    }
    proof {
        assert(tv.take(j as int) =~= tv);
        assert(pool.deep_view() == base + tv);
        assert(base + tv =~= pool_of(ap, tv));
    }
    pool
}

/// Every emitted record is well formed: its name and install root are
/// non-empty, and its icon is empty or ends with the icon-file suffix.
pub proof fn lemma_records_well_formed(keys: Seq<RawKeyView>, cands: Seq<Seq<char>>)
    ensures
        forall|i: int|
            0 <= i < records_of(keys, cands).len() ==> wf_record(
                #[trigger] records_of(keys, cands)[i],
            ),
    decreases keys.len(),
{
    if keys.len() == 0 {
    } else {
        lemma_records_well_formed(keys.skip(1), cands);
        let tail = records_of(keys.skip(1), cands);
        match record_of(keys[0], cands) {
            Some(a) => {
                assert(wf_record(a));
                assert forall|i: int| 0 <= i < records_of(keys, cands).len() implies wf_record(
                    records_of(keys, cands)[i],
                ) by {
                    if i == 0 {
                        assert(records_of(keys, cands)[0] == a);
                    } else {
                        assert(records_of(keys, cands)[i] == tail[i - 1]);
                    }
                }
            },
            None => {},
        }
    }
}

/// First-match reconciliation: the chosen executable is the first
/// candidate in enumeration order that contains the install root, every
/// candidate before it contains no match, and the result is empty exactly
/// when no candidate matches.
pub proof fn lemma_first_match_is_first(cands: Seq<Seq<char>>, root: Seq<char>)
    ensures
        0 <= first_match_idx(cands, root) <= cands.len(),
        first_match_idx(cands, root) < cands.len() ==> contains_seq(
            cands[first_match_idx(cands, root)],
            root,
        ) && first_match(cands, root) == cands[first_match_idx(cands, root)],
        forall|j: int|
            0 <= j < first_match_idx(cands, root) ==> !contains_seq(#[trigger] cands[j], root),
        first_match_idx(cands, root) == cands.len() ==> first_match(cands, root)
            == Seq::<char>::empty(),
    decreases cands.len(),
{
    if cands.len() == 0 {
    } else if contains_seq(cands[0], root) {
    } else {
        lemma_first_match_is_first(cands.skip(1), root);
        let idx = first_match_idx(cands, root);
        assert forall|j: int| 0 <= j < idx implies !contains_seq(#[trigger] cands[j], root) by {
            if j > 0 {
                assert(cands[j] == cands.skip(1)[j - 1]);
            }
        }
        if idx < cands.len() {
            assert(cands[idx] == cands.skip(1)[idx - 1]);
        }
    }
}

/// An empty candidate pool leaves every record's executable path empty.
pub proof fn lemma_empty_pool_leaves_bin_empty(keys: Seq<RawKeyView>)
    ensures
        forall|i: int|
            0 <= i < records_of(keys, Seq::<Seq<char>>::empty()).len() ==> (#[trigger] records_of(
                keys,
                Seq::<Seq<char>>::empty(),
            )[i]).bin.len() == 0,
    decreases keys.len(),
{
    let cands = Seq::<Seq<char>>::empty();
    if keys.len() == 0 {
    } else {
        lemma_empty_pool_leaves_bin_empty(keys.skip(1));
        let tail = records_of(keys.skip(1), cands);
        match record_of(keys[0], cands) {
            Some(a) => {
                assert(a.bin.len() == 0);
                assert forall|i: int| 0 <= i < records_of(keys, cands).len() implies (
                records_of(keys, cands)[i]).bin.len() == 0 by {
                    if i == 0 {
                        assert(records_of(keys, cands)[0] == a);
                    } else {
                        assert(records_of(keys, cands)[i] == tail[i - 1]);
                    }
                }
            },
            None => {},
        }
    }
}

} // verus!
