use installed_apps::apps::{App, RawKey};
use installed_apps::discovery::{app_paths_subtree, candidate_pool, find_bin, AppList};
use installed_apps::text::{str_contains, str_ends_with, str_replace};

fn key(name: &str, location: &str, icon: &str) -> RawKey {
    RawKey {
        name: if name.is_empty() { None } else { Some(name.to_string()) },
        location: if location.is_empty() { None } else { Some(location.to_string()) },
        icon: if icon.is_empty() { None } else { Some(icon.to_string()) },
    }
}

fn strings(items: &[&str]) -> Vec<String> {
    items.iter().map(|s| s.to_string()).collect()
}

#[test]
fn contains_finds_substrings() {
    assert!(str_contains("C:\\Foo\\bin\\foo.exe", "C:\\Foo"));
    assert!(!str_contains("C:\\Bar\\foo.exe", "C:\\Foo"));
    assert!(str_contains("abc", ""));
    assert!(str_contains("", ""));
    assert!(!str_contains("", "a"));
    assert!(str_contains("abc", "abc"));
}

#[test]
fn ends_with_checks_suffix() {
    assert!(str_ends_with("app.ico", ".ico"));
    assert!(!str_ends_with("app.ico,0", ".ico"));
    assert!(!str_ends_with("ico", ".ico"));
    assert!(str_ends_with("anything", ""));
}

#[test]
fn replace_substitutes_every_occurrence() {
    assert_eq!(str_replace("aUninstallb", "Uninstall", "App Paths"), "aApp Pathsb");
    assert_eq!(str_replace("UninstallUninstall", "Uninstall", "App Paths"), "App PathsApp Paths");
    assert_eq!(str_replace("nothing here", "Uninstall", "App Paths"), "nothing here");
    assert_eq!(str_replace("aaa", "aa", "b"), "ba");
}

#[test]
fn app_paths_subtree_substitutes_segment() {
    assert_eq!(
        app_paths_subtree("SOFTWARE\\Microsoft\\Windows\\CurrentVersion\\Uninstall"),
        "SOFTWARE\\Microsoft\\Windows\\CurrentVersion\\App Paths"
    );
    assert_eq!(
        app_paths_subtree("SOFTWARE\\Wow6432Node\\Microsoft\\Windows\\CurrentVersion\\Uninstall"),
        "SOFTWARE\\Wow6432Node\\Microsoft\\Windows\\CurrentVersion\\App Paths"
    );
}

#[test]
fn first_candidate_containing_root_wins() {
    let cands = strings(&["C:\\Foo\\bin\\foo.exe", "C:\\Bar\\foo.exe"]);
    assert_eq!(find_bin(&cands, "C:\\Foo"), "C:\\Foo\\bin\\foo.exe");
    let reversed = strings(&["C:\\Bar\\foo.exe", "C:\\Foo\\bin\\foo.exe"]);
    assert_eq!(find_bin(&reversed, "C:\\Foo"), "C:\\Foo\\bin\\foo.exe");
}

#[test]
fn enumeration_order_decides_ties() {
    let cands = strings(&["C:\\Foo\\a.exe", "C:\\Foo\\b.exe"]);
    assert_eq!(find_bin(&cands, "C:\\Foo"), "C:\\Foo\\a.exe");
    let reversed = strings(&["C:\\Foo\\b.exe", "C:\\Foo\\a.exe"]);
    assert_eq!(find_bin(&reversed, "C:\\Foo"), "C:\\Foo\\b.exe");
}

#[test]
fn no_matching_candidate_leaves_bin_empty() {
    let cands = strings(&["C:\\Bar\\foo.exe"]);
    assert_eq!(find_bin(&cands, "C:\\Foo"), "");
}

#[test]
fn empty_pool_leaves_every_bin_empty() {
    let keys = vec![key("Foo", "C:\\Foo", ""), key("Bar", "C:\\Bar", "")];
    let listing = AppList::new(keys, &Vec::new());
    assert_eq!(listing.installed_apps.len(), 2);
    for app in &listing.installed_apps {
        assert_eq!(app.bin(), "");
    }
}

#[test]
fn subkey_missing_location_is_excluded() {
    let keys = vec![
        key("Foo", "", "C:\\Foo\\foo.ico"),
        key("Bar", "C:\\Bar", ""),
    ];
    let listing = AppList::new(keys, &Vec::new());
    assert_eq!(listing.installed_apps.len(), 1);
    assert_eq!(listing.installed_apps[0].name(), "Bar");
}

#[test]
fn subkey_missing_name_is_excluded() {
    let keys = vec![key("", "C:\\Foo", "")];
    let listing = AppList::new(keys, &Vec::new());
    assert!(listing.installed_apps.is_empty());
}

#[test]
fn empty_string_values_are_excluded_like_missing_ones() {
    let keys = vec![RawKey {
        name: Some("Foo".to_string()),
        location: Some(String::new()),
        icon: None,
    }];
    let listing = AppList::new(keys, &Vec::new());
    assert!(listing.installed_apps.is_empty());
}

#[test]
fn icon_is_kept_only_with_icon_suffix() {
    let keys = vec![
        key("Foo", "C:\\Foo", "C:\\Foo\\foo.ico"),
        key("Bar", "C:\\Bar", "C:\\Bar\\bar.ico,0"),
        key("Baz", "C:\\Baz", "C:\\Baz\\baz.exe"),
    ];
    let listing = AppList::new(keys, &Vec::new());
    assert_eq!(listing.installed_apps[0].icon(), "C:\\Foo\\foo.ico");
    assert_eq!(listing.installed_apps[1].icon(), "");
    assert_eq!(listing.installed_apps[2].icon(), "");
}

#[test]
fn emitted_records_have_name_and_root() {
    let keys = vec![
        key("Foo", "C:\\Foo", ""),
        key("", "C:\\Nameless", ""),
        key("Rootless", "", ""),
    ];
    let cands = strings(&["C:\\Foo\\foo.exe"]);
    let listing = AppList::new(keys, &cands);
    for app in &listing.installed_apps {
        assert!(!app.name().is_empty());
        assert!(!app.root().is_empty());
    }
    assert_eq!(listing.installed_apps.len(), 1);
    assert_eq!(listing.installed_apps[0].bin(), "C:\\Foo\\foo.exe");
}

#[test]
fn records_keep_listing_order() {
    let keys = vec![key("B", "C:\\B", ""), key("A", "C:\\A", "")];
    let listing = AppList::new(keys, &Vec::new());
    assert_eq!(listing.installed_apps[0].name(), "B");
    assert_eq!(listing.installed_apps[1].name(), "A");
}

#[test]
fn candidate_pool_orders_app_paths_before_targets() {
    let targets = strings(&["T1", "T2"]);
    let pool = candidate_pool(Some(strings(&["A1"])), &targets);
    assert_eq!(pool, strings(&["A1", "T1", "T2"]));
    let pool_without = candidate_pool(None, &targets);
    assert_eq!(pool_without, strings(&["T1", "T2"]));
}

#[test]
fn same_keys_and_pool_give_identical_records() {
    let keys = vec![
        key("Foo", "C:\\Foo", "C:\\Foo\\foo.ico"),
        key("Bar", "C:\\Bar", ""),
    ];
    let cands = strings(&["C:\\Foo\\foo.exe", "C:\\Bar\\bar.exe"]);
    let first_pass = AppList::new(keys.clone(), &cands);
    let second_pass = AppList::new(keys, &cands);
    assert_eq!(first_pass.installed_apps, second_pass.installed_apps);
}

#[test]
fn getters_return_the_fields() {
    let app = App {
        name: "Foo".to_string(),
        root: "C:\\Foo".to_string(),
        bin: "C:\\Foo\\foo.exe".to_string(),
        icon: "C:\\Foo\\foo.ico".to_string(),
    };
    assert_eq!(app.name(), "Foo");
    assert_eq!(app.root(), "C:\\Foo");
    assert_eq!(app.bin(), "C:\\Foo\\foo.exe");
    assert_eq!(app.icon(), "C:\\Foo\\foo.ico");
    let copy = app.duplicate();
    assert_eq!(copy, app);
}

#[test]
fn default_listing_is_empty() {
    let listing = AppList::default();
    assert!(listing.installed_apps.is_empty());
}
