//! Application-bundle records: one record per bundle directory, built
//! from the bundle's path and its property-list bytes.

use vstd::prelude::*;

use crate::apps::{val_or_empty, value_or_empty, App, AppView};

verus! {

/// The executable entry embedded in property-list bytes: `None` when the
/// bytes do not parse as a property list, `Some(None)` when the parsed
/// list carries no string-valued executable entry, and the entry itself
/// otherwise.
pub uninterp spec fn plist_executable_of(bytes: Seq<u8>) -> Option<Option<Seq<char>>>;

/// Relies on `plist::Value::from_reader` and the dictionary lookup of the
/// `CFBundleExecutable` entry: the result is a function of the bytes
/// alone. Bytes that do not parse yield `None`; a parsed list hands back
/// its string executable entry, or that entry's absence.
#[verifier::external_body]
fn plist_executable(bytes: &[u8]) -> (r: Option<Option<String>>)
    ensures
        r.deep_view() == plist_executable_of(bytes@),
{
    match plist::Value::from_reader(std::io::Cursor::new(bytes)) {
        Ok(value) => Some(
            value.as_dictionary().and_then(|d| d.get("CFBundleExecutable")).and_then(
                |v| v.as_string(),
            ).map(|s| s.to_owned()),
        ),
        Err(_) => None,
    }
}

/// The position just past the last separator in `path`, or 0 when `path`
/// holds no separator.
pub open spec fn last_sep_end(path: Seq<char>) -> int
    decreases path.len(),
{
    if path.len() == 0 {
        0
    } else if path[path.len() - 1] == '/' {
        path.len() as int
    } else {
        last_sep_end(path.take(path.len() - 1))
    }
}

/// The part of `path` after its last separator.
pub open spec fn last_component(path: Seq<char>) -> Seq<char> {
    path.skip(last_sep_end(path))
}

/// The display name of a bundle: the last component of its path, or a
/// fixed fallback when the path ends in a separator.
pub open spec fn bundle_name_of(path: Seq<char>) -> Seq<char> {
    if last_component(path).len() == 0 {
        "Unknown"@
    } else {
        last_component(path)
    }
}

/// The record one bundle directory contributes: `None` when its
/// property-list bytes do not parse. The root is the bundle path itself;
/// the executable and icon paths live at fixed places inside the bundle,
/// and a missing executable entry is treated as the empty name.
pub open spec fn bundle_record_of(path: Seq<char>, bytes: Seq<u8>) -> Option<AppView> {
    match plist_executable_of(bytes) {
        None => None,
        Some(entry) => Some(
            AppView {
                name: bundle_name_of(path),
                root: path,
                bin: path + "/Contents/MacOS/"@ + val_or_empty(entry),
                icon: path + "/Contents/Resources/AppIcon.icns"@,
            },
        ),
    }
}

/// The display name of the bundle at `path`.
pub fn bundle_base_name(path: &str) -> (r: String)
    ensures
        r@ == bundle_name_of(path@),
{
    let len = path.unicode_len();
    let mut start: usize = 0;
    let mut i: usize = 0;
    proof {
        assert(path@.take(0) =~= Seq::<char>::empty());
    }
    while i < len
        invariant
            len == path@.len(),
            0 <= i <= len,
            0 <= start <= i,
            last_sep_end(path@.take(i as int)) == start as int,
        decreases len - i,
    {
        proof {
            assert(path@.take(i + 1).take(i as int) =~= path@.take(i as int));
            assert(path@.take(i + 1)[i as int] == path@[i as int]);
        }
        let c = path.get_char(i);
        if c == '/' {
            start = i + 1;
        }
        i = i + 1;
    }
    proof {
        assert(path@.take(i as int) =~= path@);
        assert(path@.subrange(start as int, len as int) =~= last_component(path@));
    }
    let tail = path.substring_char(start, len);
    if tail.unicode_len() == 0 {
        "Unknown".to_owned()
    } else {
        tail.to_owned()
    }
}

/// The record of the bundle at `path`, given its property-list bytes:
/// `None` exactly when the bytes do not parse as a property list.
pub fn bundle_record(path: &str, plist_bytes: &[u8]) -> (r: Option<App>)
    ensures
        r.deep_view() == bundle_record_of(path@, plist_bytes@),
{
    let entry = match plist_executable(plist_bytes) {
        None => {
            return None;
        },
        Some(e) => e,
    };
    let exec = value_or_empty(&entry);
    let name = bundle_base_name(path);
    let root = path.to_owned();
    let mut bin = path.to_owned();
    bin.append("/Contents/MacOS/");
    bin.append(exec.as_str());
    let mut icon = path.to_owned();
    icon.append("/Contents/Resources/AppIcon.icns");
    Some(App { name, root, bin, icon })
}

} // verus!
