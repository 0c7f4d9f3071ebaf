//! The application record and the raw registry values it is built from.

use vstd::prelude::*;

use crate::text::ends_with_seq;

verus! {

/// The suffix a retained icon reference must carry.
pub open spec fn icon_suffix() -> Seq<char> {
    ".ico"@
}

/// One discovered application: display name, install root directory,
/// resolved executable path and icon path. `bin` is empty when no
/// candidate executable matched the install root; `icon` is empty unless
/// the registry value ended with the icon-file suffix.
#[derive(Clone, Debug, PartialEq, Eq)]
pub struct App {
    pub name: String,
    pub root: String,
    pub bin: String,
    pub icon: String,
}

/// The mathematical content of an [`App`]: its four fields as character
/// sequences.
pub struct AppView {
    pub name: Seq<char>,
    pub root: Seq<char>,
    pub bin: Seq<char>,
    pub icon: Seq<char>,
}

impl View for App {
    type V = AppView;

    open spec fn view(&self) -> AppView {
        AppView { name: self.name@, root: self.root@, bin: self.bin@, icon: self.icon@ }
    }
}

impl DeepView for App {
    type V = AppView;

    open spec fn deep_view(&self) -> AppView {
        self.view()
    }
}

/// Every record the discovery emits satisfies this: a non-empty display
/// name, a non-empty install root, and an icon that is either empty or
/// ends with the icon-file suffix.
pub open spec fn wf_record(a: AppView) -> bool {
    &&& a.name.len() > 0
    &&& a.root.len() > 0
    &&& (a.icon.len() == 0 || ends_with_seq(a.icon, icon_suffix()))
}

impl App {
    /// The display name.
    pub fn name(&self) -> (r: &str)
        ensures
            r@ == self@.name,
    {
        self.name.as_str()
    }

    /// The install root directory.
    pub fn root(&self) -> (r: &str)
        ensures
            r@ == self@.root,
    {
        self.root.as_str()
    }

    /// The resolved executable path, or the empty string.
    pub fn bin(&self) -> (r: &str)
        ensures
            r@ == self@.bin,
    {
        self.bin.as_str()
    }

    /// The icon path, or the empty string.
    pub fn icon(&self) -> (r: &str)
        ensures
            r@ == self@.icon,
    {
        self.icon.as_str()
    }

    /// A fresh record with the same four fields.
    pub fn duplicate(&self) -> (r: App)
        ensures
            r@ == self@,
    {
        App {
            name: self.name.clone(),
            root: self.root.clone(),
            bin: self.bin.clone(),
            icon: self.icon.clone(),
        }
    }
}

/// The raw values of one registry subkey, exactly as the registry
/// returned them: `None` stands for a value the subkey does not carry.
#[derive(Clone, Debug, PartialEq, Eq)]
pub struct RawKey {
    pub name: Option<String>,
    pub location: Option<String>,
    pub icon: Option<String>,
}

/// The mathematical content of a [`RawKey`].
pub struct RawKeyView {
    pub name: Option<Seq<char>>,
    pub location: Option<Seq<char>>,
    pub icon: Option<Seq<char>>,
}

impl View for RawKey {
    type V = RawKeyView;

    open spec fn view(&self) -> RawKeyView {
        RawKeyView {
            name: self.name.deep_view(),
            location: self.location.deep_view(),
            icon: self.icon.deep_view(),
        }
    }
}

impl DeepView for RawKey {
    type V = RawKeyView;

    open spec fn deep_view(&self) -> RawKeyView {
        self.view()
    }
}

/// A missing registry value is treated as the empty string.
pub open spec fn val_or_empty(v: Option<Seq<char>>) -> Seq<char> {
    match v {
        Some(s) => s,
        None => Seq::empty(),
    }
}

/// A missing registry value is treated as the empty string.
pub fn value_or_empty(v: &Option<String>) -> (r: String)
    ensures
        r@ == val_or_empty(v.deep_view()),
{
    match v {
        Some(s) => s.clone(),
        None => String::new(),
    }
}

} // verus!
