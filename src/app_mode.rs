//! The launcher's modes, chosen by a prefix of the query text.
use vstd::prelude::*;
use crate::text::{has_prefix, starts_with};

verus! {

/// What the query text asks the launcher to do.
#[derive(Debug, Clone, Copy, PartialEq, Eq)]
pub enum AppMode {
    /// Search desktop applications.
    Normal,
    /// File search (`:f`).
    FileSearch,
    /// Query the search backends (`:s`).
    SearchProvider,
    /// Note search in the vault (`:ob`).
    Obsidian,
    /// Content search in the vault (`:obg`).
    ObsidianGrep,
}

/// The mode that a query text selects; `:obg` is tested before `:ob`.
pub open spec fn mode_of(text: Seq<char>) -> AppMode {
    if has_prefix(text, ":obg"@) {
        AppMode::ObsidianGrep
    } else if has_prefix(text, ":ob"@) {
        AppMode::Obsidian
    } else if has_prefix(text, ":f"@) {
        AppMode::FileSearch
    } else if has_prefix(text, ":s"@) {
        AppMode::SearchProvider
    } else {
        AppMode::Normal
    }
}

impl AppMode {
    /// The mode that the query text selects by its prefix.
    pub fn from_text(text: &str) -> (r: Self)
        ensures
            r == mode_of(text@),
    {
        if starts_with(text, ":obg") {
            AppMode::ObsidianGrep
        } else if starts_with(text, ":ob") {
            AppMode::Obsidian
        } else if starts_with(text, ":f") {
            AppMode::FileSearch
        } else if starts_with(text, ":s") {
            AppMode::SearchProvider
        } else {
            AppMode::Normal
        }
    }

    /// The icon of the mode; the vault modes use `obsidian_icon`, the
    /// normal mode has none.
    pub fn icon_name<'a>(&self, obsidian_icon: &'a str) -> (r: Option<&'a str>)
        ensures
            match *self {
                AppMode::FileSearch => r is Some && r->0@ == "text-x-generic"@,
                AppMode::SearchProvider => r is Some && r->0@ == "system-search"@,
                AppMode::Obsidian | AppMode::ObsidianGrep => r is Some && r->0@ == obsidian_icon@,
                AppMode::Normal => r is None,
            },
    {
        match self {
            AppMode::FileSearch => Some("text-x-generic"),
            AppMode::SearchProvider => Some("system-search"),
            AppMode::Obsidian | AppMode::ObsidianGrep => Some(obsidian_icon),
            AppMode::Normal => None,
        }
    }

    /// The vault action bar is shown in the two vault modes.
    pub fn show_obsidian_bar(&self) -> (r: bool)
        ensures
            r == (*self == AppMode::Obsidian || *self == AppMode::ObsidianGrep),
    {
        match self {
            AppMode::Obsidian | AppMode::ObsidianGrep => true,
            _ => false,
        }
    }
}

} // verus!
