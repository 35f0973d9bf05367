//! Decoding of the icon descriptors that search backends attach to results.
//!
//! A backend sends a self-describing, recursively nested value. Two shapes
//! carry an icon: a `("themed-icon", {"names": [..]})` pair and a
//! `("file-icon", {"file": ..})` pair; a bare space-free string names a
//! themed icon too. Anything else decodes to no icon, never to an error.
use vstd::prelude::*;
use crate::text::{after_prefix, has_prefix, contains_char, str_eq, strip_prefix};

verus! {

/// A self-describing value as it arrives from a backend.
pub enum WireValue {
    /// A string.
    Str(String),
    /// A boxed value that wraps another one.
    Boxed(Box<WireValue>),
    /// An array of values.
    Array(Vec<WireValue>),
    /// A map, as its entries (key, value) in wire order.
    Dict(Vec<(WireValue, WireValue)>),
    /// A tuple of values.
    Structure(Vec<WireValue>),
    /// Any other basic value (numbers, booleans, handles).
    Other,
}

/// A decoded icon.
#[derive(Debug, Clone, PartialEq, Eq)]
pub enum IconData {
    /// A name in the current icon theme.
    Themed(String),
    /// An absolute path to an image file.
    File(String),
}

/// The mathematical value of an `IconData`.
pub ghost enum IconModel {
    Themed(Seq<char>),
    File(Seq<char>),
}

impl View for IconData {
    type V = IconModel;

    open spec fn view(&self) -> IconModel {
        match self {
            IconData::Themed(s) => IconModel::Themed(s@),
            IconData::File(s) => IconModel::File(s@),
        }
    }
}

/// The model of an optional icon.
pub open spec fn icon_view(o: Option<IconData>) -> Option<IconModel> {
    match o {
        Some(i) => Some(i@),
        None => None,
    }
}

pub open spec fn themed_tag() -> Seq<char> {
    "themed-icon"@
}

pub open spec fn file_tag() -> Seq<char> {
    "file-icon"@
}

pub open spec fn names_key() -> Seq<char> {
    "names"@
}

pub open spec fn file_key() -> Seq<char> {
    "file"@
}

pub open spec fn file_uri_prefix() -> Seq<char> {
    "file://"@
}

/// `v` is a string whose characters are `s`.
pub open spec fn is_str_of(v: WireValue, s: Seq<char>) -> bool {
    v matches WireValue::Str(t) && t@ == s
}

// ---------------------------------------------------------------------------
// The decoder, stated over the wire value
// ---------------------------------------------------------------------------

/// The icon that a wire value describes.
pub open spec fn decode(v: WireValue) -> Option<IconModel>
    decreases v,
{
    match v {
        WireValue::Boxed(b) => decode(*b),
        WireValue::Structure(fields) => {
            if fields@.len() >= 2 && is_str_of(fields@[0], themed_tag()) {
                match themed_name(fields@[1]) {
                    Some(n) => Some(IconModel::Themed(n)),
                    None => None,
                }
            } else if fields@.len() >= 2 && is_str_of(fields@[0], file_tag()) {
                match file_path(fields@[1]) {
                    Some(p) => Some(IconModel::File(p)),
                    None => None,
                }
            } else {
                None
            }
        },
        WireValue::Str(s) => {
            if s@.len() > 0 && !s@.contains(' ') {
                Some(IconModel::Themed(s@))
            } else {
                None
            }
        },
        _ => None,
    }
}

/// A name that an array element gives: a non-empty string, boxed or not.
pub open spec fn element_name(v: WireValue) -> Option<Seq<char>>
    decreases v,
{
    match v {
        WireValue::Str(s) => if s@.len() > 0 { Some(s@) } else { None },
        WireValue::Boxed(b) => element_name(*b),
        _ => None,
    }
}

/// The first name that an array of icon names (boxed or not) holds; any
/// other value holds none.
pub open spec fn first_name(v: WireValue) -> Option<Seq<char>>
    decreases v,
{
    match v {
        WireValue::Array(items) => first_element_name(items@),
        WireValue::Boxed(b) => first_name(*b),
        _ => None,
    }
}

pub open spec fn first_element_name(s: Seq<WireValue>) -> Option<Seq<char>>
    decreases s,
{
    if s.len() == 0 {
        None
    } else {
        match element_name(s[0]) {
            Some(n) => Some(n),
            None => first_element_name(s.subrange(1, s.len() as int)),
        }
    }
}

/// The first name found in an array under the entries whose key is
/// `"names"` (when `keyed`), or under any entry.
pub open spec fn entries_name(s: Seq<(WireValue, WireValue)>, keyed: bool) -> Option<Seq<char>>
    decreases s,
{
    if s.len() == 0 {
        None
    } else {
        let found = if !keyed || is_str_of(s[0].0, names_key()) {
            first_name(s[0].1)
        } else {
            None
        };
        match found {
            Some(n) => Some(n),
            None => entries_name(s.subrange(1, s.len() as int), keyed),
        }
    }
}

/// The icon name of a themed-icon payload: looked up in the array under
/// `"names"` first, then in the first array of the map that holds one.
pub open spec fn themed_name(v: WireValue) -> Option<Seq<char>>
    decreases v,
{
    match v {
        WireValue::Boxed(b) => themed_name(*b),
        WireValue::Dict(entries) => match entries_name(entries@, true) {
            Some(n) => Some(n),
            None => entries_name(entries@, false),
        },
        WireValue::Array(_) => first_name(v),
        _ => None,
    }
}

/// A path, with a `file://` prefix removed.
pub open spec fn without_file_uri(s: Seq<char>) -> Seq<char> {
    if has_prefix(s, file_uri_prefix()) {
        after_prefix(s, file_uri_prefix())
    } else {
        s
    }
}

/// The path of a file-icon payload: a non-empty string, or what the entry
/// under `"file"` gives, or else what any entry of the map gives.
pub open spec fn file_path(v: WireValue) -> Option<Seq<char>>
    decreases v,
{
    match v {
        WireValue::Boxed(b) => file_path(*b),
        WireValue::Str(s) => if s@.len() > 0 { Some(without_file_uri(s@)) } else { None },
        WireValue::Dict(entries) => match entries_path(entries@, true) {
            Some(p) => Some(p),
            None => entries_path(entries@, false),
        },
        _ => None,
    }
}

pub open spec fn entries_path(s: Seq<(WireValue, WireValue)>, keyed: bool) -> Option<Seq<char>>
    decreases s,
{
    if s.len() == 0 {
        None
    } else {
        let found = if !keyed || is_str_of(s[0].0, file_key()) {
            file_path(s[0].1)
        } else {
            None
        };
        match found {
            Some(p) => Some(p),
            None => entries_path(s.subrange(1, s.len() as int), keyed),
        }
    }
}

/// The model of an optional string.
pub open spec fn opt_str_view(o: Option<String>) -> Option<Seq<char>> {
    match o {
        Some(s) => Some(s@),
        None => None,
    }
}

// ---------------------------------------------------------------------------
// The decoder
// ---------------------------------------------------------------------------

/// The value `k` is the string `key`.
fn key_is(k: &WireValue, key: &str) -> (r: bool)
    ensures
        r == is_str_of(*k, key@),
{
    match k {
        WireValue::Str(s) => str_eq(s.as_str(), key),
        _ => false,
    }
}

/// Decodes a backend's icon payload; shapes that carry no icon give `None`.
pub fn parse_icon_variant(v: &WireValue) -> (r: Option<IconData>)
    ensures
        icon_view(r) == decode(*v),
    decreases v,
{
    match v {
        WireValue::Boxed(b) => parse_icon_variant(&**b),
        WireValue::Structure(fields) => {
            if fields.len() >= 2 {
                if key_is(&fields[0], "themed-icon") {
                    return extract_themed(&fields[1]);
                }
                if key_is(&fields[0], "file-icon") {
                    return extract_file(&fields[1]);
                }
            }
            None
        },
        WireValue::Str(s) => {
            if !s.as_str().is_empty() && !contains_char(s.as_str(), ' ') {
                Some(IconData::Themed(s.clone()))
            } else {
                None
            }
        },
        _ => None,
    }
}

/// Decodes the payload of a themed icon into the first icon name it lists.
pub fn extract_themed(v: &WireValue) -> (r: Option<IconData>)
    ensures
        icon_view(r) == match themed_name(*v) {
            Some(n) => Some(IconModel::Themed(n)),
            None => None::<IconModel>,
        },
{
    match walk_themed(v) {
        Some(n) => Some(IconData::Themed(n)),
        None => None,
    }
}

/// Decodes the payload of a file icon into the path it names.
pub fn extract_file(v: &WireValue) -> (r: Option<IconData>)
    ensures
        icon_view(r) == match file_path(*v) {
            Some(p) => Some(IconModel::File(p)),
            None => None::<IconModel>,
        },
{
    match walk_file(v) {
        Some(p) => Some(IconData::File(p)),
        None => None,
    }
}

/// The first non-empty name of an array of icon names, boxed or not.
fn first_name_from_array(v: &WireValue) -> (r: Option<String>)
    ensures
        opt_str_view(r) == first_name(*v),
    decreases v,
{
    match v {
        WireValue::Array(items) => {
            let mut i: usize = 0;
            assert(items@.subrange(0, items@.len() as int) =~= items@);
            while i < items.len()
                invariant
                    i <= items.len(),
                    *v is Array,
                    (*v)->Array_0 == *items,
                    first_name(*v) == first_element_name(items@),
                    first_element_name(items@) == first_element_name(items@.subrange(i as int, items@.len() as int)),
                decreases items.len() - i,
            {
                proof {
                    let rest = items@.subrange(i as int, items@.len() as int);
                    assert(rest[0] == items@[i as int]);
                    assert(decreases_to!(*v => (*v)->Array_0));
                    assert(decreases_to!(items => items[i as int]));
                    assert(rest.subrange(1, rest.len() as int) =~= items@.subrange(i + 1, items@.len() as int));
                }
                let found = element_name_of(&items[i]);
                if found.is_some() {
                    return found;
                }
                i = i + 1;
            }
            None
        },
        WireValue::Boxed(b) => first_name_from_array(b),
        _ => None,
    }
}

/// The name an array element gives: a non-empty string, boxed or not.
fn element_name_of(v: &WireValue) -> (r: Option<String>)
    ensures
        opt_str_view(r) == element_name(*v),
    decreases v,
{
    match v {
        WireValue::Str(s) => if !s.as_str().is_empty() { Some(s.clone()) } else { None },
        WireValue::Boxed(b) => element_name_of(b),
        _ => None,
    }
}

/// The first name under the map's entries, keyed by `"names"` only when `keyed`.
fn names_in_entries(entries: &Vec<(WireValue, WireValue)>, keyed: bool) -> (r: Option<String>)
    ensures
        opt_str_view(r) == entries_name(entries@, keyed),
{
    let mut i: usize = 0;
    assert(entries@.subrange(0, entries@.len() as int) =~= entries@);
    while i < entries.len()
        invariant
            i <= entries.len(),
            entries_name(entries@, keyed) == entries_name(entries@.subrange(i as int, entries@.len() as int), keyed),
        decreases entries.len() - i,
    {
        proof {
            let rest = entries@.subrange(i as int, entries@.len() as int);
            assert(rest[0] == entries@[i as int]);
            assert(rest.subrange(1, rest.len() as int) =~= entries@.subrange(i + 1, entries@.len() as int));
        }
        if !keyed || key_is(&entries[i].0, "names") {
            let found = first_name_from_array(&entries[i].1);
            if found.is_some() {
                return found;
            }
        }
        i = i + 1;
    }
    None
}

/// The icon name of a themed-icon payload.
fn walk_themed(v: &WireValue) -> (r: Option<String>)
    ensures
        opt_str_view(r) == themed_name(*v),
    decreases v,
{
    match v {
        WireValue::Boxed(b) => walk_themed(b),
        WireValue::Dict(entries) => {
            let named = names_in_entries(entries, true);
            if named.is_some() {
                named
            } else {
                names_in_entries(entries, false)
            }
        },
        WireValue::Array(_) => first_name_from_array(v),
        _ => None,
    }
}

/// The path under the map's entries, keyed by `"file"` only when `keyed`.
fn path_in_entries(entries: &Vec<(WireValue, WireValue)>, keyed: bool) -> (r: Option<String>)
    ensures
        opt_str_view(r) == entries_path(entries@, keyed),
    decreases entries,
{
    let mut i: usize = 0;
    assert(entries@.subrange(0, entries@.len() as int) =~= entries@);
    while i < entries.len()
        invariant
            i <= entries.len(),
            entries_path(entries@, keyed) == entries_path(entries@.subrange(i as int, entries@.len() as int), keyed),
        decreases entries.len() - i,
    {
        proof {
            let rest = entries@.subrange(i as int, entries@.len() as int);
            assert(rest[0] == entries@[i as int]);
            assert(rest.subrange(1, rest.len() as int) =~= entries@.subrange(i + 1, entries@.len() as int));
        }
        if !keyed || key_is(&entries[i].0, "file") {
            let found = walk_file(&entries[i].1);
            if found.is_some() {
                return found;
            }
        }
        i = i + 1;
    }
    None
}

/// The path of a file-icon payload.
fn walk_file(v: &WireValue) -> (r: Option<String>)
    ensures
        opt_str_view(r) == file_path(*v),
    decreases v,
{
    match v {
        WireValue::Boxed(b) => walk_file(b),
        WireValue::Str(s) => {
            if !s.as_str().is_empty() {
                match strip_prefix(s.as_str(), "file://") {
                    Some(rest) => Some(rest.to_owned()),
                    None => Some(s.clone()),
                }
            } else {
                None
            }
        },
        WireValue::Dict(entries) => {
            let keyed = path_in_entries(entries, true);
            if keyed.is_some() {
                keyed
            } else {
                path_in_entries(entries, false)
            }
        },
        _ => None,
    }
}

} // verus!
