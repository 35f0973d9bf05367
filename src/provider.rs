//! Search backends: their descriptors, the two-call query protocol, and
//! what each backend's answer contributes to the visible results.
use vstd::prelude::*;
use crate::icon::{decode, icon_view, parse_icon_variant, IconData, IconModel, WireValue};
use crate::text::{
    after_prefix, has_prefix, has_suffix, lines, lines_of, parse_u32, parsed_u32, strip_prefix,
    trim, trim_str, views_of, words, words_of, chars_of,
};

verus! {

/// One pluggable search backend, as discovered at startup.
#[derive(Debug, Clone)]
pub struct SearchProvider {
    /// Namespace part of the backend's address (a bus name).
    pub bus_name: String,
    /// Endpoint part of the backend's address (an object path).
    pub object_path: String,
    /// Icon of the application behind the backend, used as a fallback.
    pub app_icon: String,
    /// Identity of the backend, used for icon lookup and exclusion.
    pub desktop_id: String,
}

/// The fields of a backend descriptor file that discovery needs.
#[derive(Debug, Clone)]
pub struct ProviderDescriptor {
    pub bus_name: String,
    pub object_path: String,
    pub desktop_id: String,
}

/// One result returned by a backend.
#[derive(Debug, Clone)]
pub struct SearchResult {
    /// Identifier of the result within its backend.
    pub id: String,
    /// Display name.
    pub name: String,
    /// Description, possibly empty.
    pub description: String,
    /// The result's own icon, if the backend sent a recognizable one.
    pub icon: Option<IconData>,
    /// The owning backend's fallback icon.
    pub app_icon: String,
    /// Address of the owning backend, for activation.
    pub bus_name: String,
    pub object_path: String,
}

/// The mathematical value of a `SearchResult`.
pub ghost struct ResultModel {
    pub id: Seq<char>,
    pub name: Seq<char>,
    pub description: Seq<char>,
    pub icon: Option<IconModel>,
    pub app_icon: Seq<char>,
    pub bus_name: Seq<char>,
    pub object_path: Seq<char>,
}

impl View for SearchResult {
    type V = ResultModel;

    open spec fn view(&self) -> ResultModel {
        ResultModel {
            id: self.id@,
            name: self.name@,
            description: self.description@,
            icon: icon_view(self.icon),
            app_icon: self.app_icon@,
            bus_name: self.bus_name@,
            object_path: self.object_path@,
        }
    }
}

/// The values of a batch of results.
pub open spec fn batch_view(b: Seq<SearchResult>) -> Seq<ResultModel> {
    b.map_values(|r: SearchResult| r@)
}

// ---------------------------------------------------------------------------
// Descriptor files
// ---------------------------------------------------------------------------

/// The keys of a descriptor file, each as the last line that set it.
pub ghost struct IniFields {
    pub bus_name: Option<Seq<char>>,
    pub object_path: Option<Seq<char>>,
    pub desktop_id: Option<Seq<char>>,
    pub version: Option<u32>,
}

/// The value that `line` gives to `key`, or what the key held before.
pub open spec fn set_if(line: Seq<char>, key: Seq<char>, before: Option<Seq<char>>) -> Option<Seq<char>> {
    if has_prefix(line, key) { Some(after_prefix(line, key)) } else { before }
}

/// The keys that the lines set, read in order.
pub open spec fn ini_scan(ls: Seq<Seq<char>>) -> IniFields
    decreases ls.len(),
{
    if ls.len() == 0 {
        IniFields { bus_name: None, object_path: None, desktop_id: None, version: None }
    } else {
        let f = ini_scan(ls.drop_last());
        let l = trim(ls.last());
        IniFields {
            bus_name: set_if(l, "BusName="@, f.bus_name),
            object_path: set_if(l, "ObjectPath="@, f.object_path),
            desktop_id: set_if(l, "DesktopId="@, f.desktop_id),
            version: if has_prefix(l, "Version="@) {
                parsed_u32(after_prefix(l, "Version="@))
            } else {
                f.version
            },
        }
    }
}

/// The descriptor that a file's text gives: present only for version 2 with
/// an address and an identity.
pub open spec fn descriptor_of(content: Seq<char>) -> Option<(Seq<char>, Seq<char>, Seq<char>)> {
    let f = ini_scan(lines_of(content));
    if f.version == Some(2u32) && f.bus_name is Some && f.object_path is Some && f.desktop_id is Some {
        Some((f.bus_name->0, f.object_path->0, f.desktop_id->0))
    } else {
        None
    }
}

/// Parses the text of a backend descriptor file; `None` when the file does
/// not describe a version-2 backend with bus name, object path and desktop id.
pub fn parse_ini(content: &str) -> (r: Option<ProviderDescriptor>)
    ensures
        match descriptor_of(content@) {
            Some(d) => r is Some && r->0.bus_name@ == d.0 && r->0.object_path@ == d.1
                && r->0.desktop_id@ == d.2,
            None => r is None,
        },
{
    let ls = lines(content);
    let mut bus_name: Option<String> = None;
    let mut object_path: Option<String> = None;
    let mut desktop_id: Option<String> = None;
    let mut version: Option<u32> = None;
    let mut i: usize = 0;
    while i < ls.len()
        invariant
            i <= ls.len(),
            views_of(ls@) == lines_of(content@),
            ({
                let f = ini_scan(views_of(ls@).subrange(0, i as int));
                &&& opt_view(bus_name) == f.bus_name
                &&& opt_view(object_path) == f.object_path
                &&& opt_view(desktop_id) == f.desktop_id
                &&& version == f.version
            }),
        decreases ls.len() - i,
    {
        proof {
            let all = views_of(ls@);
            assert(all.subrange(0, i + 1).drop_last() =~= all.subrange(0, i as int));
            assert(all.subrange(0, i + 1).last() == ls@[i as int]@);
        }
        let line = trim_str(ls[i].as_str());
        if let Some(v) = strip_prefix(line.as_str(), "BusName=") {
            bus_name = Some(v.to_owned());
        }
        if let Some(v) = strip_prefix(line.as_str(), "ObjectPath=") {
            object_path = Some(v.to_owned());
        }
        if let Some(v) = strip_prefix(line.as_str(), "DesktopId=") {
            desktop_id = Some(v.to_owned());
        }
        if let Some(v) = strip_prefix(line.as_str(), "Version=") {
            version = parse_u32(v);
        }
        i = i + 1;
    }
    assert(views_of(ls@).subrange(0, ls@.len() as int) =~= views_of(ls@));
    if version != Some(2u32) {
        return None;
    }
    match (bus_name, object_path, desktop_id) {
        (Some(b), Some(p), Some(d)) => Some(ProviderDescriptor { bus_name: b, object_path: p, desktop_id: d }),
        _ => None,
    }
}

/// The model of an optional string.
pub open spec fn opt_view(o: Option<String>) -> Option<Seq<char>> {
    match o {
        Some(s) => Some(s@),
        None => None,
    }
}

impl SearchProvider {
    /// A backend from its descriptor and the icon resolved for its identity.
    pub fn from_descriptor(d: ProviderDescriptor, app_icon: String) -> (r: SearchProvider)
        ensures
            r.bus_name == d.bus_name,
            r.object_path == d.object_path,
            r.desktop_id == d.desktop_id,
            r.app_icon == app_icon,
    {
        SearchProvider {
            bus_name: d.bus_name,
            object_path: d.object_path,
            app_icon,
            desktop_id: d.desktop_id,
        }
    }
}

/// A field-by-field copy of a backend.
fn copy_provider(p: &SearchProvider) -> (r: SearchProvider)
    ensures
        r == *p,
{
    SearchProvider {
        bus_name: p.bus_name.clone(),
        object_path: p.object_path.clone(),
        app_icon: p.app_icon.clone(),
        desktop_id: p.desktop_id.clone(),
    }
}

/// `id` is one of the excluded identities.
pub open spec fn excluded(blacklist: Seq<String>, id: Seq<char>) -> bool {
    exists|i: int| 0 <= i < blacklist.len() && #[trigger] blacklist[i]@ == id
}

/// The backends of `ps` whose identity is not excluded, in order.
pub open spec fn allowed(ps: Seq<SearchProvider>, blacklist: Seq<String>) -> Seq<SearchProvider>
    decreases ps.len(),
{
    if ps.len() == 0 {
        ps
    } else {
        let rest = allowed(ps.drop_last(), blacklist);
        if excluded(blacklist, ps.last().desktop_id@) { rest } else { rest.push(ps.last()) }
    }
}

/// Tells whether `id` is on the exclusion list.
pub fn is_blacklisted(blacklist: &Vec<String>, id: &String) -> (r: bool)
    ensures
        r == excluded(blacklist@, id@),
{
    let mut i: usize = 0;
    while i < blacklist.len()
        invariant
            i <= blacklist.len(),
            forall|j: int| 0 <= j < i ==> #[trigger] blacklist@[j]@ != id@,
        decreases blacklist.len() - i,
    {
        if blacklist[i] == *id {
            return true;
        }
        i = i + 1;
    }
    false
}

/// Drops the backends whose identity is on the exclusion list, keeping the
/// order of the others.
pub fn filter_providers(candidates: Vec<SearchProvider>, blacklist: &Vec<String>) -> (r: Vec<SearchProvider>)
    ensures
        r@ == allowed(candidates@, blacklist@),
{
    let mut r: Vec<SearchProvider> = Vec::new();
    let mut i: usize = 0;
    assert(candidates@.subrange(0, 0) =~= Seq::<SearchProvider>::empty());
    while i < candidates.len()
        invariant
            i <= candidates.len(),
            r@ == allowed(candidates@.subrange(0, i as int), blacklist@),
        decreases candidates.len() - i,
    {
        assert(candidates@.subrange(0, i + 1).drop_last() =~= candidates@.subrange(0, i as int));
        if !is_blacklisted(blacklist, &candidates[i].desktop_id) {
            r.push(copy_provider(&candidates[i]));
        }
        i = i + 1;
    }
    assert(candidates@.subrange(0, candidates@.len() as int) =~= candidates@);
    r
}

/// The file name of the desktop entry of an identity: `.desktop` is added
/// unless already there.
pub open spec fn desktop_file_name_of(id: Seq<char>) -> Seq<char> {
    if has_suffix(id, ".desktop"@) { id } else { id + ".desktop"@ }
}

/// The file name under which the desktop entry of `desktop_id` is looked up.
pub fn desktop_file_name(desktop_id: &str) -> (r: String)
    ensures
        r@ == desktop_file_name_of(desktop_id@),
{
    let chars = chars_of(desktop_id);
    let suffix = chars_of(".desktop");
    let mut ends = suffix.len() <= chars.len();
    if ends {
        let off = chars.len() - suffix.len();
        let mut k: usize = 0;
        while k < suffix.len()
            invariant
                suffix.len() <= chars.len(),
                off == chars.len() - suffix.len(),
                k <= suffix.len(),
                ends == (forall|j: int| 0 <= j < k ==> chars@[off + j] == #[trigger] suffix@[j]),
            decreases suffix.len() - k,
        {
            if chars[off + k] != suffix[k] {
                ends = false;
            }
            k = k + 1;
        }
        assert(ends == (chars@.subrange(off as int, chars@.len() as int) =~= suffix@));
    }
    let mut name = desktop_id.to_owned();
    if !ends {
        name.append(".desktop");
    }
    name
}

/// The icon that a desktop entry's text names: the first line that starts
/// with `Icon=` once trimmed, the value trimmed too.
pub open spec fn entry_icon(ls: Seq<Seq<char>>) -> Option<Seq<char>>
    decreases ls.len(),
{
    if ls.len() == 0 {
        None
    } else if has_prefix(trim(ls[0]), "Icon="@) {
        Some(trim(after_prefix(trim(ls[0]), "Icon="@)))
    } else {
        entry_icon(ls.subrange(1, ls.len() as int))
    }
}

/// The icon a desktop entry's text names, if any line sets one.
pub fn icon_from_desktop_entry(content: &str) -> (r: Option<String>)
    ensures
        opt_view(r) == entry_icon(lines_of(content@)),
{
    let ls = lines(content);
    let mut i: usize = 0;
    assert(views_of(ls@).subrange(0, views_of(ls@).len() as int) =~= views_of(ls@));
    while i < ls.len()
        invariant
            i <= ls.len(),
            views_of(ls@) == lines_of(content@),
            entry_icon(lines_of(content@)) == entry_icon(views_of(ls@).subrange(i as int, ls@.len() as int)),
        decreases ls.len() - i,
    {
        proof {
            let rest = views_of(ls@).subrange(i as int, ls@.len() as int);
            assert(rest[0] == ls@[i as int]@);
            assert(rest.subrange(1, rest.len() as int) =~= views_of(ls@).subrange(i + 1, ls@.len() as int));
        }
        let line = trim_str(ls[i].as_str());
        if let Some(v) = strip_prefix(line.as_str(), "Icon=") {
            return Some(trim_str(v));
        }
        i = i + 1;
    }
    None
}

// ---------------------------------------------------------------------------
// The two-call query protocol
// ---------------------------------------------------------------------------

/// The search terms of a query: its whitespace-separated words.
pub fn search_terms(query: &str) -> (r: Vec<String>)
    ensures
        views_of(r@) == words_of(query@),
{
    words(query)
}

/// The ids handed to the metadata call: `None` when the first call found
/// nothing (no second call is made), else the first `max_results` ids.
pub fn capped_ids(ids: &Vec<String>, max_results: usize) -> (r: Option<Vec<String>>)
    ensures
        ids.len() == 0 <==> r is None,
        r is Some ==> r->0@ == ids@.subrange(0, if max_results < ids.len() { max_results as int } else { ids.len() as int }),
{
    if ids.len() == 0 {
        return None;
    }
    let n: usize = if max_results < ids.len() { max_results } else { ids.len() };
    let mut r: Vec<String> = Vec::new();
    let mut i: usize = 0;
    while i < n
        invariant
            n <= ids.len(),
            i <= n,
            r@ == ids@.subrange(0, i as int),
        decreases n - i,
    {
        r.push(ids[i].clone());
        assert(r@ =~= ids@.subrange(0, i + 1));
        i = i + 1;
    }
    Some(r)
}

/// The value under `key` in a result's field map (the first entry so keyed).
pub open spec fn field(meta: Seq<(String, WireValue)>, key: Seq<char>) -> Option<WireValue>
    decreases meta.len(),
{
    if meta.len() == 0 {
        None
    } else if meta[0].0@ == key {
        Some(meta[0].1)
    } else {
        field(meta.subrange(1, meta.len() as int), key)
    }
}

/// The text of a field that holds a string.
pub open spec fn str_field(v: Option<WireValue>) -> Option<Seq<char>> {
    match v {
        Some(WireValue::Str(s)) => Some(s@),
        _ => None,
    }
}

/// The result that a field map describes: `None` without a string `id`;
/// the name falls back to the id, the description to empty.
pub open spec fn result_of(meta: Seq<(String, WireValue)>, p: SearchProvider) -> Option<ResultModel> {
    match str_field(field(meta, "id"@)) {
        None => None,
        Some(id) => Some(ResultModel {
            id,
            name: match str_field(field(meta, "name"@)) { Some(n) => n, None => id },
            description: match str_field(field(meta, "description"@)) {
                Some(d) => d,
                None => Seq::empty(),
            },
            icon: match field(meta, "icon"@) { Some(v) => decode(v), None => None },
            app_icon: p.app_icon@,
            bus_name: p.bus_name@,
            object_path: p.object_path@,
        }),
    }
}

/// The results that the field maps describe, in order, without those lacking an id.
pub open spec fn results_of(metas: Seq<Vec<(String, WireValue)>>, p: SearchProvider) -> Seq<ResultModel>
    decreases metas.len(),
{
    if metas.len() == 0 {
        Seq::empty()
    } else {
        let rest = results_of(metas.drop_last(), p);
        match result_of(metas.last()@, p) {
            Some(r) => rest.push(r),
            None => rest,
        }
    }
}

/// The value under `key` in a field map.
fn get_field<'a>(meta: &'a Vec<(String, WireValue)>, key: &str) -> (r: Option<&'a WireValue>)
    ensures
        match field(meta@, key@) {
            Some(v) => r is Some && *r->0 == v,
            None => r is None,
        },
{
    let mut i: usize = 0;
    assert(meta@.subrange(0, meta@.len() as int) =~= meta@);
    while i < meta.len()
        invariant
            i <= meta.len(),
            field(meta@, key@) == field(meta@.subrange(i as int, meta@.len() as int), key@),
        decreases meta.len() - i,
    {
        proof {
            let rest = meta@.subrange(i as int, meta@.len() as int);
            assert(rest[0] == meta@[i as int]);
            assert(rest.subrange(1, rest.len() as int) =~= meta@.subrange(i + 1, meta@.len() as int));
        }
        if crate::text::str_eq(meta[i].0.as_str(), key) {
            return Some(&meta[i].1);
        }
        i = i + 1;
    }
    None
}

/// The string under `key` in a field map, if it holds a string.
fn take_str(meta: &Vec<(String, WireValue)>, key: &str) -> (r: Option<String>)
    ensures
        opt_view(r) == str_field(field(meta@, key@)),
{
    match get_field(meta, key) {
        Some(WireValue::Str(s)) => Some(s.clone()),
        _ => None,
    }
}

/// Builds a result from one field map of the metadata call.
pub fn build_result(meta: &Vec<(String, WireValue)>, provider: &SearchProvider) -> (r: Option<SearchResult>)
    ensures
        match result_of(meta@, *provider) {
            Some(m) => r is Some && r->0@ == m,
            None => r is None,
        },
{
    let id = match take_str(meta, "id") {
        Some(id) => id,
        None => return None,
    };
    let name = match take_str(meta, "name") {
        Some(n) => n,
        None => id.clone(),
    };
    let description = match take_str(meta, "description") {
        Some(d) => d,
        None => String::new(),
    };
    let icon = match get_field(meta, "icon") {
        Some(v) => parse_icon_variant(v),
        None => None,
    };
    Some(SearchResult {
        id,
        name,
        description,
        icon,
        app_icon: provider.app_icon.clone(),
        bus_name: provider.bus_name.clone(),
        object_path: provider.object_path.clone(),
    })
}

/// Builds the results of one backend from the answer of its metadata call.
pub fn build_results(metas: &Vec<Vec<(String, WireValue)>>, provider: &SearchProvider) -> (r: Vec<SearchResult>)
    ensures
        batch_view(r@) == results_of(metas@, *provider),
{
    let mut r: Vec<SearchResult> = Vec::new();
    let mut i: usize = 0;
    assert(metas@.subrange(0, 0) =~= Seq::<Vec<(String, WireValue)>>::empty());
    assert(batch_view(r@) =~= Seq::<ResultModel>::empty());
    while i < metas.len()
        invariant
            i <= metas.len(),
            batch_view(r@) == results_of(metas@.subrange(0, i as int), *provider),
        decreases metas.len() - i,
    {
        assert(metas@.subrange(0, i + 1).drop_last() =~= metas@.subrange(0, i as int));
        if let Some(res) = build_result(&metas[i], provider) {
            r.push(res);
            assert(batch_view(r@) =~= batch_view(r@.drop_last()).push(res@));
        }
        i = i + 1;
    }
    assert(metas@.subrange(0, metas@.len() as int) =~= metas@);
    r
}

// ---------------------------------------------------------------------------
// Fan-in of backend answers
// ---------------------------------------------------------------------------

/// How one backend's query ended.
pub enum BackendOutcome {
    /// The backend answered with these results (possibly none).
    Answered(Vec<SearchResult>),
    /// The backend failed or timed out; the text says why.
    Failed(String),
}

/// The batch that an outcome hands to the consumer: only a non-empty answer.
pub open spec fn deliverable(o: BackendOutcome) -> Option<Seq<ResultModel>> {
    match o {
        BackendOutcome::Answered(b) => if b@.len() > 0 { Some(batch_view(b@)) } else { None },
        BackendOutcome::Failed(_) => None,
    }
}

/// The batches delivered for outcomes completing in the given order.
pub open spec fn deliveries(os: Seq<BackendOutcome>) -> Seq<Seq<ResultModel>>
    decreases os.len(),
{
    if os.len() == 0 {
        Seq::empty()
    } else {
        let rest = deliveries(os.drop_last());
        match deliverable(os.last()) {
            Some(b) => rest.push(b),
            None => rest,
        }
    }
}

/// Decides what one completed backend query delivers: its batch when it
/// answered with at least one result, nothing when it answered with none or
/// failed.
pub fn batch_to_deliver(o: BackendOutcome) -> (r: Option<Vec<SearchResult>>)
    ensures
        match deliverable(o) {
            Some(b) => r is Some && batch_view(r->0@) == b,
            None => r is None,
        },
{
    match o {
        BackendOutcome::Answered(b) => if b.len() > 0 { Some(b) } else { None },
        BackendOutcome::Failed(_) => None,
    }
}

/// A backend that answers with results has its batch delivered, whatever
/// the other backends of the same query do and in whatever order they finish.
pub proof fn healthy_backend_delivered(os: Seq<BackendOutcome>, i: int)
    requires
        0 <= i < os.len(),
        deliverable(os[i]) is Some,
    ensures
        deliveries(os).contains(deliverable(os[i])->0),
    decreases os.len(),
{
    let rest = os.drop_last();
    if i == os.len() - 1 {
        assert(deliveries(os).last() == deliverable(os[i])->0);
    } else {
        assert(rest[i] == os[i]);
        healthy_backend_delivered(rest, i);
        let k = choose|k: int| 0 <= k < deliveries(rest).len() && deliveries(rest)[k] == deliverable(os[i])->0;
        match deliverable(os.last()) {
            Some(b) => assert(deliveries(os)[k] == deliverable(os[i])->0),
            None => {},
        }
    }
}

/// A backend that fails or times out changes nothing that the others deliver:
/// the deliveries are those of the same completions without it.
pub proof fn failed_backend_isolated(os: Seq<BackendOutcome>, j: int)
    requires
        0 <= j < os.len(),
        os[j] is Failed,
    ensures
        deliveries(os) == deliveries(os.remove(j)),
    decreases os.len(),
{
    if j == os.len() - 1 {
        assert(os.remove(j) =~= os.drop_last());
    } else {
        let rest = os.drop_last();
        assert(rest[j] == os[j]);
        failed_backend_isolated(rest, j);
        let o2 = os.remove(j);
        assert(o2.drop_last() =~= rest.remove(j));
        assert(o2.last() == os.last());
    }
}

// ---------------------------------------------------------------------------
// Display
// ---------------------------------------------------------------------------

/// How an icon is shown.
#[derive(Debug, Clone, PartialEq, Eq)]
pub enum IconChoice {
    /// An image file.
    FromFile(String),
    /// A name in the icon theme.
    Named(String),
}

/// The icon of a result: its own file icon, else its own themed icon, else
/// the backend's icon, else a generic search icon; empty names do not count.
pub fn result_icon(r: &SearchResult) -> (c: IconChoice)
    ensures
        match r.icon {
            Some(IconData::File(p)) if p@.len() > 0 => c matches IconChoice::FromFile(f) && f@ == p@,
            Some(IconData::Themed(n)) if n@.len() > 0 => c matches IconChoice::Named(x) && x@ == n@,
            _ => if r.app_icon@.len() > 0 {
                c matches IconChoice::Named(x) && x@ == r.app_icon@
            } else {
                c matches IconChoice::Named(x) && x@ == "system-search"@
            },
        },
{
    match &r.icon {
        Some(IconData::File(p)) => {
            if !p.as_str().is_empty() {
                return IconChoice::FromFile(p.clone());
            }
        },
        Some(IconData::Themed(n)) => {
            if !n.as_str().is_empty() {
                return IconChoice::Named(n.clone());
            }
        },
        None => {},
    }
    if !r.app_icon.as_str().is_empty() {
        IconChoice::Named(r.app_icon.clone())
    } else {
        IconChoice::Named("system-search".to_owned())
    }
}

} // verus!
