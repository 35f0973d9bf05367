//! Desktop entries: the part of a `.desktop` file that the launcher reads,
//! and the command line that launching runs. Finding and reading the files
//! is up to the caller.
use vstd::prelude::*;
use fuzzy_matcher::FuzzyMatcher;
use fuzzy_matcher::skim::SkimMatcherV2;
use crate::text::{after_prefix, has_prefix, lines, lines_of, starts_with, str_eq, strip_prefix, trim, trim_str, views_of, words, words_of, chars_of};

verus! {

/// A launchable application read from a desktop entry.
#[derive(Debug, Clone)]
pub struct DesktopApp {
    /// The `Name=` value.
    pub name: String,
    /// The `Exec=` value.
    pub command: String,
    /// The `Comment=` value, possibly empty.
    pub description: String,
    /// The `Icon=` value, possibly empty.
    pub icon: String,
    /// The application runs in a terminal.
    pub terminal: bool,
}

/// `s` is `true` in any mix of upper and lower case.
pub open spec fn is_true_word(s: Seq<char>) -> bool {
    &&& s.len() == 4
    &&& (s[0] == 't' || s[0] == 'T')
    &&& (s[1] == 'r' || s[1] == 'R')
    &&& (s[2] == 'u' || s[2] == 'U')
    &&& (s[3] == 'e' || s[3] == 'E')
}

/// What the reader knows after some lines of a desktop entry.
pub ghost struct EntryScan {
    pub in_entry: bool,
    pub done: bool,
    pub name: Option<Seq<char>>,
    pub command: Option<Seq<char>>,
    pub description: Seq<char>,
    pub icon: Seq<char>,
    pub app_type: Seq<char>,
    pub no_display: bool,
    pub hidden: bool,
    pub terminal: bool,
}

/// One line read. Only the `[Desktop Entry]` group counts: lines before it
/// are skipped and the next group ends the reading. The first `Name=`,
/// `Comment=` and `Icon=` win; the last `Type=`, `Exec=`, `NoDisplay=`,
/// `Hidden=` and `Terminal=` win. Values are trimmed.
pub open spec fn entry_step(st: EntryScan, raw: Seq<char>) -> EntryScan {
    let l = trim(raw);
    if st.done {
        st
    } else if l == "[Desktop Entry]"@ {
        EntryScan { in_entry: true, ..st }
    } else if has_prefix(l, "["@) {
        if st.in_entry { EntryScan { done: true, ..st } } else { st }
    } else if !st.in_entry {
        st
    } else if has_prefix(l, "Type="@) {
        EntryScan { app_type: trim(after_prefix(l, "Type="@)), ..st }
    } else if has_prefix(l, "Name="@) {
        if st.name is None { EntryScan { name: Some(trim(after_prefix(l, "Name="@))), ..st } } else { st }
    } else if has_prefix(l, "Exec="@) {
        EntryScan { command: Some(trim(after_prefix(l, "Exec="@))), ..st }
    } else if has_prefix(l, "Comment="@) {
        if st.description.len() == 0 {
            EntryScan { description: trim(after_prefix(l, "Comment="@)), ..st }
        } else {
            st
        }
    } else if has_prefix(l, "Icon="@) {
        if st.icon.len() == 0 { EntryScan { icon: trim(after_prefix(l, "Icon="@)), ..st } } else { st }
    } else if has_prefix(l, "NoDisplay="@) {
        EntryScan { no_display: is_true_word(trim(after_prefix(l, "NoDisplay="@))), ..st }
    } else if has_prefix(l, "Hidden="@) {
        EntryScan { hidden: is_true_word(trim(after_prefix(l, "Hidden="@))), ..st }
    } else if has_prefix(l, "Terminal="@) {
        EntryScan { terminal: is_true_word(trim(after_prefix(l, "Terminal="@))), ..st }
    } else {
        st
    }
}

pub open spec fn entry_scan(ls: Seq<Seq<char>>) -> EntryScan
    decreases ls.len(),
{
    if ls.len() == 0 {
        EntryScan {
            in_entry: false,
            done: false,
            name: None,
            command: None,
            description: Seq::empty(),
            icon: Seq::empty(),
            app_type: Seq::empty(),
            no_display: false,
            hidden: false,
            terminal: false,
        }
    } else {
        entry_step(entry_scan(ls.drop_last()), ls.last())
    }
}

/// The application that a desktop entry's text describes: only an
/// `Application` that is neither hidden nor `NoDisplay`, with a name and a
/// command.
pub open spec fn app_of(content: Seq<char>) -> Option<EntryScan> {
    let st = entry_scan(lines_of(content));
    if st.app_type == "Application"@ && !st.no_display && !st.hidden && st.name is Some && st.command is Some {
        Some(st)
    } else {
        None
    }
}

fn is_true_text(s: &str) -> (r: bool)
    ensures
        r == is_true_word(s@),
{
    let c = chars_of(s);
    c.len() == 4 && (c[0] == 't' || c[0] == 'T') && (c[1] == 'r' || c[1] == 'R') && (c[2] == 'u'
        || c[2] == 'U') && (c[3] == 'e' || c[3] == 'E')
}

/// The trimmed value of `line` after `key`, if the line starts with it.
fn value_after(line: &str, key: &str) -> (r: Option<String>)
    ensures
        has_prefix(line@, key@) <==> r is Some,
        r is Some ==> r->0@ == trim(after_prefix(line@, key@)),
{
    match strip_prefix(line, key) {
        Some(v) => Some(trim_str(v)),
        None => None,
    }
}

/// Reads a desktop entry's text; `None` unless it describes a displayable
/// application with a name and a command.
pub fn parse_desktop_file(content: &str) -> (r: Option<DesktopApp>)
    ensures
        match app_of(content@) {
            Some(st) => r is Some && r->0.name@ == st.name->0 && r->0.command@ == st.command->0
                && r->0.description@ == st.description && r->0.icon@ == st.icon
                && r->0.terminal == st.terminal,
            None => r is None,
        },
{
    let ls = lines(content);
    let mut name: Option<String> = None;
    let mut command: Option<String> = None;
    let mut description = String::new();
    let mut icon = String::new();
    let mut app_type = String::new();
    let mut no_display = false;
    let mut hidden = false;
    let mut terminal = false;
    let mut in_entry = false;
    let mut done = false;
    let mut i: usize = 0;
    assert(views_of(ls@).subrange(0, 0) =~= Seq::<Seq<char>>::empty());
    while i < ls.len()
        invariant
            i <= ls.len(),
            views_of(ls@) == lines_of(content@),
            ({
                let st = entry_scan(views_of(ls@).subrange(0, i as int));
                &&& st.in_entry == in_entry
                &&& st.done == done
                &&& st.name == crate::provider::opt_view(name)
                &&& st.command == crate::provider::opt_view(command)
                &&& st.description == description@
                &&& st.icon == icon@
                &&& st.app_type == app_type@
                &&& st.no_display == no_display
                &&& st.hidden == hidden
                &&& st.terminal == terminal
            }),
        decreases ls.len() - i,
    {
        proof {
            let all = views_of(ls@);
            assert(all.subrange(0, i + 1).drop_last() =~= all.subrange(0, i as int));
            assert(all.subrange(0, i + 1).last() == ls@[i as int]@);
        }
        if !done {
            let line = trim_str(ls[i].as_str());
            let l = line.as_str();
            if str_eq(l, "[Desktop Entry]") {
                in_entry = true;
            } else if starts_with(l, "[") {
                if in_entry {
                    done = true;
                }
            } else if in_entry {
                if let Some(v) = value_after(l, "Type=") {
                    app_type = v;
                } else if let Some(v) = value_after(l, "Name=") {
                    if name.is_none() {
                        name = Some(v);
                    }
                } else if let Some(v) = value_after(l, "Exec=") {
                    command = Some(v);
                } else if let Some(v) = value_after(l, "Comment=") {
                    if description.as_str().is_empty() {
                        description = v;
                    }
                } else if let Some(v) = value_after(l, "Icon=") {
                    if icon.as_str().is_empty() {
                        icon = v;
                    }
                } else if let Some(v) = value_after(l, "NoDisplay=") {
                    no_display = is_true_text(v.as_str());
                } else if let Some(v) = value_after(l, "Hidden=") {
                    hidden = is_true_text(v.as_str());
                } else if let Some(v) = value_after(l, "Terminal=") {
                    terminal = is_true_text(v.as_str());
                }
            }
        }
        i = i + 1;
    }
    assert(views_of(ls@).subrange(0, ls@.len() as int) =~= views_of(ls@));
    if !str_eq(app_type.as_str(), "Application") || no_display || hidden {
        return None;
    }
    match (name, command) {
        (Some(n), Some(e)) => Some(DesktopApp { name: n, command: e, description, icon, terminal }),
        _ => None,
    }
}

/// A desktop-entry field code (`%f`, `%U`, ...) that launching drops.
pub open spec fn is_field_code(w: Seq<char>) -> bool {
    w.len() == 2 && w[0] == '%' && (w[1] == 'f' || w[1] == 'F' || w[1] == 'u' || w[1] == 'U' || w[1]
        == 'd' || w[1] == 'D' || w[1] == 'n' || w[1] == 'N' || w[1] == 'i' || w[1] == 'c' || w[1]
        == 'k' || w[1] == 'v' || w[1] == 'm')
}

/// The words that are not field codes, in order.
pub open spec fn without_codes(ws: Seq<Seq<char>>) -> Seq<Seq<char>>
    decreases ws.len(),
{
    if ws.len() == 0 {
        ws
    } else if is_field_code(ws.last()) {
        without_codes(ws.drop_last())
    } else {
        without_codes(ws.drop_last()).push(ws.last())
    }
}

/// The words joined by single spaces.
pub open spec fn joined(ws: Seq<Seq<char>>) -> Seq<char>
    decreases ws.len(),
{
    if ws.len() == 0 {
        Seq::empty()
    } else if ws.len() == 1 {
        ws[0]
    } else {
        joined(ws.drop_last()) + seq![' '] + ws.last()
    }
}

fn field_code(w: &str) -> (r: bool)
    ensures
        r == is_field_code(w@),
{
    let c = chars_of(w);
    c.len() == 2 && c[0] == '%' && (c[1] == 'f' || c[1] == 'F' || c[1] == 'u' || c[1] == 'U' || c[1]
        == 'd' || c[1] == 'D' || c[1] == 'n' || c[1] == 'N' || c[1] == 'i' || c[1] == 'c' || c[1]
        == 'k' || c[1] == 'v' || c[1] == 'm')
}

/// The command line of an `Exec=` value without its field codes, its words
/// separated by single spaces.
pub fn clean_exec(exec_line: &str) -> (r: String)
    ensures
        r@ == joined(without_codes(words_of(exec_line@))),
{
    let ws = words(exec_line);
    let mut out = String::new();
    let ghost mut kept: Seq<Seq<char>> = Seq::empty();
    let mut any = false;
    let mut i: usize = 0;
    assert(views_of(ws@).subrange(0, 0) =~= Seq::<Seq<char>>::empty());
    while i < ws.len()
        invariant
            i <= ws.len(),
            views_of(ws@) == words_of(exec_line@),
            kept == without_codes(views_of(ws@).subrange(0, i as int)),
            out@ == joined(kept),
            any == (kept.len() > 0),
        decreases ws.len() - i,
    {
        proof {
            let all = views_of(ws@);
            assert(all.subrange(0, i + 1).drop_last() =~= all.subrange(0, i as int));
            assert(all.subrange(0, i + 1).last() == ws@[i as int]@);
        }
        if !field_code(ws[i].as_str()) {
            if any {
                crate::text::push_char(&mut out, ' ');
            }
            any = true;
            let ghost before = out@;
            out.append(ws[i].as_str());
            proof {
                let nk = kept.push(ws@[i as int]@);
                assert(nk.drop_last() =~= kept);
                if kept.len() == 0 {
                    assert(out@ =~= nk[0]);
                } else {
                    assert(out@ =~= joined(kept) + seq![' '] + nk.last());
                }
                kept = nk;
            }
        }
        i = i + 1;
    }
    assert(views_of(ws@).subrange(0, ws@.len() as int) =~= views_of(ws@));
    out
}

// ---------------------------------------------------------------------------
// Ranking applications against a query
// ---------------------------------------------------------------------------

/// The score that the skim fuzzy matcher, with its default settings, gives
/// `choice` against `pattern`; `None` when it does not match.
pub uninterp spec fn skim_score(choice: Seq<char>, pattern: Seq<char>) -> Option<i64>;

/// Relies on `fuzzy_matcher::skim::SkimMatcherV2::fuzzy_match` (default
/// settings): its score depends on the two strings alone.
#[verifier::external_body]
fn fuzzy_score(choice: &str, pattern: &str) -> (r: Option<i64>)
    ensures
        r == skim_score(choice@, pattern@),
{
    SkimMatcherV2::default().fuzzy_match(choice, pattern)
}

/// `s / 2` rounded toward zero, as Rust's integer division does.
pub open spec fn half(s: i64) -> i64 {
    if s >= 0 { (s / 2) as i64 } else { (-((-(s as int)) / 2)) as i64 }
}

/// The score of an application from the scores of its name and of its
/// description: the larger one, the description counting half; `None`
/// when neither matched.
pub open spec fn combined_score(name: Option<i64>, desc: Option<i64>) -> Option<i64> {
    match (name, desc) {
        (None, None) => None,
        (Some(a), None) => Some(a),
        (None, Some(b)) => Some(half(b)),
        (Some(a), Some(b)) => Some(if a >= half(b) { a } else { half(b) }),
    }
}

fn halve(s: i64) -> (r: i64)
    ensures
        r == half(s),
{
    if s >= 0 {
        s / 2
    } else {
        let t: u64 = ((-(s as i128)) as u64) / 2;
        -(t as i128) as i64
    }
}

/// Combines the scores of an application's name and description.
pub fn combine_scores(name: Option<i64>, desc: Option<i64>) -> (r: Option<i64>)
    ensures
        r == combined_score(name, desc),
{
    match (name, desc) {
        (None, None) => None,
        (Some(a), None) => Some(a),
        (None, Some(b)) => Some(halve(b)),
        (Some(a), Some(b)) => {
            let h = halve(b);
            Some(if a >= h { a } else { h })
        },
    }
}

/// Index `a` goes before index `b`: a higher score, or an equal score and
/// an earlier index.
pub open spec fn ranks_before(scores: Seq<Option<i64>>, a: int, b: int) -> bool {
    let sa = scores[a]->0;
    let sb = scores[b]->0;
    sa > sb || (sa == sb && a < b)
}

/// `r` lists the best matching indices: each has a score, they come in
/// rank order, every other matching index ranks after all of them, and
/// there are `max_results` of them unless fewer match.
pub open spec fn is_ranking(scores: Seq<Option<i64>>, max_results: usize, r: Seq<usize>) -> bool {
    &&& r.len() <= max_results
    &&& forall|k: int| 0 <= k < r.len() ==> #[trigger] r[k] < scores.len() && scores[r[k] as int] is Some
    &&& forall|k1: int, k2: int| 0 <= k1 < k2 < r.len() ==> ranks_before(scores, #[trigger] r[k1] as int, #[trigger] r[k2] as int)
    &&& forall|j: int, k: int| 0 <= j < scores.len() && #[trigger] scores[j] is Some && !r.contains(j as usize) && 0 <= k < r.len()
        ==> ranks_before(scores, #[trigger] r[k] as int, j)
    &&& r.len() < max_results ==> forall|j: int| 0 <= j < scores.len() && #[trigger] scores[j] is Some ==> r.contains(j as usize)
}

/// The indices of the `max_results` best scores, best first; equal scores
/// keep the order of the indices.
pub fn rank_by_scores(scores: &Vec<Option<i64>>, max_results: usize) -> (r: Vec<usize>)
    ensures
        is_ranking(scores@, max_results, r@),
{
    let n = scores.len();
    let mut taken: Vec<bool> = Vec::new();
    let mut i: usize = 0;
    while i < n
        invariant
            i <= n,
            n == scores.len(),
            taken@.len() == i,
            forall|j: int| 0 <= j < i ==> !#[trigger] taken@[j],
        decreases n - i,
    {
        taken.push(false);
        i = i + 1;
    }
    let mut r: Vec<usize> = Vec::new();
    let mut done = false;
    while r.len() < max_results && !done
        invariant
            n == scores.len(),
            taken@.len() == n,
            r@.len() <= max_results,
            forall|j: int| 0 <= j < n ==> (#[trigger] taken@[j] <==> r@.contains(j as usize)),
            forall|k: int| 0 <= k < r@.len() ==> #[trigger] r@[k] < n && scores@[r@[k] as int] is Some,
            forall|k1: int, k2: int| 0 <= k1 < k2 < r@.len() ==> ranks_before(scores@, #[trigger] r@[k1] as int, #[trigger] r@[k2] as int),
            forall|j: int, k: int| 0 <= j < n && #[trigger] scores@[j] is Some && !r@.contains(j as usize) && 0 <= k < r@.len()
                ==> ranks_before(scores@, #[trigger] r@[k] as int, j),
            done ==> forall|j: int| 0 <= j < n && #[trigger] scores@[j] is Some ==> r@.contains(j as usize),
        decreases max_results - r@.len(), if done { 0int } else { 1int },
    {
        let mut best: Option<usize> = None;
        let mut j: usize = 0;
        while j < n
            invariant
                n == scores.len(),
                taken@.len() == n,
                j <= n,
                best matches Some(b) ==> b < j && !taken@[b as int] && scores@[b as int] is Some,
                best matches Some(b) ==> forall|x: int| 0 <= x < j && x != b && !taken@[x] && #[trigger] scores@[x] is Some
                    ==> ranks_before(scores@, b as int, x),
                best is None ==> forall|x: int| 0 <= x < j ==> taken@[x] || !(#[trigger] scores@[x] is Some),
            decreases n - j,
        {
            if !taken[j] {
                if let Some(sj) = scores[j] {
                    match best {
                        None => {
                            best = Some(j);
                        },
                        Some(b) => {
                            let sb = scores[b].unwrap();
                            if sj > sb {
                                best = Some(j);
                            }
                        },
                    }
                }
            }
            j = j + 1;
        }
        match best {
            None => {
                done = true;
            },
            Some(b) => {
                let ghost old_r = r@;
                r.push(b);
                taken.set(b, true);
                proof {
                    assert forall|x: int| 0 <= x < n implies (#[trigger] taken@[x] <==> r@.contains(x as usize)) by {
                        if x == b as int {
                            assert(r@[old_r.len() as int] == b);
                        } else {
                            if r@.contains(x as usize) {
                                let k = choose|k: int| 0 <= k < r@.len() && r@[k] == x as usize;
                                assert(k < old_r.len());
                                assert(old_r[k] == x as usize);
                            }
                            if old_r.contains(x as usize) {
                                let k = choose|k: int| 0 <= k < old_r.len() && old_r[k] == x as usize;
                                assert(r@[k] == x as usize);
                            }
                        }
                    }
                    assert forall|k1: int, k2: int| 0 <= k1 < k2 < r@.len() implies ranks_before(scores@, #[trigger] r@[k1] as int, #[trigger] r@[k2] as int) by {
                        if k2 == old_r.len() {
                            assert(!old_r.contains(b));
                            assert(old_r[k1] == r@[k1]);
                        } else {
                            assert(old_r[k1] == r@[k1] && old_r[k2] == r@[k2]);
                        }
                    }
                    assert forall|x: int, k: int| 0 <= x < n && #[trigger] scores@[x] is Some && !r@.contains(x as usize) && 0 <= k < r@.len()
                        implies ranks_before(scores@, #[trigger] r@[k] as int, x) by {
                        assert(r@[old_r.len() as int] == b);
                        if k < old_r.len() {
                            assert(old_r[k] == r@[k]);
                            if old_r.contains(x as usize) {
                                let k0 = choose|k0: int| 0 <= k0 < old_r.len() && old_r[k0] == x as usize;
                                assert(r@[k0] == x as usize);
                            }
                        } else {
                            assert(x != b as int);
                            assert(!taken@[x]);
                        }
                    }
                }
            },
        }
    }
    r
}

/// The indices of the applications to show for `query`, best first: all of
/// them in order for an empty query; otherwise those whose name or
/// description matches, ranked by `combined_score`, at most `max_results`.
pub fn rank_apps(apps: &Vec<DesktopApp>, query: &str, max_results: usize) -> (r: Vec<usize>)
    ensures
        query@.len() == 0 ==> r@ == Seq::new(apps@.len(), |i: int| i as usize),
        query@.len() > 0 ==> exists|scores: Seq<Option<i64>>| {
            &&& scores.len() == apps@.len()
            &&& forall|i: int| 0 <= i < apps@.len() ==> #[trigger] scores[i] == combined_score(
                skim_score(apps@[i].name@, query@),
                if apps@[i].description@.len() > 0 {
                    skim_score(apps@[i].description@, query@)
                } else {
                    None
                },
            )
            &&& is_ranking(scores, max_results, r@)
        },
{
    if query.is_empty() {
        let mut r: Vec<usize> = Vec::new();
        let mut i: usize = 0;
        while i < apps.len()
            invariant
                i <= apps.len(),
                r@ == Seq::new(i as nat, |k: int| k as usize),
            decreases apps.len() - i,
        {
            r.push(i);
            assert(r@ =~= Seq::new((i + 1) as nat, |k: int| k as usize));
            i = i + 1;
        }
        return r;
    }
    let mut scores: Vec<Option<i64>> = Vec::new();
    let mut i: usize = 0;
    while i < apps.len()
        invariant
            i <= apps.len(),
            scores@.len() == i,
            forall|k: int| 0 <= k < i ==> #[trigger] scores@[k] == combined_score(
                skim_score(apps@[k].name@, query@),
                if apps@[k].description@.len() > 0 {
                    skim_score(apps@[k].description@, query@)
                } else {
                    None
                },
            ),
        decreases apps.len() - i,
    {
        let name_score = fuzzy_score(apps[i].name.as_str(), query);
        let desc_score = if !apps[i].description.as_str().is_empty() {
            fuzzy_score(apps[i].description.as_str(), query)
        } else {
            None
        };
        scores.push(combine_scores(name_score, desc_score));
        i = i + 1;
    }
    rank_by_scores(&scores, max_results)
}

/// The flag that puts a command line after a terminal's own arguments:
/// `--` for the GNOME, XFCE and kitty terminals, `-e` for the others.
pub fn terminal_command_flag(term: &str) -> (r: &'static str)
    ensures
        r@ == if term@ == "gnome-terminal"@ || term@ == "xfce4-terminal"@ || term@ == "kitty"@ {
            "--"@
        } else {
            "-e"@
        },
{
    if str_eq(term, "gnome-terminal") || str_eq(term, "xfce4-terminal") || str_eq(term, "kitty") {
        "--"
    } else {
        "-e"
    }
}

/// How an application's icon is shown: a generic executable icon when it
/// names none, an image file for an absolute path, a themed name otherwise.
pub fn app_icon(icon: &str) -> (c: crate::provider::IconChoice)
    ensures
        if icon@.len() == 0 {
            c matches crate::provider::IconChoice::Named(x) && x@ == "application-x-executable"@
        } else if icon@[0] == '/' {
            c matches crate::provider::IconChoice::FromFile(f) && f@ == icon@
        } else {
            c matches crate::provider::IconChoice::Named(x) && x@ == icon@
        },
{
    let c = chars_of(icon);
    if c.len() == 0 {
        crate::provider::IconChoice::Named("application-x-executable".to_owned())
    } else if c[0] == '/' {
        crate::provider::IconChoice::FromFile(icon.to_owned())
    } else {
        crate::provider::IconChoice::Named(icon.to_owned())
    }
}

} // verus!
