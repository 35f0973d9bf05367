//! Colon commands of the query line (`:s`, `:ob`, `:obg`, `:f`, ...) and
//! the texts of their results.
use vstd::prelude::*;
use vstd::string::StringSliceAdditionalSpecFns;
use crate::config::{expand_home, expanded, join_path};
use crate::text::{after_prefix, has_prefix, split_first, split_once, strip_prefix, trim, trim_str, chars_of, string_of};

verus! {

/// `(name, argument)` of a colon command: the text after the leading `:`
/// up to the first space, and the trimmed rest.
pub open spec fn colon_parts(query: Seq<char>) -> (Seq<char>, Seq<char>) {
    let rest = query.subrange(1, query.len() as int);
    match split_first(rest, ' ') {
        Some((cmd, arg)) => (cmd, trim(arg)),
        None => (rest, Seq::empty()),
    }
}

/// Splits a query that starts with `:` into command name and argument.
pub fn parse_colon_command(query: &str) -> (r: (String, String))
    requires
        query@.len() > 0,
        query@[0] == ':',
    ensures
        (r.0@, r.1@) == colon_parts(query@),
{
    let chars = chars_of(query);
    let rest = string_of(&chars, 1, chars.len());
    match split_once(rest.as_str(), ' ') {
        Some((cmd, arg)) => (cmd, trim_str(arg.as_str())),
        None => (rest, String::new()),
    }
}

/// Where a colon command is routed.
#[derive(Debug, Clone, PartialEq, Eq)]
pub enum ColonCommand {
    /// `:s`: query the search backends with the argument.
    SearchBackends(String),
    /// `:ob`: note search in the vault.
    VaultFiles(String),
    /// `:obg`: content search in the vault.
    VaultGrep(String),
    /// Any other name: a configured shell command, with its name and argument.
    Custom(String, String),
}

/// Routes a query that starts with `:` by its command name.
pub fn route_colon_command(query: &str) -> (r: ColonCommand)
    requires
        query@.len() > 0,
        query@[0] == ':',
    ensures
        ({
            let (cmd, arg) = colon_parts(query@);
            if cmd == "s"@ {
                r matches ColonCommand::SearchBackends(a) && a@ == arg
            } else if cmd == "ob"@ {
                r matches ColonCommand::VaultFiles(a) && a@ == arg
            } else if cmd == "obg"@ {
                r matches ColonCommand::VaultGrep(a) && a@ == arg
            } else {
                r matches ColonCommand::Custom(c, a) && c@ == cmd && a@ == arg
            }
        }),
{
    let (cmd, arg) = parse_colon_command(query);
    if crate::text::str_eq(cmd.as_str(), "s") {
        ColonCommand::SearchBackends(arg)
    } else if crate::text::str_eq(cmd.as_str(), "ob") {
        ColonCommand::VaultFiles(arg)
    } else if crate::text::str_eq(cmd.as_str(), "obg") {
        ColonCommand::VaultGrep(arg)
    } else {
        ColonCommand::Custom(cmd, arg)
    }
}

/// The template of the configured command `name`, if there is one.
pub open spec fn template_of(commands: Seq<(String, String)>, name: Seq<char>) -> Option<Seq<char>>
    decreases commands.len(),
{
    if commands.len() == 0 {
        None
    } else if commands[0].0@ == name {
        Some(commands[0].1@)
    } else {
        template_of(commands.subrange(1, commands.len() as int), name)
    }
}

/// Looks up the shell template of a configured colon command.
pub fn find_command(commands: &Vec<(String, String)>, name: &str) -> (r: Option<String>)
    ensures
        crate::provider::opt_view(r) == template_of(commands@, name@),
{
    let mut i: usize = 0;
    assert(commands@.subrange(0, commands@.len() as int) =~= commands@);
    while i < commands.len()
        invariant
            i <= commands.len(),
            template_of(commands@, name@) == template_of(commands@.subrange(i as int, commands@.len() as int), name@),
        decreases commands.len() - i,
    {
        proof {
            let rest = commands@.subrange(i as int, commands@.len() as int);
            assert(rest[0] == commands@[i as int]);
            assert(rest.subrange(1, rest.len() as int) =~= commands@.subrange(i + 1, commands@.len() as int));
        }
        if crate::text::str_eq(commands[i].0.as_str(), name) {
            return Some(commands[i].1.clone());
        }
        i = i + 1;
    }
    None
}

/// The argument of a `:ob ` query, trimmed; empty without one.
pub fn extract_obsidian_arg(text: &str) -> (r: String)
    ensures
        r@ == if has_prefix(text@, ":ob "@) { trim(after_prefix(text@, ":ob "@)) } else { Seq::<char>::empty() },
{
    match strip_prefix(text, ":ob ") {
        Some(rest) => trim_str(rest),
        None => String::new(),
    }
}

/// `s` without its leading `/` characters.
pub open spec fn without_leading_slashes(s: Seq<char>) -> Seq<char>
    decreases s.len(),
{
    if s.len() > 0 && s[0] == '/' {
        without_leading_slashes(s.subrange(1, s.len() as int))
    } else {
        s
    }
}

proof fn lemma_skip_slashes(s: Seq<char>, k: int)
    requires
        0 <= k <= s.len(),
        forall|j: int| 0 <= j < k ==> #[trigger] s[j] == '/',
    ensures
        without_leading_slashes(s) == without_leading_slashes(s.subrange(k, s.len() as int)),
    decreases k,
{
    if k == 0 {
        assert(s.subrange(0, s.len() as int) =~= s);
    } else {
        let t = s.subrange(1, s.len() as int);
        assert forall|j: int| 0 <= j < k - 1 implies #[trigger] t[j] == '/' by {
            assert(t[j] == s[j + 1]);
        }
        lemma_skip_slashes(t, k - 1);
        assert(t.subrange(k - 1, t.len() as int) =~= s.subrange(k, s.len() as int));
    }
}

/// A path shown relative to the vault: the vault prefix and the slashes
/// after it removed, or the path unchanged when it is not inside.
pub fn relative_to_vault(path: &str, vault: Option<&str>) -> (r: String)
    ensures
        r@ == match vault {
            Some(v) => if has_prefix(path@, v@) {
                without_leading_slashes(after_prefix(path@, v@))
            } else {
                path@
            },
            None => path@,
        },
{
    let rest = match vault {
        Some(v) => match strip_prefix(path, v) {
            Some(rest) => rest,
            None => return path.to_owned(),
        },
        None => return path.to_owned(),
    };
    let chars = chars_of(rest);
    let mut k: usize = 0;
    while k < chars.len() && chars[k] == '/'
        invariant
            k <= chars.len(),
            forall|j: int| 0 <= j < k ==> #[trigger] chars@[j] == '/',
        decreases chars.len() - k,
    {
        k = k + 1;
    }
    proof {
        lemma_skip_slashes(chars@, k as int);
    }
    string_of(&chars, k, chars.len())
}

/// What a line of vault search output opens.
#[derive(Debug, Clone, PartialEq, Eq)]
pub enum VaultTarget {
    /// A file at a line: `file:line:context`.
    FileLine(String, String),
    /// A file.
    File(String),
}

/// Reads a line of vault content search output (`file:line:context`):
/// the file and line when both are there, else the file, else the whole
/// line as a path.
pub fn open_obsidian_grep_line(line: &str) -> (r: VaultTarget)
    ensures
        match split_first(line@, ':') {
            Some((file, rest)) => match split_first(rest, ':') {
                Some((num, _)) => r matches VaultTarget::FileLine(f, n) && f@ == file && n@ == num,
                None => r matches VaultTarget::File(f) && f@ == file,
            },
            None => r matches VaultTarget::File(f) && f@ == line@,
        },
{
    match split_once(line, ':') {
        Some((file, rest)) => match split_once(rest.as_str(), ':') {
            Some((num, _)) => VaultTarget::FileLine(file, num),
            None => VaultTarget::File(file),
        },
        None => VaultTarget::File(line.to_owned()),
    }
}

/// The actions of the vault bar.
#[derive(Debug, Clone, Copy, PartialEq, Eq)]
pub enum ObsidianAction {
    /// Open the whole vault in the vault app.
    OpenVault,
    /// Create a new note holding the optional text.
    NewNote,
    /// Open today's daily note, appending the optional text.
    DailyNote,
    /// Append the text to the quick note.
    QuickNote,
}

// ---------------------------------------------------------------------------
// Vault URIs
// ---------------------------------------------------------------------------

/// A byte that URL encoding keeps: ASCII letters and digits, `-`, `.`, `_`, `~`.
pub open spec fn is_unreserved(b: u8) -> bool {
    (0x30 <= b && b <= 0x39) || (0x41 <= b && b <= 0x5a) || (0x61 <= b && b <= 0x7a) || b == 0x2d
        || b == 0x2e || b == 0x5f || b == 0x7e
}

/// The upper-case hexadecimal digit of `d < 16`.
pub open spec fn hex_digit(d: u8) -> char {
    if d < 10 { (('0' as u8) + d) as char } else { (('A' as u8) + d - 10) as char }
}

/// The percent-encoding of `bytes`: kept bytes as they are, every other
/// byte as `%` and two upper-case hexadecimal digits.
pub open spec fn percent_encoded(bytes: Seq<u8>) -> Seq<char>
    decreases bytes.len(),
{
    if bytes.len() == 0 {
        Seq::empty()
    } else {
        let b = bytes[0];
        let head = if is_unreserved(b) { seq![b as char] } else { seq!['%', hex_digit(b / 16), hex_digit(b % 16)] };
        head + percent_encoded(bytes.subrange(1, bytes.len() as int))
    }
}

/// Relies on `urlencoding::encode`: percent-encodes every UTF-8 byte of
/// `s` except ASCII letters, digits, `-`, `.`, `_` and `~`.
#[verifier::external_body]
fn url_encode(s: &str) -> (r: String)
    ensures
        r@ == percent_encoded(s.spec_bytes()),
{
    urlencoding::encode(s).into_owned()
}

/// The URI that opens a note by its path.
pub open spec fn path_uri(path: Seq<char>) -> Seq<char> {
    "obsidian://open?path="@ + percent_encoded(crate::text::utf8_of(path))
}

/// The URI that opens the note at `path` in the vault app.
pub fn obsidian_path_uri(path: &str) -> (r: String)
    ensures
        r@ == path_uri(path@),
{
    let mut uri = "obsidian://open?path=".to_owned();
    let enc = url_encode(path);
    uri.append(enc.as_str());
    uri
}

/// The URI that opens the vault named `vault_name`.
pub fn obsidian_vault_uri(vault_name: &str) -> (r: String)
    ensures
        r@ == "obsidian://open?vault="@ + percent_encoded(crate::text::utf8_of(vault_name@)),
{
    let mut uri = "obsidian://open?vault=".to_owned();
    let enc = url_encode(vault_name);
    uri.append(enc.as_str());
    uri
}

/// The URI that opens the note `file_path` at `line`: a relative path is
/// taken inside the vault, whose path may start with `~` for `home`.
pub fn obsidian_line_uri(vault: &str, home: &str, file_path: &str, line: &str) -> (r: String)
    ensures
        r@ == path_uri(if file_path@.len() > 0 && file_path@[0] == '/' {
            file_path@
        } else {
            join_path(expanded(vault@, home@), file_path@)
        }) + "&line="@ + line@,
{
    let chars = chars_of(file_path);
    let path = if chars.len() > 0 && chars[0] == '/' {
        file_path.to_owned()
    } else {
        let v = expand_home(vault, home);
        crate::config::join(v.as_str(), file_path)
    };
    let mut uri = obsidian_path_uri(path.as_str());
    uri.append("&line=");
    uri.append(line);
    uri
}

// ---------------------------------------------------------------------------
// `file:line:` output lines
// ---------------------------------------------------------------------------

/// The end of the run of ASCII digits of `s` that starts at `i`.
pub open spec fn digits_end(s: Seq<char>, i: int) -> int {
    i + crate::calculator::digit_run(s.subrange(i, s.len() as int)) as int
}

/// `s` reads `file:line:` with its file part ending at `p`: a `:` at
/// `p >= 1`, then at least one digit, then a `:`.
pub open spec fn file_line_at(s: Seq<char>, p: int) -> bool {
    &&& 1 <= p < s.len()
    &&& s[p] == ':'
    &&& digits_end(s, p + 1) > p + 1
    &&& digits_end(s, p + 1) < s.len()
    &&& s[digits_end(s, p + 1)] == ':'
}

/// Splits an output line of the form `file:line:rest` into file and line
/// number. The file part is the longest that fits, as a greedy
/// `^(.+):([0-9]+):` match takes it; `None` when the line has no such form.
pub fn parse_file_line(line: &str) -> (r: Option<(String, String)>)
    ensures
        r is Some <==> exists|p: int| file_line_at(line@, p),
        r matches Some((f, n)) ==> exists|p: int| {
            &&& file_line_at(line@, p)
            &&& forall|p2: int| p < p2 < line@.len() ==> !file_line_at(line@, p2)
            &&& f@ == line@.subrange(0, p)
            &&& n@ == line@.subrange(p + 1, digits_end(line@, p + 1))
        },
{
    let c = chars_of(line);
    let mut p: usize = c.len();
    while p > 1
        invariant
            c@ == line@,
            p <= c.len(),
            forall|p2: int| p <= p2 < c@.len() ==> !file_line_at(line@, p2),
        decreases p,
    {
        p = p - 1;
        if c[p] == ':' {
            let q = crate::calculator::skip_digits(&c, p + 1);
            if q > p + 1 && q < c.len() && c[q] == ':' {
                assert(file_line_at(line@, p as int));
                return Some((string_of(&c, 0, p), string_of(&c, p + 1, q)));
            }
        }
        assert(!file_line_at(line@, p as int));
    }
    assert forall|p2: int| !file_line_at(line@, p2) by {
        if 0 <= p2 < p {
            assert(p2 < 1);
        }
    }
    None
}

// ---------------------------------------------------------------------------
// Activating an output line
// ---------------------------------------------------------------------------

/// What activating a line of command output does.
#[derive(Debug, Clone, PartialEq, Eq)]
pub enum LineAction {
    /// Open a vault search line in the vault app (needs a configured vault).
    VaultGrepLine(VaultTarget),
    /// Open the file at this path in the vault app (needs a configured vault).
    VaultFile(String),
    /// Open the file or `file:line:` location with the desktop's tools.
    FileOrLine(String),
}

/// The action of a line of command output in the given mode.
pub fn line_action(mode: crate::app_mode::AppMode, line: &str) -> (r: LineAction)
    ensures
        match mode {
            crate::app_mode::AppMode::ObsidianGrep => r matches LineAction::VaultGrepLine(_),
            crate::app_mode::AppMode::Obsidian => r matches LineAction::VaultFile(p) && p@ == line@,
            _ => r matches LineAction::FileOrLine(p) && p@ == line@,
        },
        r matches LineAction::VaultGrepLine(t) ==> match split_first(line@, ':') {
            Some((file, rest)) => match split_first(rest, ':') {
                Some((num, _)) => t matches VaultTarget::FileLine(f, n) && f@ == file && n@ == num,
                None => t matches VaultTarget::File(f) && f@ == file,
            },
            None => t matches VaultTarget::File(f) && f@ == line@,
        },
{
    match mode {
        crate::app_mode::AppMode::ObsidianGrep => LineAction::VaultGrepLine(open_obsidian_grep_line(line)),
        crate::app_mode::AppMode::Obsidian => LineAction::VaultFile(line.to_owned()),
        _ => LineAction::FileOrLine(line.to_owned()),
    }
}

} // verus!
