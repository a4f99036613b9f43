//! Application configuration read from key/value pairs (the process
//! environment in the application).
use vstd::prelude::*;
use vstd::string::*;

use crate::error::{Error, ErrorV};
use crate::graph::GraphRuntimeConfig;
use crate::text::{
    blank, chars_of, is_blank, lower, lowercase, owned, split_chars, split_on, string_of, text_eq,
    trim, trim_text, views,
};

verus! {

/// Settings of the task planner.
#[derive(Debug)]
pub struct PlannerRuntimeConfig {
    pub enabled: bool,
    pub client_type: String,
    pub timeout_ms: u64,
    pub compatibility_direct_dispatch: bool,
}

/// One browsable workspace root.
#[derive(Debug)]
pub struct WorkspaceRootConfig {
    pub root_id: String,
    pub label: String,
    pub path: String,
}

/// The workspace roots that may be browsed.
#[derive(Debug)]
pub struct WorkspaceBrowserConfig {
    pub roots: Vec<WorkspaceRootConfig>,
}

/// The whole application configuration.
///
/// `bind_addr` holds the listen address as text; the application turns it into
/// a socket address before it binds.
#[derive(Debug)]
pub struct AppConfig {
    pub bind_addr: String,
    pub database_url: String,
    pub external_api_token: Option<String>,
    pub run_migrations: bool,
    pub planner: PlannerRuntimeConfig,
    pub graph: GraphRuntimeConfig,
    pub workspace_browser: WorkspaceBrowserConfig,
}

/// The value of a workspace root: its three fields.
pub open spec fn root_view(r: WorkspaceRootConfig) -> (Seq<char>, Seq<char>, Seq<char>) {
    (r.root_id@, r.label@, r.path@)
}

/// The views of the key/value pairs.
pub open spec fn pairs_view(vars: Seq<(String, String)>) -> Seq<(Seq<char>, Seq<char>)> {
    vars.map_values(|p: (String, String)| (p.0@, p.1@))
}

/// The value of the first pair whose key is `key`.
pub open spec fn lookup(vars: Seq<(Seq<char>, Seq<char>)>, key: Seq<char>) -> Option<Seq<char>>
    decreases vars.len(),
{
    if vars.len() == 0 {
        None
    } else if vars[0].0 == key {
        Some(vars[0].1)
    } else {
        lookup(vars.drop_first(), key)
    }
}

/// The boolean a configuration word stands for, case-insensitively.
pub open spec fn bool_word(value: Seq<char>) -> Option<bool> {
    let l = lower(value);
    if l == "1"@ || l == "true"@ || l == "yes"@ || l == "on"@ {
        Some(true)
    } else if l == "0"@ || l == "false"@ || l == "no"@ || l == "off"@ {
        Some(false)
    } else {
        None
    }
}

/// The text `{value:?}` formats to (a quoted, escaped string literal).
pub uninterp spec fn debug_text(value: Seq<char>) -> Seq<char>;

/// What `parse_bool(key, value)` returns.
pub open spec fn spec_parse_bool(key: Seq<char>, value: Seq<char>) -> Result<bool, ErrorV> {
    match bool_word(value) {
        Some(b) => Ok(b),
        None => Err(
            ErrorV::InvalidConfig {
                key,
                message: "expected boolean, got "@ + debug_text(value),
            },
        ),
    }
}

/// A boolean setting: absent means `default`.
pub open spec fn flag(vars: Seq<(Seq<char>, Seq<char>)>, key: Seq<char>, default: bool) -> Result<
    bool,
    ErrorV,
> {
    match lookup(vars, key) {
        Some(v) => spec_parse_bool(key, v),
        None => Ok(default),
    }
}

/// `s` is an ASCII decimal digit string.
pub open spec fn all_digits(s: Seq<char>) -> bool {
    s.len() >= 1 && forall|i: int| 0 <= i < s.len() ==> '0' <= #[trigger] s[i] <= '9'
}

/// The number that a digit string stands for.
pub open spec fn digits_value(s: Seq<char>) -> nat
    decreases s.len(),
{
    if s.len() == 0 {
        0
    } else {
        digits_value(s.drop_last()) * 10 + ((s.last() as u32) - 48) as nat
    }
}

/// The unsigned number that `str::parse::<u64>` reads from `s`: an optional
/// `+` followed by decimal digits, of a value that fits in 64 bits.
pub open spec fn u64_value(s: Seq<char>) -> Option<u64> {
    let digits = if s.len() >= 1 && s[0] == '+' {
        s.drop_first()
    } else {
        s
    };
    if all_digits(digits) && digits_value(digits) <= u64::MAX {
        Some(digits_value(digits) as u64)
    } else {
        None
    }
}

/// The message of the error `str::parse::<u64>` returns on `s`.
pub uninterp spec fn u64_parse_error_text(s: Seq<char>) -> Seq<char>;

/// `str::parse::<u64>`, with its error turned into its message.
///
/// The contract restates the grammar that `u64::from_str` documents; the
/// text of the error message is only named.
#[verifier::external_body]
fn parse_u64(s: &str) -> (r: Result<u64, String>)
    ensures
        match r {
            Ok(n) => u64_value(s@) == Some(n),
            Err(m) => u64_value(s@) is None && m@ == u64_parse_error_text(s@),
        },
{
    s.parse::<u64>().map_err(|err| err.to_string())
}

/// `format!("{value:?}")`: the Debug text of a string.
#[verifier::external_body]
fn debug_quoted(value: &str) -> (r: String)
    ensures
        r@ == debug_text(value@),
{
    format!("{value:?}")
}

/// `s` without its trailing `/` characters.
pub open spec fn drop_trailing_seps(s: Seq<char>) -> Seq<char>
    decreases s.len(),
{
    if s.len() > 0 && s.last() == '/' {
        drop_trailing_seps(s.drop_last())
    } else {
        s
    }
}

/// The position just after the last `/` of `s`, 0 when it has none.
pub open spec fn after_last_sep(s: Seq<char>) -> nat
    decreases s.len(),
{
    if s.len() == 0 {
        0
    } else if s.last() == '/' {
        s.len()
    } else {
        after_last_sep(s.drop_last())
    }
}

/// A path that every platform reads alike: no `\`, no `:` (so no drive
/// prefix), no leading `//` (a network share prefix on Windows), and no `.`
/// component but possibly the first.
pub open spec fn plain_path(p: Seq<char>) -> bool {
    &&& !(p.len() >= 2 && p[0] == '/' && p[1] == '/')
    &&& forall|i: int| 0 <= i < p.len() ==> #[trigger] p[i] != '\\' && p[i] != ':'
    &&& forall|i: int|
        1 <= i < p.len() && #[trigger] p[i] == '.' && p[i - 1] == '/' ==> i + 1 < p.len() && p[i + 1]
            != '/'
}

/// The parent of a plain path, as `Path::parent` gives it: the path without
/// its trailing separators, its last component and the separators before it;
/// the root `/` when only the root is left; none for the root itself or an
/// empty path; the empty path for a single relative component.
pub open spec fn spec_path_parent(p: Seq<char>) -> Option<Seq<char>> {
    let body = drop_trailing_seps(p);
    if body.len() == 0 {
        None
    } else {
        let cut = after_last_sep(body);
        let head = drop_trailing_seps(body.take(cut as int));
        if cut > 0 && head.len() == 0 {
            Some("/"@)
        } else {
            Some(head)
        }
    }
}

/// `Path::parent` on a text path, displayed back as text.
///
/// A parent is always a strictly shorter prefix of the path. For a plain path
/// (see `plain_path`), which every platform reads alike, the parent is the one
/// `spec_path_parent` gives. For other paths which prefix it is depends on the
/// platform's path rules and is not stated.
#[verifier::external_body]
fn path_parent(path: &str) -> (r: Option<String>)
    ensures
        r is Some ==> r->0@.len() < path@.len() && r->0@ == path@.subrange(0, r->0@.len() as int),
        plain_path(path@) ==> opt_view(r) == spec_path_parent(path@),
{
    std::path::Path::new(path).parent().map(|p| p.display().to_string())
}

/// A path separator on some platform: `/`, or `\` on Windows.
pub open spec fn is_sep_char(c: char) -> bool {
    c == '/' || c == '\\'
}

/// A base path that every platform joins alike: no `:` (so no drive prefix),
/// and no `\` at either end.
pub open spec fn join_plain(base: Seq<char>) -> bool {
    &&& forall|i: int| 0 <= i < base.len() ==> #[trigger] base[i] != ':'
    &&& base.len() > 0 ==> base[0] != '\\' && base.last() != '\\'
}

/// `dir` is `base` joined with `part` as `Path::join` joins them on some
/// platform: `part` alone for an empty base, appended directly after a
/// trailing `/`, and otherwise after one separator of the platform.
pub open spec fn joined(base: Seq<char>, part: Seq<char>, dir: Seq<char>) -> bool {
    if base.len() == 0 {
        dir == part
    } else if base.last() == '/' {
        dir == base + part
    } else {
        &&& dir.len() == base.len() + 1 + part.len()
        &&& is_sep_char(dir[base.len() as int])
        &&& dir == base + seq![dir[base.len() as int]] + part
    }
}

/// `dir` is `base`, at most one character, then `part`.
pub open spec fn loosely_joined(base: Seq<char>, part: Seq<char>, dir: Seq<char>) -> bool {
    &&& base.len() + part.len() <= dir.len() <= base.len() + part.len() + 1
    &&& dir.subrange(0, base.len() as int) == base
    &&& dir.subrange(dir.len() - part.len(), dir.len() as int) == part
}

/// `Path::join` with a relative, separator-free `part` (no `/`, `\` or `:`),
/// displayed back as text.
///
/// For a base that every platform joins alike (see `join_plain`) the result
/// is `base`, at most one separator, then `part`, exactly as `joined` says;
/// which separator the platform inserts (`/`, or `\` on Windows) is not
/// stated. Other bases (with a drive or verbatim prefix, which `Path::join`
/// may normalise) get no statement.
#[verifier::external_body]
fn path_join(base: &str, part: &str) -> (r: String)
    requires
        part@.len() > 0,
        forall|i: int|
            0 <= i < part@.len() ==> #[trigger] part@[i] != '/' && part@[i] != '\\' && part@[i] != ':',
    ensures
        join_plain(base@) ==> loosely_joined(base@, part@, r@) && joined(base@, part@, r@),
{
    std::path::Path::new(base).join(part).display().to_string()
}

/// `s` with `prefix` removed when it starts with it.
pub open spec fn strip_prefix_or_self(s: Seq<char>, prefix: Seq<char>) -> Seq<char> {
    if prefix.len() <= s.len() && s.subrange(0, prefix.len() as int) == prefix {
        s.subrange(prefix.len() as int, s.len() as int)
    } else {
        s
    }
}

/// The SQLite file a database URL names: the URL without `sqlite://`.
pub open spec fn db_file_path(database_url: Seq<char>) -> Seq<char> {
    strip_prefix_or_self(database_url, "sqlite://"@)
}

/// The directory the graph database goes next to: the parent of the SQLite
/// file, or `.` when it has no (or an empty) parent.
pub open spec fn default_parent(path: Seq<char>) -> Seq<char> {
    match spec_path_parent(path) {
        Some(p) => if p.len() > 0 {
            p
        } else {
            "."@
        },
        None => "."@,
    }
}

/// `dir` is what the graph database directory is derived from for
/// `database_url`: the parent directory of the SQLite file (or `.`), then
/// `graph`, then `lbug`, each joined as `Path::join` joins. For a plain file
/// path the parent is exactly the one `default_parent` gives and the joins
/// are exact up to the platform's separator; for other file paths, whose
/// reading depends on the platform's path rules, nothing is stated.
pub open spec fn graph_dir_shape(dir: Seq<char>, database_url: Seq<char>) -> bool {
    let path = db_file_path(database_url);
    if plain_path(path) {
        exists|graph: Seq<char>|
            joined(default_parent(path), "graph"@, graph) && #[trigger] joined(graph, "lbug"@, dir)
    } else {
        true
    }
}

/// The value of the first pair whose key is `key`.
pub fn get<'a>(vars: &'a Vec<(String, String)>, key: &str) -> (r: Option<&'a str>)
    ensures
        match r {
            Some(v) => lookup(pairs_view(vars@), key@) == Some(v@),
            None => lookup(pairs_view(vars@), key@) is None,
        },
{
    let ghost pv = pairs_view(vars@);
    assert(pv.skip(0) =~= pv);
    let mut i: usize = 0;
    while i < vars.len()
        invariant
            i <= vars.len(),
            pv == pairs_view(vars@),
            lookup(pv, key@) == lookup(pv.skip(i as int), key@),
        decreases vars.len() - i,
    {
        assert(pv.skip(i as int).drop_first() =~= pv.skip(i + 1));
        assert(pv.skip(i as int)[0] == (vars@[i as int].0@, vars@[i as int].1@));
        if text_eq(vars[i].0.as_str(), key) {
            return Some(vars[i].1.as_str());
        }
        i += 1;
    }
    assert(pv.skip(i as int).len() == 0);
    None
}

/// The listen address the settings give: `LLMPARTY_BIND_ADDR`, or
/// `127.0.0.1:8080` when it is absent.
pub fn listen_address(vars: &Vec<(String, String)>) -> (r: String)
    ensures
        r@ == or_default(lookup(pairs_view(vars@), "LLMPARTY_BIND_ADDR"@), "127.0.0.1:8080"@),
{
    match get(vars, "LLMPARTY_BIND_ADDR") {
        Some(v) => owned(v),
        None => String::from_str("127.0.0.1:8080"),
    }
}

/// The directory of the graph database next to the SQLite file of `database_url`.
pub fn default_graph_db_dir(database_url: &str) -> (r: String)
    ensures
        graph_dir_shape(r@, database_url@),
{
    let prefix = "sqlite://";
    let url = chars_of(database_url);
    let path = if crate::text::starts_with(database_url, prefix) {
        let p = chars_of(prefix);
        crate::text::string_of_range(&url, p.len(), url.len())
    } else {
        owned(database_url)
    };
    assert(path@ == strip_prefix_or_self(database_url@, "sqlite://"@));
    let parent = match path_parent(path.as_str()) {
        Some(p) => {
            if p.as_str().unicode_len() == 0 {
                String::from_str(".")
            } else {
                p
            }
        },
        None => String::from_str("."),
    };
    proof {
        reveal_strlit(".");
        reveal_strlit("graph");
        reveal_strlit("lbug");
    }
    let graph = path_join(parent.as_str(), "graph");
    let dir = path_join(graph.as_str(), "lbug");
    proof {
        if plain_path(path@) {
            assert(parent@ == default_parent(path@));
            assert(join_plain(parent@)) by {
                if parent@ != "."@ {
                    assert forall|i: int| 0 <= i < parent@.len() implies #[trigger] parent@[i] != ':' by {
                        assert(parent@[i] == path@[i]);
                    }
                    assert(parent@[0] == path@[0]);
                    assert(parent@.last() == path@[parent@.len() - 1]);
                }
            }
            assert(joined(parent@, "graph"@, graph@));
            assert(graph@.len() > 0 && graph@.last() == 'h') by {
                assert(graph@[graph@.len() - 1] == graph@.subrange(graph@.len() - 5, graph@.len() as int)[4]);
            }
            assert(join_plain(graph@)) by {
                assert forall|i: int| 0 <= i < graph@.len() implies #[trigger] graph@[i] != ':' by {
                    if i < parent@.len() {
                        assert(graph@[i] == graph@.subrange(0, parent@.len() as int)[i]);
                        if parent@ != "."@ {
                            assert(parent@[i] == path@[i]);
                        }
                    } else if i >= graph@.len() - 5 {
                        assert(graph@[i] == graph@.subrange(graph@.len() - 5, graph@.len() as int)[i
                            - (graph@.len() - 5)]);
                    } else {
                        assert(is_sep_char(graph@[i]));
                    }
                }
                assert(graph@[0] == graph@.subrange(0, parent@.len() as int)[0]);
                if parent@ != "."@ {
                    assert(parent@[0] == path@[0]);
                }
            }
            assert(joined(graph@, "lbug"@, dir@));
        }
    }
    dir
}

/// Reads a configuration boolean: `1`, `true`, `yes`, `on` and `0`, `false`,
/// `no`, `off`, in any ASCII case.
pub fn parse_bool(key: &str, value: &str) -> (r: Result<bool, Error>)
    ensures
        crate::error::result_view(r, |b: bool| b) == spec_parse_bool(key@, value@),
{
    let l = lowercase(value);
    let ls = l.as_str();
    if text_eq(ls, "1") || text_eq(ls, "true") || text_eq(ls, "yes") || text_eq(ls, "on") {
        Ok(true)
    } else if text_eq(ls, "0") || text_eq(ls, "false") || text_eq(ls, "no") || text_eq(ls, "off") {
        Ok(false)
    } else {
        let message = String::from_str("expected boolean, got ").concat(debug_quoted(value).as_str());
        Err(Error::InvalidConfig { key: owned(key), message })
    }
}


/// The error every malformed workspace root entry is reported with.
pub open spec fn roots_error(message: Seq<char>) -> ErrorV {
    ErrorV::InvalidConfig { key: "LLMPARTY_WORKSPACE_ROOTS"@, message }
}

/// What one `root_id|label|path` entry reads as.
pub open spec fn spec_parse_root_entry(entry: Seq<char>) -> Result<
    (Seq<char>, Seq<char>, Seq<char>),
    ErrorV,
> {
    let parts = split_on(entry, '|');
    if parts.len() != 3 {
        Err(roots_error("expected entries formatted as root_id|label|path separated by semicolons"@))
    } else {
        let root_id = trim(parts[0]);
        let label = trim(parts[1]);
        let path = trim(parts[2]);
        if root_id.len() == 0 || label.len() == 0 || path.len() == 0 {
            Err(roots_error("root_id, label, and path must be non-empty"@))
        } else {
            Ok((root_id, label, path))
        }
    }
}

/// What a list of entries reads as: blank entries are skipped, the first
/// malformed entry is the error.
pub open spec fn spec_parse_root_entries(entries: Seq<Seq<char>>) -> Result<
    Seq<(Seq<char>, Seq<char>, Seq<char>)>,
    ErrorV,
>
    decreases entries.len(),
{
    if entries.len() == 0 {
        Ok(Seq::empty())
    } else {
        match spec_parse_root_entries(entries.drop_last()) {
            Err(e) => Err(e),
            Ok(roots) => if is_blank(entries.last()) {
                Ok(roots)
            } else {
                match spec_parse_root_entry(entries.last()) {
                    Ok(r) => Ok(roots.push(r)),
                    Err(e) => Err(e),
                }
            },
        }
    }
}

/// What `parse_workspace_roots(value)` returns: the `;`-separated entries of
/// the trimmed value, or nothing when it is blank.
pub open spec fn spec_parse_workspace_roots(value: Seq<char>) -> Result<
    Seq<(Seq<char>, Seq<char>, Seq<char>)>,
    ErrorV,
> {
    let t = trim(value);
    if t.len() == 0 {
        Ok(Seq::empty())
    } else {
        spec_parse_root_entries(split_on(t, ';'))
    }
}

proof fn lemma_root_entries_err_extends(entries: Seq<Seq<char>>, i: int, e: ErrorV)
    requires
        0 <= i <= entries.len(),
        spec_parse_root_entries(entries.take(i)) == Err::<Seq<(Seq<char>, Seq<char>, Seq<char>)>, ErrorV>(e),
    ensures
        spec_parse_root_entries(entries) == Err::<Seq<(Seq<char>, Seq<char>, Seq<char>)>, ErrorV>(e),
    decreases entries.len() - i,
{
    if i == entries.len() {
        assert(entries.take(i) =~= entries);
    } else {
        assert(entries.take(i + 1).drop_last() =~= entries.take(i));
        lemma_root_entries_err_extends(entries, i + 1, e);
    }
}

/// Reads one `root_id|label|path` entry.
fn parse_root_entry(entry: &Vec<char>) -> (r: Result<WorkspaceRootConfig, Error>)
    ensures
        crate::error::result_view(r, |c: WorkspaceRootConfig| root_view(c)) == spec_parse_root_entry(entry@),
{
    let parts = split_chars(entry, '|');
    if parts.len() != 3 {
        return Err(
            Error::InvalidConfig {
                key: String::from_str("LLMPARTY_WORKSPACE_ROOTS"),
                message: String::from_str(
                    "expected entries formatted as root_id|label|path separated by semicolons",
                ),
            },
        );
    }
    let a = string_of(&parts[0]);
    let b = string_of(&parts[1]);
    let c = string_of(&parts[2]);
    let root_id = trim_text(a.as_str());
    let label = trim_text(b.as_str());
    let path = trim_text(c.as_str());
    assert(views(parts@)[0] == parts@[0]@);
    assert(views(parts@)[1] == parts@[1]@);
    assert(views(parts@)[2] == parts@[2]@);
    if root_id.as_str().unicode_len() == 0 || label.as_str().unicode_len() == 0
        || path.as_str().unicode_len() == 0 {
        return Err(
            Error::InvalidConfig {
                key: String::from_str("LLMPARTY_WORKSPACE_ROOTS"),
                message: String::from_str("root_id, label, and path must be non-empty"),
            },
        );
    }
    Ok(WorkspaceRootConfig { root_id, label, path })
}

/// Reads `LLMPARTY_WORKSPACE_ROOTS`: entries `root_id|label|path` separated
/// by `;`; blank entries are skipped, every other entry must have exactly three
/// non-blank fields.
pub fn parse_workspace_roots(value: &str) -> (r: Result<Vec<WorkspaceRootConfig>, Error>)
    ensures
        crate::error::result_view(r, |v: Vec<WorkspaceRootConfig>| v@.map_values(|c: WorkspaceRootConfig| root_view(c)))
            == spec_parse_workspace_roots(value@),
        r matches Ok(v) ==> forall|i: int| 0 <= i < v@.len() ==> {
            &&& !is_blank(#[trigger] v@[i].root_id@)
            &&& !is_blank(v@[i].label@)
            &&& !is_blank(v@[i].path@)
        },
{
    let t = trim_text(value);
    let tv = chars_of(t.as_str());
    if tv.len() == 0 {
        let out: Vec<WorkspaceRootConfig> = Vec::new();
        assert(out@.map_values(|c: WorkspaceRootConfig| root_view(c)) =~= Seq::empty());
        return Ok(out);
    }
    let entries = split_chars(&tv, ';');
    let ghost ev = views(entries@);
    let mut out: Vec<WorkspaceRootConfig> = Vec::new();
    assert(ev.take(0) =~= Seq::<Seq<char>>::empty());
    assert(out@.map_values(|c: WorkspaceRootConfig| root_view(c)) =~= Seq::empty());
    let mut i: usize = 0;
    while i < entries.len()
        invariant
            i <= entries.len(),
            ev == views(entries@),
            ev == split_on(tv@, ';'),
            tv@ == trim(value@),
            tv@.len() > 0,
            spec_parse_root_entries(ev.take(i as int)) == Ok::<Seq<(Seq<char>, Seq<char>, Seq<char>)>, ErrorV>(
                out@.map_values(|c: WorkspaceRootConfig| root_view(c)),
            ),
        decreases entries.len() - i,
    {
        assert(ev.take(i + 1).drop_last() =~= ev.take(i as int));
        assert(ev.take(i + 1).last() == entries@[i as int]@);
        let entry_text = string_of(&entries[i]);
        if blank(entry_text.as_str()) {
            i += 1;
        } else {
            match parse_root_entry(&entries[i]) {
                Ok(root) => {
                    let ghost before = out@;
                    out.push(root);
                    assert(out@.map_values(|c: WorkspaceRootConfig| root_view(c)) =~= before.map_values(
                        |c: WorkspaceRootConfig| root_view(c),
                    ).push(root_view(root)));
                    i += 1;
                },
                Err(e) => {
                    proof {
                        assert(spec_parse_root_entry(entries@[i as int]@) == Err::<(Seq<char>, Seq<char>, Seq<char>), ErrorV>(e@));
                        assert(spec_parse_root_entries(ev.take(i + 1)) == Err::<Seq<(Seq<char>, Seq<char>, Seq<char>)>, ErrorV>(e@));
                        lemma_root_entries_err_extends(ev, i + 1, e@);
                        assert(tv@ == trim(value@));
                        assert(spec_parse_workspace_roots(value@) == Err::<Seq<(Seq<char>, Seq<char>, Seq<char>)>, ErrorV>(e@));
                    }
                    return Err(e);
                },
            }
        }
    }
    assert(ev.take(entries.len() as int) =~= ev);
    proof {
        assert forall|k: int| 0 <= k < out@.len() implies {
            &&& !is_blank(#[trigger] out@[k].root_id@)
            &&& !is_blank(out@[k].label@)
            &&& !is_blank(out@[k].path@)
        } by {
            lemma_roots_fields_trimmed(ev, out@.map_values(|c: WorkspaceRootConfig| root_view(c)), k);
            assert(out@.map_values(|c: WorkspaceRootConfig| root_view(c))[k] == root_view(out@[k]));
        }
    }
    Ok(out)
}

proof fn lemma_roots_fields_trimmed(
    entries: Seq<Seq<char>>,
    roots: Seq<(Seq<char>, Seq<char>, Seq<char>)>,
    k: int,
)
    requires
        spec_parse_root_entries(entries) == Ok::<Seq<(Seq<char>, Seq<char>, Seq<char>)>, ErrorV>(roots),
        0 <= k < roots.len(),
    ensures
        !is_blank(roots[k].0),
        !is_blank(roots[k].1),
        !is_blank(roots[k].2),
    decreases entries.len(),
{
    if entries.len() > 0 {
        match spec_parse_root_entries(entries.drop_last()) {
            Ok(prev) => {
                if k < prev.len() {
                    lemma_roots_fields_trimmed(entries.drop_last(), prev, k);
                } else {
                    let parts = split_on(entries.last(), '|');
                    crate::text::lemma_trim_idempotent(parts[0]);
                    crate::text::lemma_trim_idempotent(parts[1]);
                    crate::text::lemma_trim_idempotent(parts[2]);
                }
            },
            Err(_) => {},
        }
    }
}


/// The value of `key`, or `default` when it is absent.
pub open spec fn or_default(v: Option<Seq<char>>, default: Seq<char>) -> Seq<char> {
    match v {
        Some(x) => x,
        None => default,
    }
}

/// The value, unless it is absent or blank.
pub open spec fn non_blank_value(v: Option<Seq<char>>) -> Option<Seq<char>> {
    match v {
        Some(x) => if is_blank(x) {
            None
        } else {
            Some(x)
        },
        None => None,
    }
}

/// The view of an optional text.
pub open spec fn opt_view(v: Option<String>) -> Option<Seq<char>> {
    match v {
        Some(x) => Some(x@),
        None => None,
    }
}

/// The error of a result, if any.
pub open spec fn err_of<T>(r: Result<T, ErrorV>) -> Option<ErrorV> {
    match r {
        Ok(_) => None,
        Err(e) => Some(e),
    }
}

/// The planner timeout setting: a `u64` of milliseconds, 30000 when absent.
pub open spec fn spec_timeout(vars: Seq<(Seq<char>, Seq<char>)>) -> Result<u64, ErrorV> {
    match lookup(vars, "LLMPARTY_PLANNER_TIMEOUT_MS"@) {
        Some(v) => match u64_value(v) {
            Some(n) => Ok(n),
            None => Err(
                ErrorV::InvalidConfig {
                    key: "LLMPARTY_PLANNER_TIMEOUT_MS"@,
                    message: u64_parse_error_text(v),
                },
            ),
        },
        None => Ok(30000u64),
    }
}

/// The workspace roots setting, empty when absent.
pub open spec fn spec_roots(vars: Seq<(Seq<char>, Seq<char>)>) -> Result<
    Seq<(Seq<char>, Seq<char>, Seq<char>)>,
    ErrorV,
> {
    spec_parse_workspace_roots(or_default(lookup(vars, "LLMPARTY_WORKSPACE_ROOTS"@), Seq::empty()))
}

/// The error of the listen address, when it is not a socket address.
pub open spec fn bind_error(message: Option<Seq<char>>) -> Option<ErrorV> {
    match message {
        Some(m) => Some(ErrorV::InvalidConfig { key: "LLMPARTY_BIND_ADDR"@, message: m }),
        None => None,
    }
}

/// The first setting that cannot be read, in the order the settings are read:
/// the listen address first (`bind_addr_error` is what parsing it as a socket
/// address reported), then the others.
pub open spec fn spec_config_error(
    vars: Seq<(Seq<char>, Seq<char>)>,
    bind_addr_error: Option<Seq<char>>,
) -> Option<ErrorV> {
    if bind_addr_error is Some {
        bind_error(bind_addr_error)
    } else if err_of(flag(vars, "LLMPARTY_RUN_MIGRATIONS"@, true)) is Some {
        err_of(flag(vars, "LLMPARTY_RUN_MIGRATIONS"@, true))
    } else if err_of(flag(vars, "LLMPARTY_PLANNER_ENABLED"@, false)) is Some {
        err_of(flag(vars, "LLMPARTY_PLANNER_ENABLED"@, false))
    } else if err_of(spec_timeout(vars)) is Some {
        err_of(spec_timeout(vars))
    } else if err_of(flag(vars, "LLMPARTY_PLANNER_COMPAT_DIRECT_DISPATCH"@, false)) is Some {
        err_of(flag(vars, "LLMPARTY_PLANNER_COMPAT_DIRECT_DISPATCH"@, false))
    } else if err_of(flag(vars, "LLMPARTY_GRAPH_ENABLED"@, false)) is Some {
        err_of(flag(vars, "LLMPARTY_GRAPH_ENABLED"@, false))
    } else {
        err_of(spec_roots(vars))
    }
}

/// `c` holds, field by field, what the settings `vars` say.
pub open spec fn config_matches(c: AppConfig, vars: Seq<(Seq<char>, Seq<char>)>) -> bool {
    &&& c.bind_addr@ == or_default(lookup(vars, "LLMPARTY_BIND_ADDR"@), "127.0.0.1:8080"@)
    &&& c.database_url@ == or_default(
        lookup(vars, "LLMPARTY_DATABASE_URL"@),
        "sqlite://~/.local/share/llmparty/llmparty.db"@,
    )
    &&& opt_view(c.external_api_token) == non_blank_value(
        lookup(vars, "LLMPARTY_EXTERNAL_API_TOKEN"@),
    )
    &&& flag(vars, "LLMPARTY_RUN_MIGRATIONS"@, true) == Ok::<bool, ErrorV>(c.run_migrations)
    &&& flag(vars, "LLMPARTY_PLANNER_ENABLED"@, false) == Ok::<bool, ErrorV>(c.planner.enabled)
    &&& c.planner.client_type@ == or_default(lookup(vars, "LLMPARTY_PLANNER_CLIENT_TYPE"@), "pi"@)
    &&& spec_timeout(vars) == Ok::<u64, ErrorV>(c.planner.timeout_ms)
    &&& flag(vars, "LLMPARTY_PLANNER_COMPAT_DIRECT_DISPATCH"@, false) == Ok::<bool, ErrorV>(
        c.planner.compatibility_direct_dispatch,
    )
    &&& flag(vars, "LLMPARTY_GRAPH_ENABLED"@, false) == Ok::<bool, ErrorV>(c.graph.enabled)
    &&& match non_blank_value(lookup(vars, "LLMPARTY_GRAPH_DB_DIR"@)) {
        Some(d) => opt_view(c.graph.db_dir) == Some(d),
        None => if c.graph.enabled {
            c.graph.db_dir is Some && graph_dir_shape(c.graph.db_dir->0@, c.database_url@)
        } else {
            c.graph.db_dir is None
        },
    }
    &&& spec_roots(vars) == Ok::<Seq<(Seq<char>, Seq<char>, Seq<char>)>, ErrorV>(
        c.workspace_browser.roots@.map_values(|r: WorkspaceRootConfig| root_view(r)),
    )
}

/// A boolean setting read from `vars`.
fn read_flag(vars: &Vec<(String, String)>, key: &str, default: bool) -> (r: Result<bool, Error>)
    ensures
        crate::error::result_view(r, |b: bool| b) == flag(pairs_view(vars@), key@, default),
{
    match get(vars, key) {
        Some(v) => parse_bool(key, v),
        None => Ok(default),
    }
}

/// An optional setting that counts as absent when blank.
fn read_non_blank(vars: &Vec<(String, String)>, key: &str) -> (r: Option<String>)
    ensures
        opt_view(r) == non_blank_value(lookup(pairs_view(vars@), key@)),
{
    match get(vars, key) {
        Some(v) => if blank(v) {
            None
        } else {
            Some(owned(v))
        },
        None => None,
    }
}

impl AppConfig {
    /// Reads the configuration from key/value pairs (keys are distinct; the
    /// first pair of a key counts). Absent settings take their defaults; a
    /// malformed setting is reported as `InvalidConfig` with its key.
    /// `bind_addr_error` is the message of parsing the listen address
    /// (`LLMPARTY_BIND_ADDR`, or `127.0.0.1:8080` when absent) as a socket
    /// address, `None` when it parses; it is reported first.
    pub fn from_vars(vars: &Vec<(String, String)>, bind_addr_error: Option<String>) -> (r: Result<
        AppConfig,
        Error,
    >)
        ensures
            r is Err <==> spec_config_error(pairs_view(vars@), opt_view(bind_addr_error)) is Some,
            r matches Err(e) ==> spec_config_error(pairs_view(vars@), opt_view(bind_addr_error)) == Some(e@),
            r matches Ok(c) ==> config_matches(c, pairs_view(vars@)),
    {
        let ghost pv = pairs_view(vars@);
        if let Some(message) = bind_addr_error {
            return Err(Error::InvalidConfig { key: String::from_str("LLMPARTY_BIND_ADDR"), message });
        }
        let bind_addr = listen_address(vars);
        let database_url = match get(vars, "LLMPARTY_DATABASE_URL") {
            Some(v) => owned(v),
            None => String::from_str("sqlite://~/.local/share/llmparty/llmparty.db"),
        };
        let external_api_token = read_non_blank(vars, "LLMPARTY_EXTERNAL_API_TOKEN");
        let run_migrations = match read_flag(vars, "LLMPARTY_RUN_MIGRATIONS", true) {
            Ok(b) => b,
            Err(e) => return Err(e),
        };
        let planner_enabled = match read_flag(vars, "LLMPARTY_PLANNER_ENABLED", false) {
            Ok(b) => b,
            Err(e) => return Err(e),
        };
        let client_type = match get(vars, "LLMPARTY_PLANNER_CLIENT_TYPE") {
            Some(v) => owned(v),
            None => String::from_str("pi"),
        };
        let timeout_ms = match get(vars, "LLMPARTY_PLANNER_TIMEOUT_MS") {
            Some(v) => match parse_u64(v) {
                Ok(n) => n,
                Err(message) => {
                    return Err(
                        Error::InvalidConfig {
                            key: String::from_str("LLMPARTY_PLANNER_TIMEOUT_MS"),
                            message,
                        },
                    )
                },
            },
            None => 30000,
        };
        let compatibility_direct_dispatch = match read_flag(
            vars,
            "LLMPARTY_PLANNER_COMPAT_DIRECT_DISPATCH",
            false,
        ) {
            Ok(b) => b,
            Err(e) => return Err(e),
        };
        let graph_enabled = match read_flag(vars, "LLMPARTY_GRAPH_ENABLED", false) {
            Ok(b) => b,
            Err(e) => return Err(e),
        };
        let db_dir = match read_non_blank(vars, "LLMPARTY_GRAPH_DB_DIR") {
            Some(d) => Some(d),
            None => if graph_enabled {
                Some(default_graph_db_dir(database_url.as_str()))
            } else {
                None
            },
        };
        let roots = match get(vars, "LLMPARTY_WORKSPACE_ROOTS") {
            Some(v) => parse_workspace_roots(v),
            None => {
                proof {
                    reveal_strlit("");
                }
                parse_workspace_roots("")
            },
        };
        let roots = match roots {
            Ok(r) => r,
            Err(e) => return Err(e),
        };
        let planner = PlannerRuntimeConfig {
            enabled: planner_enabled,
            client_type,
            timeout_ms,
            compatibility_direct_dispatch,
        };
        let graph = GraphRuntimeConfig { enabled: graph_enabled, db_dir };
        let workspace_browser = WorkspaceBrowserConfig { roots };
        Ok(
            AppConfig {
                bind_addr,
                database_url,
                external_api_token,
                run_migrations,
                planner,
                graph,
                workspace_browser,
            },
        )
    }
}

} // verus!
