//! Where macros are stored: the storage directory, the path a macro name
//! resolves to, and the listing of stored macros.
use vstd::prelude::*;
use crate::order::{SortKey, stable_sort, stably_sorted, with_key, key_is, lemma_stably_sorted_same_records};
use crate::text::{text, same_text, ends_with, has_suffix, append_chars, chars_of, string_of, push_char};

verus! {

/// The user whose storage directory is used: the user that invoked `sudo`
/// when there is one, else the logged-in user, else `lucas`.
pub fn select_user(sudo_user: Option<String>, user: Option<String>) -> (r: String)
    ensures
        sudo_user matches Some(u) ==> r == u,
        sudo_user is None ==> (user matches Some(u) ==> r == u),
        sudo_user is None && user is None ==> r@ == "lucas"@,
{
    match sudo_user {
        Some(u) => u,
        None => match user {
            Some(u) => u,
            None => text("lucas"),
        },
    }
}

/// The storage directory of `user`: under `/root` for root, under
/// `/home/<user>` for everyone else.
pub open spec fn macro_dir_of(user: Seq<char>) -> Seq<char> {
    if user == "root"@ {
        "/root/.local/share/kmrp"@
    } else {
        "/home/"@ + user + "/.local/share/kmrp"@
    }
}

/// The storage directory of `user`.
pub fn macro_dir_for_user(user: &str) -> (r: String)
    ensures
        r@ == macro_dir_of(user@),
{
    if same_text(user, "root") {
        text("/root/.local/share/kmrp")
    } else {
        let mut r = text("/home/");
        append_chars(&mut r, user);
        append_chars(&mut r, "/.local/share/kmrp");
        r
    }
}

/// The file name a macro called `name` is stored under: `name` itself when
/// it already ends in `.json`, else `name` with `.json` appended.
pub open spec fn macro_file_name_of(name: Seq<char>) -> Seq<char> {
    if has_suffix(name, ".json"@) {
        name
    } else {
        name + ".json"@
    }
}

/// The file name a macro called `name` is stored under.
pub fn macro_file_name(name: &str) -> (r: String)
    ensures
        r@ == macro_file_name_of(name@),
{
    let mut r = text(name);
    if !ends_with(name, ".json") {
        append_chars(&mut r, ".json");
    }
    r
}

/// A file name never needs `.json` appended twice.
pub proof fn lemma_macro_file_name_idempotent(name: Seq<char>)
    ensures
        has_suffix(macro_file_name_of(name), ".json"@),
        macro_file_name_of(macro_file_name_of(name)) == macro_file_name_of(name),
{
    let f = macro_file_name_of(name);
    if !has_suffix(name, ".json"@) {
        assert(f.subrange(f.len() - ".json"@.len(), f.len() as int) =~= ".json"@);
    }
}

/// `rel` joined onto `base` on a Unix system: an absolute `rel` replaces
/// `base`; otherwise a `/` separates them unless `base` is empty or already
/// ends in one (std's `PathBuf::push`).
pub open spec fn joined_path(base: Seq<char>, rel: Seq<char>) -> Seq<char> {
    if rel.len() > 0 && rel[0] == '/' {
        rel
    } else if base.len() > 0 && base.last() != '/' {
        base + seq!['/'] + rel
    } else {
        base + rel
    }
}

/// `rel` joined onto `base`.
pub fn join_path(base: &str, rel: &str) -> (r: String)
    ensures
        r@ == joined_path(base@, rel@),
{
    let b = chars_of(base);
    let p = chars_of(rel);
    if p.len() > 0 && p[0] == '/' {
        return text(rel);
    }
    let mut r = text(base);
    if b.len() > 0 && b[b.len() - 1] != '/' {
        push_char(&mut r, '/');
    }
    append_chars(&mut r, rel);
    assert(r@ =~= joined_path(base@, rel@));
    r
}

/// The path std's `PathBuf::set_extension(path, "json")` makes of `path`.
pub uninterp spec fn json_extension_path(path: Seq<char>) -> Seq<char>;

/// A bare file name: not empty, with no `.` and no `/` in it.
pub open spec fn plain_name(s: Seq<char>) -> bool {
    s.len() > 0 && forall|i: int| 0 <= i < s.len() ==> s[i] != '.' && s[i] != '/'
}

/// A path whose file name has the extension `json`: it ends in `.json`, and
/// the file name has something before that dot.
pub open spec fn json_file_path(s: Seq<char>) -> bool {
    s.len() > 5 && has_suffix(s, ".json"@) && s[s.len() - 6] != '/'
}

/// `path` with the extension `json`: a bare file name gets `.json` appended,
/// a path whose file name already has the extension `json` stays as it is,
/// and any other path is left to std's `PathBuf::set_extension`.
pub open spec fn json_variant(path: Seq<char>) -> Seq<char> {
    if plain_name(path) {
        path + ".json"@
    } else if json_file_path(path) {
        path
    } else {
        json_extension_path(path)
    }
}

/// `path` with its extension set to `json`, by std's
/// `PathBuf::set_extension`. Its documentation says that an extension is
/// added where the file name has none and replaced where it has one; the
/// contract states this for bare file names and for paths whose file name
/// already has the extension `json` (which is replaced by itself), and only
/// names the result for other paths: which part of a file name std takes
/// for the extension (dots at the start of a name, `..`, trailing
/// separators) is left to std.
#[verifier::external_body]
fn with_json_extension(path: &str) -> (r: String)
    ensures
        r@ == json_extension_path(path@),
        plain_name(path@) ==> r@ == path@ + ".json"@,
        json_file_path(path@) ==> r@ == path@,
{
    let mut p = std::path::PathBuf::from(path);
    p.set_extension("json");
    p.to_string_lossy().into_owned()
}

/// Whether something exists at `path` on disk, by std's `Path::exists`.
/// What is on disk is not known to the contract, so nothing is stated of the
/// result.
#[verifier::external_body]
fn path_exists(path: &str) -> (r: bool) {
    std::path::Path::new(path).exists()
}

/// The path in the storage directory `macro_dir` of the macro called `name`.
pub open spec fn stored_macro_path(name: Seq<char>, macro_dir: Seq<char>) -> Seq<char> {
    joined_path(macro_dir, macro_file_name_of(name))
}

/// Which path a macro name resolves to, given which of its candidates exist:
/// the stored macro when it exists; else `name` taken as a path when that
/// exists; else `name` with a `json` extension when that exists; else the
/// stored macro's path.
pub open spec fn macro_path_choice(
    stored: Seq<char>,
    direct: Seq<char>,
    with_json: Seq<char>,
    stored_exists: bool,
    direct_exists: bool,
    json_exists: bool,
) -> Seq<char> {
    if stored_exists {
        stored
    } else if direct_exists {
        direct
    } else if json_exists {
        with_json
    } else {
        stored
    }
}

/// Chooses among the candidate paths of a macro name by which of them exist.
pub fn choose_macro_path(
    stored: String,
    direct: String,
    with_json: String,
    stored_exists: bool,
    direct_exists: bool,
    json_exists: bool,
) -> (r: String)
    ensures
        r@ == macro_path_choice(stored@, direct@, with_json@, stored_exists, direct_exists, json_exists),
{
    if stored_exists {
        stored
    } else if direct_exists {
        direct
    } else if json_exists {
        with_json
    } else {
        stored
    }
}

/// The paths a macro called `name` may be found at: its file in the storage
/// directory `macro_dir`, `name` itself, and `name` with a `json` extension.
pub fn macro_path_candidates(name: &str, macro_dir: &str) -> (c: (String, String, String))
    ensures
        c.0@ == stored_macro_path(name@, macro_dir@),
        c.1@ == name@,
        c.2@ == json_variant(name@),
{
    let file_name = macro_file_name(name);
    let stored = join_path(macro_dir, file_name.as_str());
    (stored, text(name), with_json_extension(name))
}

/// Whether `probe`, asked about a path that reads `path`, may answer `answer`.
pub open spec fn probe_answers<F: Fn(&str) -> bool>(probe: F, path: Seq<char>, answer: bool) -> bool {
    exists|p: &str| p@ == path && #[trigger] probe.ensures((p,), answer)
}

/// Whether every answer of `probe` is what `disk` says of the path asked about.
pub open spec fn probe_reads<F: Fn(&str) -> bool>(probe: F, disk: spec_fn(Seq<char>) -> bool) -> bool {
    forall|p: &str, answer: bool| #[trigger] probe.ensures((p,), answer) ==> answer == disk(p@)
}

/// The path a macro called `name` resolves to when `disk` tells which paths
/// exist.
pub open spec fn resolved_on(disk: spec_fn(Seq<char>) -> bool, name: Seq<char>, macro_dir: Seq<char>) -> Seq<char> {
    let stored = stored_macro_path(name, macro_dir);
    let with_json = json_variant(name);
    macro_path_choice(stored, name, with_json, disk(stored), disk(name), disk(with_json))
}

/// The path of the macro called `name`, asking `probe` whether a path
/// exists: first its file in the storage directory `macro_dir`, then `name`
/// as a path, then `name` with a `json` extension, each asked only when the
/// ones before it are absent; when none exists, the storage directory's path.
pub fn resolve_macro_path<F: Fn(&str) -> bool>(name: &str, macro_dir: &str, probe: F) -> (r: String)
    requires
        forall|p: &str| #[trigger] probe.requires((p,)),
    ensures
        exists|stored_exists: bool, direct_exists: bool, json_exists: bool| {
            &&& r@ == #[trigger] macro_path_choice(
                stored_macro_path(name@, macro_dir@),
                name@,
                json_variant(name@),
                stored_exists,
                direct_exists,
                json_exists,
            )
            &&& probe_answers(probe, stored_macro_path(name@, macro_dir@), stored_exists)
            &&& !stored_exists ==> probe_answers(probe, name@, direct_exists)
            &&& !stored_exists && !direct_exists ==> probe_answers(probe, json_variant(name@), json_exists)
        },
        forall|disk: spec_fn(Seq<char>) -> bool|
            probe_reads(probe, disk) ==> r@ == #[trigger] resolved_on(disk, name@, macro_dir@),
{
    let (stored, direct, with_json) = macro_path_candidates(name, macro_dir);
    let stored_path = stored.as_str();
    let stored_exists = probe(stored_path);
    assert(probe_answers(probe, stored@, stored_exists)) by {
        assert(stored_path@ == stored@);
    }
    let mut direct_exists = false;
    if !stored_exists {
        let direct_path = direct.as_str();
        direct_exists = probe(direct_path);
        assert(probe_answers(probe, direct@, direct_exists)) by {
            assert(direct_path@ == direct@);
        }
    }
    let mut json_exists = false;
    if !stored_exists && !direct_exists {
        let json_path = with_json.as_str();
        json_exists = probe(json_path);
        assert(probe_answers(probe, with_json@, json_exists)) by {
            assert(json_path@ == with_json@);
        }
    }
    let ghost candidates = (stored@, direct@, with_json@);
    let r = choose_macro_path(stored, direct, with_json, stored_exists, direct_exists, json_exists);
    assert(r@ == macro_path_choice(candidates.0, candidates.1, candidates.2, stored_exists, direct_exists, json_exists));
    assert forall|disk: spec_fn(Seq<char>) -> bool|
        probe_reads(probe, disk) implies r@ == #[trigger] resolved_on(disk, name@, macro_dir@) by {
        if !stored_exists && !direct_exists {
        }
    }
    r
}

/// The path of the macro called `name`, looking on disk first in the storage
/// directory `macro_dir`, then at `name` as a path, then at `name` with a
/// `json` extension, and falling back to the storage directory. Which of
/// them exist is read from the disk, so the contract says which choice is
/// made for each answer the disk may give.
pub fn get_macro_path(name: &str, macro_dir: &str) -> (r: String)
    ensures
        exists|stored_exists: bool, direct_exists: bool, json_exists: bool|
            r@ == #[trigger] macro_path_choice(
                stored_macro_path(name@, macro_dir@),
                name@,
                json_variant(name@),
                stored_exists,
                direct_exists,
                json_exists,
            ),
{
    resolve_macro_path(name, macro_dir, |p: &str| path_exists(p))
}

/// A macro saved under its stored path is found there again: once the
/// stored path exists, a name resolves to it whatever else exists.
pub proof fn lemma_saved_macro_found(name: Seq<char>, macro_dir: Seq<char>, direct_exists: bool, json_exists: bool)
    ensures
        macro_path_choice(
            stored_macro_path(name, macro_dir),
            name,
            json_variant(name),
            true,
            direct_exists,
            json_exists,
        ) == stored_macro_path(name, macro_dir),
{
}

/// The order in which a name is resolved: its stored file when that exists;
/// else the name itself as a path when that exists; else the name with a
/// `json` extension when that exists; else the stored file's path, though
/// it is missing. The stored path is the storage directory joined with the
/// name, `.json` appended when the name does not already end in it.
pub proof fn lemma_resolution_order(disk: spec_fn(Seq<char>) -> bool, name: Seq<char>, macro_dir: Seq<char>)
    ensures
        ({
            let stored = joined_path(macro_dir, if has_suffix(name, ".json"@) { name } else { name + ".json"@ });
            let with_json = json_variant(name);
            let r = resolved_on(disk, name, macro_dir);
            &&& disk(stored) ==> r == stored
            &&& !disk(stored) && disk(name) ==> r == name
            &&& !disk(stored) && !disk(name) && disk(with_json) ==> r == with_json
            &&& !disk(stored) && !disk(name) && !disk(with_json) ==> r == stored
        }),
{
}

/// A bare macro name and the same name with `.json` appended resolve to the
/// same path, as long as no file is called by the bare name itself.
pub proof fn lemma_extension_resolves_alike(name: Seq<char>, macro_dir: Seq<char>, disk: spec_fn(Seq<char>) -> bool)
    requires
        plain_name(name),
        !disk(name),
    ensures
        resolved_on(disk, name, macro_dir) == resolved_on(disk, name + ".json"@, macro_dir),
{
    reveal_strlit(".json");
    let full = name + ".json"@;
    assert(full.subrange(0, full.len() - 5) =~= name);
    assert(full.subrange(full.len() - 5, full.len() as int) =~= ".json"@);
    assert(json_file_path(full));
    assert(!plain_name(full)) by {
        assert(full[name.len() as int] == '.');
    }
    assert(!has_suffix(name, ".json"@)) by {
        if has_suffix(name, ".json"@) {
            assert(name.subrange(name.len() - 5, name.len() as int)[0] == '.');
            assert(name[name.len() - 5] == '.');
        }
    }
    assert(json_variant(name) == full);
    assert(json_variant(full) == full);
    assert(macro_file_name_of(name) == full);
    assert(macro_file_name_of(full) == full);
}

/// A name whose file name already has the extension `json` never gets a
/// second `.json`: it resolves to that name in the storage directory or to
/// the name itself.
pub proof fn lemma_json_name_not_extended(name: Seq<char>, macro_dir: Seq<char>, disk: spec_fn(Seq<char>) -> bool)
    requires
        json_file_path(name),
    ensures
        resolved_on(disk, name, macro_dir) == joined_path(macro_dir, name)
            || resolved_on(disk, name, macro_dir) == name,
{
    reveal_strlit(".json");
    assert(name.subrange(name.len() - 5, name.len() as int)[0] == '.');
    assert(!plain_name(name)) by {
        assert(name[name.len() - 5] == '.');
    }
    assert(json_variant(name) == name);
    assert(macro_file_name_of(name) == name);
}

/// The name a recording is saved under when none is given: `macro_`
/// followed by the time stamp of the recording.
pub fn default_macro_name(stamp: &str) -> (r: String)
    ensures
        r@ == "macro_"@ + stamp@,
{
    let mut r = text("macro_");
    append_chars(&mut r, stamp);
    r
}

/// A file in the storage directory: its name, its modification time in
/// nanoseconds since the Unix epoch (negative before it) when the system
/// reports one, and its size in bytes.
pub struct MacroEntry {
    pub file_name: String,
    pub modified: Option<i128>,
    pub size: u64,
}

/// The rank by which listings order entries: the most recently modified
/// first, entries without a modification time last.
pub open spec fn recency_rank(modified: Option<i128>) -> int {
    match modified {
        Some(t) => -(t as int),
        None => i128::MAX as int + 2,
    }
}

impl SortKey for MacroEntry {
    open spec fn sort_key(&self) -> int {
        recency_rank(self.modified)
    }

    fn key_le(&self, other: &Self) -> (r: bool) {
        match (self.modified, other.modified) {
            (Some(a), Some(b)) => a >= b,
            (Some(_), None) => true,
            (None, Some(_)) => false,
            (None, None) => true,
        }
    }
}

/// Whether a file name has the extension `json`: it ends in `.json` and
/// something comes before that dot.
pub open spec fn is_json_name(name: Seq<char>) -> bool {
    name.len() > 5 && has_suffix(name, ".json"@)
}

/// The predicate "is a file with the extension `json`".
pub open spec fn is_json_entry() -> spec_fn(MacroEntry) -> bool {
    |e: MacroEntry| is_json_name(e.file_name@)
}

/// Whether `name` has the extension `json` (std's `Path::extension`).
pub fn has_json_extension(name: &str) -> (r: bool)
    ensures
        r == is_json_name(name@),
{
    name.unicode_len() > 5 && ends_with(name, ".json")
}

/// The name a stored macro is shown under: its file name without the
/// `.json` extension (std's `Path::file_stem`).
pub fn macro_stem(file_name: &str) -> (r: String)
    requires
        is_json_name(file_name@),
    ensures
        r@ == file_name@.subrange(0, file_name@.len() - 5),
{
    let cs = chars_of(file_name);
    let n = cs.len() - 5;
    let mut stem: Vec<char> = Vec::new();
    let mut i: usize = 0;
    while i < n
        invariant
            cs@ == file_name@,
            n == cs@.len() - 5,
            i <= n,
            stem@ == cs@.subrange(0, i as int),
        decreases n - i,
    {
        stem.push(cs[i]);
        assert(cs@.subrange(0, i as int + 1) =~= cs@.subrange(0, i as int).push(cs@[i as int]));
        i = i + 1;
    }
    string_of(stem.as_slice())
}

/// The stored macros among `entries`: the files with the extension `json`,
/// the most recently modified first, entries without a modification time
/// last, entries of equal rank in their given order.
pub fn macro_listing(entries: Vec<MacroEntry>) -> (r: Vec<MacroEntry>)
    ensures
        stably_sorted(r@, entries@.filter(is_json_entry())),
{
    let mut json: Vec<MacroEntry> = Vec::new();
    let mut rest = entries;
    let ghost orig = rest@;
    let mut stack: Vec<MacroEntry> = Vec::new();
    while rest.len() > 0
        invariant
            rest@ + stack@.reverse() == orig,
        decreases rest@.len(),
    {
        let x = rest.pop().unwrap();
        proof {
            assert(stack@.push(x).reverse() =~= seq![x] + stack@.reverse());
        }
        stack.push(x);
        assert(rest@ + stack@.reverse() =~= orig);
    }
    assert(stack@.reverse() =~= orig);
    let ghost mut done: Seq<MacroEntry> = Seq::empty();
    proof {
        reveal(Seq::filter);
        assert(json@ =~= done.filter(is_json_entry()));
    }
    while stack.len() > 0
        invariant
            done + stack@.reverse() == orig,
            json@ == done.filter(is_json_entry()),
        decreases stack@.len(),
    {
        let ghost old_stack = stack@;
        let x = stack.pop().unwrap();
        proof {
            reveal(Seq::filter);
            assert(old_stack.reverse() =~= seq![x] + stack@.reverse());
            assert(done.push(x) + stack@.reverse() =~= done + old_stack.reverse());
            assert(done.push(x).drop_last() =~= done);
        }
        if has_json_extension(x.file_name.as_str()) {
            json.push(x);
        }
        proof {
            done = done.push(x);
        }
    }
    assert(done =~= orig);
    stable_sort(json)
}

/// Whether an entry can be the most recent macro: a `json` file whose
/// modification time is known.
pub open spec fn dated_macro(e: MacroEntry) -> bool {
    is_json_name(e.file_name@) && e.modified is Some
}

/// The file name of the most recently modified macro among `entries`, the
/// first of them when several share that time; `None` when no `json` file
/// has a known modification time.
pub fn latest_macro(entries: &Vec<MacroEntry>) -> (r: Option<String>)
    ensures
        r is None <==> forall|i: int| 0 <= i < entries@.len() ==> !dated_macro(#[trigger] entries@[i]),
        r matches Some(name) ==> exists|i: int|
            0 <= i < entries@.len() && #[trigger] dated_macro(entries@[i]) && name@ == entries@[i].file_name@
                && (forall|j: int| 0 <= j < entries@.len() && #[trigger] dated_macro(entries@[j])
                    ==> entries@[j].modified->0 <= entries@[i].modified->0)
                && (forall|j: int| 0 <= j < i && #[trigger] dated_macro(entries@[j])
                    ==> entries@[j].modified->0 < entries@[i].modified->0),
{
    let mut best: Option<usize> = None;
    let mut best_time: i128 = 0;
    let mut i: usize = 0;
    while i < entries.len()
        invariant
            i <= entries@.len(),
            best is None <==> forall|j: int| 0 <= j < i ==> !dated_macro(#[trigger] entries@[j]),
            best matches Some(b) ==> {
                &&& b < i
                &&& dated_macro(entries@[b as int])
                &&& entries@[b as int].modified->0 == best_time
                &&& forall|j: int| 0 <= j < i && #[trigger] dated_macro(entries@[j])
                    ==> entries@[j].modified->0 <= best_time
                &&& forall|j: int| 0 <= j < b && #[trigger] dated_macro(entries@[j])
                    ==> entries@[j].modified->0 < best_time
            },
        decreases entries@.len() - i,
    {
        let e = &entries[i];
        if has_json_extension(e.file_name.as_str()) {
            match e.modified {
                Some(t) => {
                    let better = match best {
                        None => true,
                        Some(_) => t > best_time,
                    };
                    if better {
                        best = Some(i);
                        best_time = t;
                    }
                },
                None => {},
            }
        }
        i = i + 1;
    }
    match best {
        Some(b) => Some(entries[b].file_name.clone()),
        None => None,
    }
}

/// Both `p` and `q` hold.
pub open spec fn both<A>(p: spec_fn(A) -> bool, q: spec_fn(A) -> bool) -> spec_fn(A) -> bool {
    |x: A| p(x) && q(x)
}

proof fn lemma_filter_filter<A>(s: Seq<A>, p: spec_fn(A) -> bool, q: spec_fn(A) -> bool)
    ensures
        s.filter(p).filter(q) == s.filter(both(p, q)),
    decreases s.len(),
{
    reveal(Seq::filter);
    if s.len() > 0 {
        lemma_filter_filter(s.drop_last(), p, q);
        if p(s.last()) {
            assert(s.filter(p).drop_last() =~= s.drop_last().filter(p));
        }
    }
}

proof fn lemma_filter_first<A>(s: Seq<A>, p: spec_fn(A) -> bool, i: int)
    requires
        0 <= i < s.len(),
        p(s[i]),
        forall|j: int| 0 <= j < i ==> !p(#[trigger] s[j]),
    ensures
        s.filter(p).len() > 0,
        s.filter(p)[0] == s[i],
    decreases s.len(),
{
    reveal(Seq::filter);
    let d = s.drop_last();
    if i < s.len() - 1 {
        assert forall|j: int| 0 <= j < i implies !p(#[trigger] d[j]) by {
            assert(d[j] == s[j]);
        }
        assert(d[i] == s[i]);
        lemma_filter_first(d, p, i);
    } else {
        lemma_filter_none(d, p);
        assert(s.last() == s[i]);
    }
}

proof fn lemma_filter_member<A>(s: Seq<A>, p: spec_fn(A) -> bool, q: int)
    requires
        0 <= q < s.filter(p).len(),
    ensures
        s.contains(s.filter(p)[q]),
    decreases s.len(),
{
    reveal(Seq::filter);
    let d = s.drop_last();
    if q < d.filter(p).len() {
        lemma_filter_member(d, p, q);
        let j = choose|j: int| 0 <= j < d.len() && d[j] == d.filter(p)[q];
        assert(s[j] == d[j]);
    } else {
        assert(s[s.len() - 1] == s.filter(p)[q]);
    }
}

proof fn lemma_filter_none<A>(s: Seq<A>, p: spec_fn(A) -> bool)
    requires
        forall|j: int| 0 <= j < s.len() ==> !p(#[trigger] s[j]),
    ensures
        s.filter(p).len() == 0,
    decreases s.len(),
{
    reveal(Seq::filter);
    if s.len() > 0 {
        let d = s.drop_last();
        assert forall|j: int| 0 <= j < d.len() implies !p(#[trigger] d[j]) by {
            assert(d[j] == s[j]);
        }
        lemma_filter_none(d, p);
        assert(!p(s[s.len() - 1]));
    }
}

/// The macro played when no name is given is the first one listed: the
/// entry that `latest_macro` picks (the first dated `json` file with the
/// latest modification time) heads the listing.
pub proof fn lemma_latest_heads_listing(entries: Seq<MacroEntry>, listing: Seq<MacroEntry>, i: int)
    requires
        stably_sorted(listing, entries.filter(is_json_entry())),
        0 <= i < entries.len(),
        dated_macro(entries[i]),
        forall|j: int| 0 <= j < entries.len() && #[trigger] dated_macro(entries[j])
            ==> entries[j].modified->0 <= entries[i].modified->0,
        forall|j: int| 0 <= j < i && #[trigger] dated_macro(entries[j])
            ==> entries[j].modified->0 < entries[i].modified->0,
    ensures
        listing.len() > 0,
        listing[0] == entries[i],
{
    let x = entries[i];
    let k = x.sort_key();
    let json = entries.filter(is_json_entry());
    assert(json.contains(x)) by {
        entries.lemma_filter_contains(is_json_entry(), i);
    }
    lemma_stably_sorted_same_records(listing, json, x);
    let p = choose|p: int| 0 <= p < listing.len() && listing[p] == x;
    let first = listing[0];
    assert(listing.contains(first));
    lemma_stably_sorted_same_records(listing, json, first);
    let q = choose|q: int| 0 <= q < json.len() && json[q] == first;
    assert(first.sort_key() <= k) by {
        assert(listing[0].sort_key() <= listing[p].sort_key());
    }
    assert(is_json_name(first.file_name@)) by {
        entries.lemma_filter_pred(is_json_entry(), q);
    }
    lemma_filter_member(entries, is_json_entry(), q);
    let r = choose|r: int| 0 <= r < entries.len() && entries[r] == first;
    if first.modified is Some {
        assert(dated_macro(entries[r]));
    }
    assert(first.sort_key() == k);
    // Among the json files, the first of rank `k` is `x`.
    lemma_filter_filter(entries, is_json_entry(), key_is::<MacroEntry>(k));
    let pred = both(is_json_entry(), key_is::<MacroEntry>(k));
    assert forall|j: int| 0 <= j < i implies !pred(#[trigger] entries[j]) by {
        if pred(entries[j]) {
            assert(dated_macro(entries[j]));
        }
    }
    lemma_filter_first(entries, pred, i);
    lemma_filter_first(listing, key_is::<MacroEntry>(k), 0);
    assert(with_key(listing, k) == with_key(json, k));
}

} // verus!
