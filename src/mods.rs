//! Mod files and the registry of mods loaded from them.
//!
//! A mod file holds sections, each opened by a header line `[a.b.c]` that
//! names the mod, followed by TOML entries `name`, `needs`, `method`, `res`
//! and `type`. Files of the older format, recognised by a `[desc]` section,
//! and files of no known shape are skipped with a warning; so is a section
//! whose entries do not read as a mod.

use crate::record::{decoded, Mod, ModView, SimplifiedMod};
use crate::text::{
    contains_spec, contains_text, ends_with_char, find_last, lines, lines_spec, rfind_char,
    starts_with_char, views,
};
use crate::textmap::{distinct_keys, keys_of, lookup, upsert, TextMap};
use vstd::prelude::*;
use vstd::string::{StrSliceExecFns, StringExecFns};

verus! {

/// How a mod file is laid out.
#[derive(PartialEq, Eq, Structural, Clone, Copy, Debug)]
pub enum FileFormat {
    /// Sections with `[a.b.c]` headers.
    Simplified,
    /// The older layout with a `[desc]` section; no longer read.
    Legacy,
    /// Anything else.
    Unknown,
}

/// The layout of a file: sections when it has a header bracket and an
/// assignment but no `[desc]` section; the older layout when it has `[desc]`.
pub open spec fn format_of(content: Seq<char>) -> FileFormat {
    if contains_spec(content, "["@) && contains_spec(content, "="@) && !contains_spec(
        content,
        "[desc]"@,
    ) {
        FileFormat::Simplified
    } else if contains_spec(content, "[desc]"@) {
        FileFormat::Legacy
    } else {
        FileFormat::Unknown
    }
}

/// The layout of a mod file.
pub fn classify(content: &str) -> (r: FileFormat)
    ensures
        r == format_of(content@),
{
    let has_desc = contains_text(content, "[desc]");
    if contains_text(content, "[") && contains_text(content, "=") && !has_desc {
        FileFormat::Simplified
    } else if has_desc {
        FileFormat::Legacy
    } else {
        FileFormat::Unknown
    }
}

/// `l` opens a new section.
pub open spec fn opens_section(l: Seq<char>) -> bool {
    l.len() > 0 && l[0] == '['
}

/// The sections closed so far and the one being filled, after the lines `ls`:
/// each line is kept with a line feed after it, and a line that opens with
/// `[` closes the section being filled unless that one is empty.
pub open spec fn frame(ls: Seq<Seq<char>>) -> (Seq<Seq<char>>, Seq<char>)
    decreases ls.len(),
{
    if ls.len() == 0 {
        (seq![], seq![])
    } else {
        let (done, cur) = frame(ls.drop_last());
        let l = ls.last();
        if opens_section(l) && cur.len() > 0 {
            (done.push(cur), l + "\n"@)
        } else {
            (done, cur + l + "\n"@)
        }
    }
}

/// The sections of a file of the section layout.
pub open spec fn sections_spec(content: Seq<char>) -> Seq<Seq<char>> {
    let (done, cur) = frame(lines_spec(content));
    if cur.len() > 0 {
        done.push(cur)
    } else {
        done
    }
}

/// The sections of `content`.
pub fn split_sections(content: &str) -> (r: Vec<String>)
    ensures
        r@.map_values(|s: String| s@) == sections_spec(content@),
{
    let ls = lines(content);
    let ghost lv = lines_spec(content@);
    let mut done: Vec<String> = Vec::new();
    let mut cur = String::new();
    let mut i: usize = 0;
    assert(done@.map_values(|s: String| s@) =~= seq![]);
    while i < ls.len()
        invariant
            views(ls@) == lv,
            i <= ls@.len(),
            (done@.map_values(|s: String| s@), cur@) == frame(lv.subrange(0, i as int)),
        decreases ls@.len() - i,
    {
        let line = ls[i];
        proof {
            assert(views(ls@)[i as int] == line@);
            assert(lv.subrange(0, i + 1).drop_last() =~= lv.subrange(0, i as int));
            assert(lv.subrange(0, i + 1).last() == line@);
        }
        let ghost before = done@;
        if starts_with_char(line, '[') && cur.as_str().unicode_len() > 0 {
            done.push(cur);
            assert(done@.map_values(|s: String| s@) =~= before.map_values(|s: String| s@).push(
                cur@,
            ));
            cur = line.to_owned();
            cur.append("\n");
        } else {
            cur.append(line);
            cur.append("\n");
        }
        i = i + 1;
    }
    assert(lv.subrange(0, ls@.len() as int) =~= lv);
    if cur.as_str().unicode_len() > 0 {
        let ghost before = done@;
        done.push(cur);
        assert(done@.map_values(|s: String| s@) =~= before.map_values(|s: String| s@).push(
            cur@,
        ));
    }
    done
}

/// `ls` joined with line feeds between them.
pub open spec fn join_lines(ls: Seq<Seq<char>>) -> Seq<char>
    decreases ls.len(),
{
    if ls.len() == 0 {
        seq![]
    } else if ls.len() == 1 {
        ls[0]
    } else {
        join_lines(ls.drop_last()) + "\n"@ + ls.last()
    }
}

/// The identifier in a section's header line and the body after that line,
/// when the section opens with a line of the form `[...]`.
pub open spec fn section_header(section: Seq<char>) -> Option<(Seq<char>, Seq<char>)> {
    let ls = lines_spec(section);
    if ls.len() > 0 && ls[0].len() > 0 && ls[0][0] == '[' && ls[0].last() == ']' {
        Some((ls[0].subrange(1, ls[0].len() - 1), join_lines(ls.drop_first())))
    } else {
        None
    }
}

/// The identifier and the body of a section.
pub fn read_header(section: &str) -> (r: Option<(String, String)>)
    ensures
        r matches Some(p) ==> section_header(section@) == Some((p.0@, p.1@)),
        r is None ==> section_header(section@) is None,
{
    let ls = lines(section);
    let ghost lv = lines_spec(section@);
    let k = ls.len();
    if k == 0 {
        return None;
    }
    let first = ls[0];
    assert(views(ls@)[0] == first@);
    if !(starts_with_char(first, '[') && ends_with_char(first, ']')) {
        return None;
    }
    let n = first.unicode_len();
    let id = first.substring_char(1, n - 1).to_owned();
    let mut body = String::new();
    let mut i: usize = 1;
    while i < k
        invariant
            views(ls@) == lv,
            k == ls@.len(),
            1 <= i <= k,
            body@ == join_lines(lv.subrange(1, i as int)),
        decreases k - i,
    {
        let line = ls[i];
        proof {
            assert(views(ls@)[i as int] == line@);
            assert(lv.subrange(1, i + 1).drop_last() =~= lv.subrange(1, i as int));
        }
        if i > 1 {
            body.append("\n");
        }
        body.append(line);
        proof {
            if i == 1 {
                assert(body@ =~= join_lines(lv.subrange(1, 2)));
            }
        }
        i = i + 1;
    }
    assert(lv.subrange(1, k as int) =~= lv.drop_first());
    Some((id, body))
}

/// The name of the file at `path`: what follows the last `/`.
pub open spec fn file_name(path: Seq<char>) -> Seq<char> {
    match find_last(path, '/') {
        Some(i) => path.subrange(i + 1, path.len() as int),
        None => path,
    }
}

/// The file at `path` has the extension `cmfun`: its name ends in `.cmfun`
/// after at least one other character.
pub open spec fn is_mod_file(path: Seq<char>) -> bool {
    let f = file_name(path);
    f.len() > 6 && f.subrange(f.len() - 6, f.len() as int) == ".cmfun"@
}

/// Whether the file at `path` is a mod file.
pub fn has_mod_extension(path: &str) -> (r: bool)
    ensures
        r == is_mod_file(path@),
{
    let n = path.unicode_len();
    let start = match rfind_char(path, '/') {
        Some(i) => {
            proof {
                crate::text::lemma_find_last_bounds(path@, '/', n as int);
            }
            i + 1
        },
        None => 0,
    };
    let f = path.substring_char(start, n);
    let m = f.unicode_len();
    if m <= 6 {
        return false;
    }
    let tail = f.substring_char(m - 6, m);
    proof {
        assert(f@ =~= file_name(path@));
    }
    crate::text::text_eq(tail, ".cmfun")
}

/// The warning for a file of the older layout.
pub open spec fn legacy_warning(path: Seq<char>) -> Seq<char> {
    "Warning: Skipping old format mod file \""@ + path
        + "\". Please convert to new format [x.x.x]."@
}

/// The warning for a file of no known layout.
pub open spec fn unknown_warning(path: Seq<char>) -> Seq<char> {
    "Warning: Skipping unknown format mod file \""@ + path + "\"."@
}

/// The warning for a section whose entries do not read as a mod.
pub open spec fn section_warning(path: Seq<char>, id: Seq<char>) -> Seq<char> {
    "Warning: Failed to parse mod section ["@ + id + "] in file \""@ + path
        + "\": invalid format."@
}

fn legacy_warning_text(path: &str) -> (r: String)
    ensures
        r@ == legacy_warning(path@),
{
    let mut w = "Warning: Skipping old format mod file \"".to_owned();
    w.append(path);
    w.append("\". Please convert to new format [x.x.x].");
    w
}

fn unknown_warning_text(path: &str) -> (r: String)
    ensures
        r@ == unknown_warning(path@),
{
    let mut w = "Warning: Skipping unknown format mod file \"".to_owned();
    w.append(path);
    w.append("\".");
    w
}

fn section_warning_text(path: &str, id: &str) -> (r: String)
    ensures
        r@ == section_warning(path@, id@),
{
    let mut w = "Warning: Failed to parse mod section [".to_owned();
    w.append(id);
    w.append("] in file \"");
    w.append(path);
    w.append("\": invalid format.");
    w
}

/// The registry's mods and its warnings, as the logic sees them.
pub struct LoadState {
    pub mods: Seq<(Seq<char>, ModView)>,
    pub warnings: Seq<Seq<char>>,
}

/// The state after reading one section of the file at `path`: its mod
/// replaces any earlier mod of the same identifier, or a warning is added.
pub open spec fn apply_section(st: LoadState, path: Seq<char>, section: Seq<char>) -> LoadState {
    match section_header(section) {
        None => st,
        Some((id, body)) => apply_decoded(st, path, id, decoded(body)),
    }
}

/// The state after the section `id` of the file at `path` was read as `rec`:
/// a mod replaces any earlier mod of the same identifier; a section that did
/// not read as a mod adds a warning.
pub open spec fn apply_decoded(
    st: LoadState,
    path: Seq<char>,
    id: Seq<char>,
    rec: Option<ModView>,
) -> LoadState {
    match rec {
        Some(m) => LoadState { mods: upsert(st.mods, id, m), warnings: st.warnings },
        None => LoadState { mods: st.mods, warnings: st.warnings.push(section_warning(path, id)) },
    }
}

pub open spec fn record_view(rec: Option<SimplifiedMod>) -> Option<ModView> {
    match rec {
        Some(r) => Some(r.into_mod_view()),
        None => None,
    }
}

/// The state after reading the sections `secs` in order.
pub open spec fn apply_sections(st: LoadState, path: Seq<char>, secs: Seq<Seq<char>>) -> LoadState
    decreases secs.len(),
{
    if secs.len() == 0 {
        st
    } else {
        apply_section(apply_sections(st, path, secs.drop_last()), path, secs.last())
    }
}

/// The state after reading the file at `path`; files without the mod
/// extension are passed over.
pub open spec fn apply_file(st: LoadState, path: Seq<char>, content: Seq<char>) -> LoadState {
    if !is_mod_file(path) {
        st
    } else {
        match format_of(content) {
            FileFormat::Simplified => apply_sections(st, path, sections_spec(content)),
            FileFormat::Legacy => LoadState {
                mods: st.mods,
                warnings: st.warnings.push(legacy_warning(path)),
            },
            FileFormat::Unknown => LoadState {
                mods: st.mods,
                warnings: st.warnings.push(unknown_warning(path)),
            },
        }
    }
}

/// The state after reading the files `files` (path and content) in order.
pub open spec fn load_pass(st: LoadState, files: Seq<(Seq<char>, Seq<char>)>) -> LoadState
    decreases files.len(),
{
    if files.len() == 0 {
        st
    } else {
        apply_file(load_pass(st, files.drop_last()), files.last().0, files.last().1)
    }
}

/// A file of the mods directory.
pub struct ModFile {
    pub path: String,
    pub content: String,
}

/// What was found at the mods directory's place.
pub enum ModDir {
    /// Nothing is there.
    Missing,
    /// Something is there that is not a directory.
    NotADirectory,
    /// The directory could not be listed.
    Unreadable(String),
    /// The readable files of the directory.
    Files(Vec<ModFile>),
}

/// Why a load pass failed.
#[derive(PartialEq, Eq, Debug)]
pub enum ModError {
    NotADirectory,
    Io(String),
}

impl ModError {
    pub fn message(&self) -> (r: String)
        ensures
            *self == ModError::NotADirectory ==> r@ == "mods is not a directory"@,
            self matches ModError::Io(m) ==> r@ == m@,
    {
        match self {
            ModError::NotADirectory => "mods is not a directory".to_owned(),
            ModError::Io(m) => m.clone(),
        }
    }
}

pub open spec fn files_view(fs: Seq<ModFile>) -> Seq<(Seq<char>, Seq<char>)> {
    fs.map_values(|f: ModFile| (f.path@, f.content@))
}

/// The state after a load pass over `dir` that starts from the mods `mods`
/// and no warnings.
pub open spec fn pass_result(mods: Seq<(Seq<char>, ModView)>, dir: ModDir) -> LoadState {
    let st = LoadState { mods, warnings: seq![] };
    match dir {
        ModDir::Files(fs) => load_pass(st, files_view(fs@)),
        _ => st,
    }
}

/// The state after a reload over `dir`: mods and warnings start empty, so
/// nothing of the state before it remains.
pub open spec fn reload_result(before: LoadState, dir: ModDir) -> LoadState {
    pass_result(seq![], dir)
}

/// Reloading twice over the same directory gives the same mods and the same
/// warnings as reloading once: warnings do not pile up across reloads.
pub proof fn lemma_reload_idempotent(st: LoadState, dir: ModDir)
    ensures
        reload_result(reload_result(st, dir), dir) == reload_result(st, dir),
        reload_result(st, dir).warnings == pass_result(seq![], dir).warnings,
{
}

/// A load pass from an empty registry over a file of the older layout and
/// then a file whose one section reads as a mod gives exactly that mod and
/// exactly one warning, which names the older file.
pub proof fn lemma_legacy_beside_valid(
    old_path: Seq<char>,
    old_content: Seq<char>,
    new_path: Seq<char>,
    new_content: Seq<char>,
)
    requires
        is_mod_file(old_path),
        format_of(old_content) == FileFormat::Legacy,
        is_mod_file(new_path),
        format_of(new_content) == FileFormat::Simplified,
        sections_spec(new_content).len() == 1,
        section_header(sections_spec(new_content)[0]) matches Some((id, body)) && decoded(
            body,
        ) is Some,
    ensures
        ({
            let st = load_pass(
                LoadState { mods: seq![], warnings: seq![] },
                seq![(old_path, old_content), (new_path, new_content)],
            );
            let (id, body) = section_header(sections_spec(new_content)[0])->Some_0;
            &&& st.warnings == seq![legacy_warning(old_path)]
            &&& st.mods == seq![(id, decoded(body)->Some_0)]
        }),
{
    let files = seq![(old_path, old_content), (new_path, new_content)];
    let empty = LoadState { mods: seq![], warnings: seq![] };
    assert(files.drop_last() =~= seq![(old_path, old_content)]);
    assert(files.drop_last().drop_last() =~= Seq::<(Seq<char>, Seq<char>)>::empty());
    let one = files.drop_last();
    assert(load_pass(empty, one.drop_last()) == empty);
    assert(one.last() == (old_path, old_content));
    let st1 = load_pass(empty, one);
    assert(st1 == apply_file(empty, old_path, old_content));
    assert(files.last() == (new_path, new_content));
    let secs = sections_spec(new_content);
    assert(secs.drop_last() =~= Seq::<Seq<char>>::empty());
    assert(apply_sections(st1, new_path, secs.drop_last()) == st1);
    assert(secs.last() == secs[0]);
    let (id, body) = section_header(secs[0])->Some_0;
    assert(crate::textmap::key_index(st1.mods, id) is None);
    assert(st1.mods.push((id, decoded(body)->Some_0)) =~= seq![(id, decoded(body)->Some_0)]);
    assert(st1.warnings =~= seq![legacy_warning(old_path)]);
}

/// The error of a load pass over `dir`, if any.
pub open spec fn pass_error(dir: ModDir) -> Option<ModError> {
    match dir {
        ModDir::NotADirectory => Some(ModError::NotADirectory),
        ModDir::Unreadable(m) => Some(ModError::Io(m)),
        _ => None,
    }
}

pub open spec fn mod_views(s: Seq<(Seq<char>, Mod)>) -> Seq<(Seq<char>, ModView)> {
    s.map_values(|e: (Seq<char>, Mod)| (e.0, e.1.view()))
}

proof fn lemma_key_index_views(s: Seq<(Seq<char>, Mod)>, k: Seq<char>, i: int)
    requires
        0 <= i,
    ensures
        crate::textmap::key_index_from(mod_views(s), k, i) == crate::textmap::key_index_from(
            s,
            k,
            i,
        ),
    decreases s.len() - i,
{
    if i < s.len() {
        assert(mod_views(s)[i].0 == s[i].0);
        lemma_key_index_views(s, k, i + 1);
    }
}

proof fn lemma_upsert_views(s: Seq<(Seq<char>, Mod)>, k: Seq<char>, m: Mod)
    ensures
        mod_views(upsert(s, k, m)) == upsert(mod_views(s), k, m.view()),
{
    lemma_key_index_views(s, k, 0);
    match crate::textmap::key_index(s, k) {
        Some(i) => {
            crate::textmap::lemma_key_index_from(s, k, 0);
            assert(mod_views(upsert(s, k, m)) =~= upsert(mod_views(s), k, m.view()));
        },
        None => {
            assert(mod_views(upsert(s, k, m)) =~= upsert(mod_views(s), k, m.view()));
        },
    }
}

impl Default for ModManager {
    fn default() -> (r: Self)
        ensures
            r.wf(),
            !r.is_loaded(),
            r.state() == (LoadState { mods: seq![], warnings: seq![] }),
    {
        ModManager::new()
    }
}

/// The registry of mods, with the warnings of the last load pass.
pub struct ModManager {
    mods: TextMap<Mod>,
    loaded: bool,
    warnings: Vec<String>,
}

impl ModManager {
    pub closed spec fn state(&self) -> LoadState {
        LoadState { mods: mod_views(self.mods.view()), warnings: crate::record::texts(self.warnings@) }
    }

    /// Whether a load pass has completed.
    pub closed spec fn is_loaded(&self) -> bool {
        self.loaded
    }

    pub closed spec fn wf(&self) -> bool {
        self.mods.wf()
    }

    /// An empty registry that has not loaded yet.
    pub fn new() -> (r: Self)
        ensures
            r.wf(),
            !r.is_loaded(),
            r.state() == (LoadState { mods: seq![], warnings: seq![] }),
    {
        let r = ModManager { mods: TextMap::new(), loaded: false, warnings: Vec::new() };
        assert(r.state().mods =~= seq![]);
        assert(r.state().warnings =~= seq![]);
        r
    }

    fn add_warning(&mut self, w: String)
        ensures
            final(self).mods == old(self).mods,
            final(self).loaded == old(self).loaded,
            final(self).state() == (LoadState {
                mods: old(self).state().mods,
                warnings: old(self).state().warnings.push(w@),
            }),
    {
        let ghost before = self.warnings@;
        self.warnings.push(w);
        assert(crate::record::texts(self.warnings@) =~= crate::record::texts(before).push(w@));
    }

    fn load_section(&mut self, path: &str, section: &str)
        requires
            old(self).wf(),
        ensures
            final(self).wf(),
            final(self).loaded == old(self).loaded,
            final(self).state() == apply_section(old(self).state(), path@, section@),
    {
        if let Some((id, body)) = read_header(section) {
            let rec = SimplifiedMod::parse(body.as_str());
            self.apply_record(path, id, rec);
        }
    }

    /// Records section `id` of the file at `path`, read as `rec`: its mod, or
    /// a warning when the section did not read as a mod.
    pub fn apply_record(&mut self, path: &str, id: String, rec: Option<SimplifiedMod>)
        requires
            old(self).wf(),
        ensures
            final(self).wf(),
            final(self).is_loaded() == old(self).is_loaded(),
            final(self).state() == apply_decoded(old(self).state(), path@, id@, record_view(rec)),
    {
        match rec {
            Some(r) => {
                let m = r.into_mod();
                proof {
                    lemma_upsert_views(self.mods.view(), id@, m);
                }
                self.mods.insert(id, m);
            },
            None => {
                let w = section_warning_text(path, id.as_str());
                self.add_warning(w);
            },
        }
    }

    fn load_file(&mut self, path: &str, content: &str)
        requires
            old(self).wf(),
        ensures
            final(self).wf(),
            final(self).loaded == old(self).loaded,
            final(self).state() == apply_file(old(self).state(), path@, content@),
    {
        if !has_mod_extension(path) {
            return;
        }
        match classify(content) {
            FileFormat::Simplified => {
                let secs = split_sections(content);
                let ghost sv = secs@.map_values(|s: String| s@);
                let ghost st0 = self.state();
                let mut i: usize = 0;
                while i < secs.len()
                    invariant
                        self.wf(),
                        self.loaded == old(self).loaded,
                        sv == secs@.map_values(|s: String| s@),
                        i <= secs@.len(),
                        self.state() == apply_sections(st0, path@, sv.subrange(0, i as int)),
                    decreases secs@.len() - i,
                {
                    proof {
                        assert(sv.subrange(0, i + 1).drop_last() =~= sv.subrange(0, i as int));
                        assert(sv[i as int] == secs@[i as int]@);
                    }
                    self.load_section(path, secs[i].as_str());
                    i = i + 1;
                }
                assert(sv.subrange(0, secs@.len() as int) =~= sv);
            },
            FileFormat::Legacy => {
                let w = legacy_warning_text(path);
                self.add_warning(w);
            },
            FileFormat::Unknown => {
                let w = unknown_warning_text(path);
                self.add_warning(w);
            },
        }
    }

    /// Loads the mods of `dir` the first time it is called; afterwards it
    /// changes nothing.
    pub fn load_mods(&mut self, dir: &ModDir) -> (r: Result<(), ModError>)
        requires
            old(self).wf(),
        ensures
            final(self).wf(),
            old(self).is_loaded() ==> r is Ok && final(self).state() == old(self).state()
                && final(self).is_loaded(),
            !old(self).is_loaded() ==> {
                &&& final(self).state() == pass_result(old(self).state().mods, *dir)
                &&& final(self).is_loaded() == r is Ok
                &&& r matches Err(e) ==> pass_error(*dir) == Some(e)
                &&& r is Ok ==> pass_error(*dir) is None
            },
    {
        if !self.loaded {
            self.load_mods_from_dir(dir)?;
            self.loaded = true;
        }
        Ok(())
    }

    /// Drops every mod and warning and loads the mods of `dir` afresh.
    pub fn reload_mods(&mut self, dir: &ModDir) -> (r: Result<(), ModError>)
        requires
            old(self).wf(),
        ensures
            final(self).wf(),
            final(self).state() == reload_result(old(self).state(), *dir),
            final(self).is_loaded() == r is Ok,
            r matches Err(e) ==> pass_error(*dir) == Some(e),
            r is Ok ==> pass_error(*dir) is None,
    {
        self.mods.clear();
        self.loaded = false;
        assert(mod_views(self.mods.view()) =~= seq![]);
        self.load_mods_from_dir(dir)?;
        self.loaded = true;
        Ok(())
    }

    /// The mod named `name`.
    pub fn get_mod(&self, name: &str) -> (r: Option<&Mod>)
        ensures
            r matches Some(m) ==> lookup(self.state().mods, name@) == Some(m.view()),
            r is None ==> lookup(self.state().mods, name@) is None,
    {
        proof {
            lemma_key_index_views(self.mods.view(), name@, 0);
            crate::textmap::lemma_key_index_from(self.mods.view(), name@, 0);
        }
        self.mods.get(name)
    }

    /// The formula of the mod named `name`.
    pub fn get_expression(&self, name: &str) -> (r: Option<String>)
        ensures
            r matches Some(f) ==> lookup(self.state().mods, name@) matches Some(m)
                && m.method == Some(f@),
            r is None ==> (lookup(self.state().mods, name@) matches Some(m) ==> m.method is None),
    {
        match self.get_mod(name) {
            Some(m) => match &m.calc.howto {
                Some(f) => Some(f.clone()),
                None => None,
            },
            None => None,
        }
    }

    /// The parameters of the mod named `name`, in binding order.
    pub fn get_required_vars(&self, name: &str) -> (r: Option<Vec<String>>)
        ensures
            r matches Some(v) ==> lookup(self.state().mods, name@) matches Some(m) && m.needs
                == crate::record::texts(v@),
            r is None ==> lookup(self.state().mods, name@) is None,
    {
        match self.get_mod(name) {
            Some(m) => Some(m.var.needvars.clone()),
            None => None,
        }
    }

    /// The identifiers of all mods.
    pub fn list_mods(&self) -> (r: Vec<String>)
        requires
            self.wf(),
        ensures
            crate::record::texts(r@) == keys_of(self.state().mods),
            distinct_keys(self.state().mods),
            forall|i: int, j: int| 0 <= i < j < r@.len() ==> r@[i]@ != r@[j]@,
    {
        let r = self.mods.keys();
        assert(keys_of(self.state().mods) =~= keys_of(self.mods.view()));
        assert forall|i: int, j: int| 0 <= i < j < self.state().mods.len() implies self.state().mods[i].0
            != self.state().mods[j].0 by {
            assert(self.state().mods[i].0 == self.mods.view()[i].0);
            assert(self.state().mods[j].0 == self.mods.view()[j].0);
        }
        assert forall|i: int, j: int| 0 <= i < j < r@.len() implies r@[i]@ != r@[j]@ by {
            assert(crate::record::texts(r@)[i] == r@[i]@);
            assert(crate::record::texts(r@)[j] == r@[j]@);
            assert(keys_of(self.mods.view())[i] == self.mods.view()[i].0);
            assert(keys_of(self.mods.view())[j] == self.mods.view()[j].0);
        }
        r
    }

    /// The warnings of the last load pass.
    pub fn get_warnings(&self) -> (r: &[String])
        ensures
            crate::record::texts(r@) == self.state().warnings,
    {
        self.warnings.as_slice()
    }

    /// Drops the warnings.
    pub fn clear_warnings(&mut self)
        requires
            old(self).wf(),
        ensures
            final(self).wf(),
            final(self).is_loaded() == old(self).is_loaded(),
            final(self).state() == (LoadState { mods: old(self).state().mods, warnings: seq![] }),
    {
        self.warnings.clear();
        assert(crate::record::texts(self.warnings@) =~= seq![]);
    }

    /// One load pass: the warnings are cleared, then each file is read.
    fn load_mods_from_dir(&mut self, dir: &ModDir) -> (r: Result<(), ModError>)
        requires
            old(self).wf(),
        ensures
            final(self).wf(),
            final(self).loaded == old(self).loaded,
            final(self).state() == pass_result(old(self).state().mods, *dir),
            r matches Err(e) ==> pass_error(*dir) == Some(e),
            r is Ok ==> pass_error(*dir) is None,
    {
        self.warnings.clear();
        assert(crate::record::texts(self.warnings@) =~= seq![]);
        assert(self.state() == (LoadState { mods: old(self).state().mods, warnings: seq![] }));
        match dir {
            ModDir::Missing => Ok(()),
            ModDir::NotADirectory => Err(ModError::NotADirectory),
            ModDir::Unreadable(m) => Err(ModError::Io(m.clone())),
            ModDir::Files(fs) => {
                let ghost fv = files_view(fs@);
                let ghost st0 = self.state();
                let mut i: usize = 0;
                while i < fs.len()
                    invariant
                        self.wf(),
                        self.loaded == old(self).loaded,
                        fv == files_view(fs@),
                        i <= fs@.len(),
                        self.state() == load_pass(st0, fv.subrange(0, i as int)),
                    decreases fs@.len() - i,
                {
                    proof {
                        assert(fv.subrange(0, i + 1).drop_last() =~= fv.subrange(0, i as int));
                        assert(fv[i as int] == (fs@[i as int].path@, fs@[i as int].content@));
                    }
                    self.load_file(fs[i].path.as_str(), fs[i].content.as_str());
                    i = i + 1;
                }
                assert(fv.subrange(0, fs@.len() as int) =~= fv);
                Ok(())
            },
        }
    }
}

} // verus!
