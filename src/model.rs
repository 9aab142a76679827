//! Manifest types: the third-party manifest, the editable intermediate
//! manifest, the catalog's answers, and the deployable package entries.
use vstd::prelude::*;

use crate::order::{sorted_by_key, sort_by_key, Keyed};
use crate::text::{decimal, lex_le, push_decimal, replace_char, replaced, str_eq, str_le};

verus! {

/// The game version a manifest targets.
#[derive(Clone, Debug)]
pub struct MinecraftVersion {
    pub version: String,
}

/// A mod listed in the third-party manifest, by catalog ids.
#[derive(Clone, Debug)]
pub struct ModFile {
    pub project_id: u32,
    pub file_id: u32,
    pub required: bool,
}

/// The third-party manifest.
#[derive(Clone, Debug)]
pub struct CurseManifest {
    pub minecraft: MinecraftVersion,
    pub files: Vec<ModFile>,
}

/// Links of a catalog entry.
#[derive(Clone, Debug)]
pub struct AddonLinks {
    pub website_url: String,
}

/// A catalog entry.
#[derive(Clone, Debug)]
pub struct AddonInfo {
    pub name: String,
    pub slug: String,
    pub links: AddonLinks,
    pub id: u32,
}

/// A file reference in the intermediate manifest.
#[derive(Clone, Debug)]
pub struct YamlModFile {
    pub name: Option<String>,
    pub id: Option<u32>,
    pub maturity: Option<String>,
    pub file_page_url: Option<String>,
    pub src: Option<String>,
    pub md5: Option<String>,
}

/// On which side a mod is installed.
#[derive(Clone, Copy, Debug, PartialEq, Eq, Structural)]
pub enum Side {
    Client,
    Server,
    Both,
}

/// A mod of the intermediate manifest.
#[derive(Clone, Debug)]
pub struct YamlMod {
    pub name: String,
    pub id: Option<u32>,
    pub side: Option<Side>,
    pub required: Option<bool>,
    pub default: Option<bool>,
    pub files: Option<Vec<YamlModFile>>,
}

/// The intermediate manifest: a game version, the manifests it imports, and
/// its mods.
#[derive(Clone, Debug)]
pub struct YamlManifest {
    pub version: String,
    pub imports: Vec<String>,
    pub mods: Vec<YamlMod>,
}

/// What is derived from a file's content: its hashes, size and the URL it
/// was fetched from.
#[derive(Clone, Debug)]
pub struct CurseModFileInfo {
    pub md5: String,
    pub sha256: String,
    pub size: u64,
    pub download_url: String,
}

/// A mod entry of the deployable package manifest.
#[derive(Clone, Debug)]
pub struct NixMod {
    pub slug: String,
    pub title: String,
    pub id: u32,
    pub side: Side,
    pub required: bool,
    pub default: bool,
    pub deps: Vec<String>,
    pub filename: String,
    pub encoded: String,
    pub page: String,
    pub src: String,
    pub size: u64,
    pub md5: String,
    pub sha256: String,
}

/// A file of a catalog project.
#[derive(Clone, Debug)]
pub struct CurseModFile {
    pub id: u32,
    pub file_name: String,
    pub file_date: String,
    pub download_url: String,
    pub game_version: Vec<String>,
}

fn copy_opt_string(s: &Option<String>) -> (r: Option<String>)
    ensures
        r == *s,
{
    match s {
        Some(v) => Some(v.clone()),
        None => None,
    }
}

fn copy_strings(v: &Vec<String>) -> (r: Vec<String>)
    ensures
        r@ == v@,
{
    let mut r: Vec<String> = Vec::new();
    let mut i: usize = 0;
    while i < v.len()
        invariant
            i <= v@.len(),
            r@ == v@.subrange(0, i as int),
        decreases v@.len() - i,
    {
        r.push(v[i].clone());
        assert(r@ =~= v@.subrange(0, i as int + 1));
        i = i + 1;
    }
    assert(v@.subrange(0, v@.len() as int) =~= v@);
    r
}

impl YamlModFile {
    /// A file reference that names only the file id.
    pub fn with_id(id: u32) -> (r: YamlModFile)
        ensures
            r.id == Some(id),
            r.name is None,
            r.maturity is None,
            r.file_page_url is None,
            r.src is None,
            r.md5 is None,
    {
        YamlModFile { name: None, id: Some(id), maturity: None, file_page_url: None, src: None, md5: None }
    }

    /// A field-by-field copy.
    pub fn duplicate(&self) -> (r: YamlModFile)
        ensures
            r == *self,
    {
        YamlModFile {
            name: copy_opt_string(&self.name),
            id: self.id,
            maturity: copy_opt_string(&self.maturity),
            file_page_url: copy_opt_string(&self.file_page_url),
            src: copy_opt_string(&self.src),
            md5: copy_opt_string(&self.md5),
        }
    }
}

fn copy_files(v: &Vec<YamlModFile>) -> (r: Vec<YamlModFile>)
    ensures
        r@ == v@,
{
    let mut r: Vec<YamlModFile> = Vec::new();
    let mut i: usize = 0;
    while i < v.len()
        invariant
            i <= v@.len(),
            r@ == v@.subrange(0, i as int),
        decreases v@.len() - i,
    {
        r.push(v[i].duplicate());
        assert(r@ =~= v@.subrange(0, i as int + 1));
        i = i + 1;
    }
    assert(v@.subrange(0, v@.len() as int) =~= v@);
    r
}

/// The value of a mod, with its files as a sequence.
pub struct YamlModView {
    pub name: Seq<char>,
    pub id: Option<u32>,
    pub side: Option<Side>,
    pub required: Option<bool>,
    pub default: Option<bool>,
    pub files: Option<Seq<YamlModFile>>,
}

impl View for YamlMod {
    type V = YamlModView;

    open spec fn view(&self) -> YamlModView {
        YamlModView {
            name: self.name@,
            id: self.id,
            side: self.side,
            required: self.required,
            default: self.default,
            files: match self.files {
                Some(fs) => Some(fs@),
                None => None,
            },
        }
    }
}

/// The values of a sequence of mods.
pub open spec fn mod_views(s: Seq<YamlMod>) -> Seq<YamlModView> {
    s.map_values(|m: YamlMod| m@)
}

impl YamlMod {
    /// A mod with a catalog id and a single file reference, all else unset.
    pub fn with_files(name: &str, id: u32, file: YamlModFile) -> (r: YamlMod)
        ensures
            r.name@ == name@,
            r.id == Some(id),
            r.side is None,
            r.required is None,
            r.default is None,
            r.files matches Some(fs) && fs@ == seq![file],
    {
        YamlMod {
            name: name.to_owned(),
            id: Some(id),
            side: None,
            required: None,
            default: None,
            files: Some(vec![file]),
        }
    }

    /// A mod with a catalog id and nothing else set.
    pub fn with_id(name: &str, id: u32) -> (r: YamlMod)
        ensures
            r.name@ == name@,
            r.id == Some(id),
            r.side is None,
            r.required is None,
            r.default is None,
            r.files is None,
    {
        YamlMod { name: name.to_owned(), id: Some(id), side: None, required: None, default: None, files: None }
    }

    /// A mod known by name alone, its id to be looked up.
    pub fn with_name(name: &str) -> (r: YamlMod)
        ensures
            r.name@ == name@,
            r.id is None,
            r.side is None,
            r.required is None,
            r.default is None,
            r.files is None,
    {
        YamlMod { name: name.to_owned(), id: None, side: None, required: None, default: None, files: None }
    }

    /// A field-by-field copy.
    pub fn duplicate(&self) -> (r: YamlMod)
        ensures
            r@ == self@,
    {
        YamlMod {
            name: self.name.clone(),
            id: self.id,
            side: self.side,
            required: self.required,
            default: self.default,
            files: match &self.files {
                Some(fs) => Some(copy_files(fs)),
                None => None,
            },
        }
    }
}

/// Whether some element of `s` has key `k`.
pub open spec fn key_seen<T>(s: Seq<T>, key: spec_fn(T) -> Seq<char>, k: Seq<char>) -> bool {
    exists|i: int| 0 <= i < s.len() && #[trigger] key(s[i]) == k
}

/// The first element of `s` for each key, in the order of `s`.
pub open spec fn first_by_key<T>(s: Seq<T>, key: spec_fn(T) -> Seq<char>) -> Seq<T>
    decreases s.len(),
{
    if s.len() == 0 {
        seq![]
    } else if key_seen(s.drop_last(), key, key(s.last())) {
        first_by_key(s.drop_last(), key)
    } else {
        first_by_key(s.drop_last(), key).push(s.last())
    }
}

/// A key occurs among the kept elements exactly when it occurs in `s`.
pub proof fn lemma_first_by_key_seen<T>(s: Seq<T>, key: spec_fn(T) -> Seq<char>, k: Seq<char>)
    ensures
        key_seen(first_by_key(s, key), key, k) == key_seen(s, key, k),
    decreases s.len(),
{
    if s.len() > 0 {
        let front = s.drop_last();
        lemma_first_by_key_seen(front, key, k);
        let kept = first_by_key(front, key);
        if key_seen(front, key, k) {
            let i = choose|i: int| 0 <= i < front.len() && #[trigger] key(front[i]) == k;
            assert(key(s[i]) == k);
        }
        if key_seen(s, key, k) && !key_seen(front, key, k) {
            let i = choose|i: int| 0 <= i < s.len() && #[trigger] key(s[i]) == k;
            if i < s.len() - 1 {
                assert(key(front[i]) == k);
            }
        }
        if !key_seen(front, key, key(s.last())) {
            let all = kept.push(s.last());
            if key_seen(kept, key, k) {
                let i = choose|i: int| 0 <= i < kept.len() && #[trigger] key(kept[i]) == k;
                assert(key(all[i]) == k);
            }
            if key_seen(all, key, k) && k != key(s.last()) {
                let i = choose|i: int| 0 <= i < all.len() && #[trigger] key(all[i]) == k;
                assert(key(kept[i]) == k);
            }
            assert(key(all[all.len() - 1]) == key(s.last()));
        }
    }
}

/// The key of a mod: its name.
pub open spec fn mod_name(m: YamlMod) -> Seq<char> {
    m.name@
}

/// The key of an import: the path itself.
pub open spec fn import_path(s: String) -> Seq<char> {
    s@
}

/// The mods of the given manifests, one manifest after another.
pub open spec fn mods_of(ms: Seq<YamlManifest>) -> Seq<YamlMod>
    decreases ms.len(),
{
    if ms.len() == 0 {
        seq![]
    } else {
        mods_of(ms.drop_last()) + ms.last().mods@
    }
}

/// The imports of the given manifests, one manifest after another.
pub open spec fn imports_of(ms: Seq<YamlManifest>) -> Seq<String>
    decreases ms.len(),
{
    if ms.len() == 0 {
        seq![]
    } else {
        imports_of(ms.drop_last()) + ms.last().imports@
    }
}

/// Appends each mod of `add` whose name `out` does not hold yet.
fn add_new_mods(out: &mut Vec<YamlMod>, add: &Vec<YamlMod>, Ghost(seen): Ghost<Seq<YamlMod>>)
    requires
        mod_views(old(out)@) == mod_views(first_by_key(seen, |m: YamlMod| mod_name(m))),
    ensures
        mod_views(final(out)@) == mod_views(first_by_key(seen + add@, |m: YamlMod| mod_name(m))),
{
    let ghost key = |m: YamlMod| mod_name(m);
    let mut i: usize = 0;
    while i < add.len()
        invariant
            i <= add@.len(),
            mod_views(out@) == mod_views(first_by_key(seen + add@.subrange(0, i as int), key)),
            key == (|m: YamlMod| mod_name(m)),
        decreases add@.len() - i,
    {
        let ghost done = seen + add@.subrange(0, i as int);
        let ghost next = seen + add@.subrange(0, i as int + 1);
        let ghost kept = first_by_key(done, key);
        let ghost name = add@[i as int].name@;
        assert(next.drop_last() =~= done);
        assert(next.last() == add@[i as int]);
        assert(out@.len() == kept.len()) by {
            assert(mod_views(out@).len() == mod_views(kept).len());
        }
        let mut found = false;
        let mut j: usize = 0;
        while j < out.len()
            invariant
                j <= out@.len(),
                out@.len() == kept.len(),
                mod_views(out@) == mod_views(kept),
                i < add@.len(),
                name == add@[i as int].name@,
                key == (|m: YamlMod| mod_name(m)),
                found == exists|k: int| 0 <= k < j && #[trigger] key(kept[k]) == name,
            decreases out@.len() - j,
        {
            assert(mod_views(out@)[j as int] == mod_views(kept)[j as int]);
            assert(key(kept[j as int]) == out@[j as int].name@);
            if str_eq(out[j].name.as_str(), add[i].name.as_str()) {
                found = true;
            }
            j = j + 1;
        }
        proof {
            lemma_first_by_key_seen(done, key, name);
        }
        if !found {
            let ghost before = out@;
            out.push(add[i].duplicate());
            assert(!key_seen(kept, key, name));
            assert(key(next.last()) == name);
            assert(first_by_key(next, key) == kept.push(add@[i as int]));
            assert(mod_views(out@) =~= mod_views(before).push(add@[i as int]@));
            assert(mod_views(kept.push(add@[i as int])) =~= mod_views(kept).push(add@[i as int]@));
        } else {
            assert(key(next.last()) == name);
            assert(mod_views(out@) =~= mod_views(first_by_key(next, key)));
        }
        i = i + 1;
    }
    assert(add@.subrange(0, add@.len() as int) =~= add@);
}

/// Appends each import of `add` that `out` does not hold yet.
fn add_new_imports(out: &mut Vec<String>, add: &Vec<String>, Ghost(seen): Ghost<Seq<String>>)
    requires
        old(out)@ == first_by_key(seen, |s: String| import_path(s)),
    ensures
        final(out)@ == first_by_key(seen + add@, |s: String| import_path(s)),
{
    let ghost key = |s: String| import_path(s);
    let mut i: usize = 0;
    while i < add.len()
        invariant
            i <= add@.len(),
            out@ == first_by_key(seen + add@.subrange(0, i as int), key),
            key == (|s: String| import_path(s)),
        decreases add@.len() - i,
    {
        let ghost done = seen + add@.subrange(0, i as int);
        let ghost next = seen + add@.subrange(0, i as int + 1);
        assert(next.drop_last() =~= done);
        assert(next.last() == add@[i as int]);
        let mut found = false;
        let mut j: usize = 0;
        while j < out.len()
            invariant
                j <= out@.len(),
                out@ == first_by_key(done, key),
                i < add@.len(),
                key == (|s: String| import_path(s)),
                found == exists|k: int| 0 <= k < j && #[trigger] key(out@[k]) == key(add@[i as int]),
            decreases out@.len() - j,
        {
            assert(key(out@[j as int]) == out@[j as int]@);
            if str_eq(out[j].as_str(), add[i].as_str()) {
                found = true;
            }
            j = j + 1;
        }
        proof {
            lemma_first_by_key_seen(done, key, key(add@[i as int]));
        }
        if !found {
            out.push(add[i].clone());
        }
        i = i + 1;
    }
    assert(add@.subrange(0, add@.len() as int) =~= add@);
}

impl YamlManifest {
    /// Merges imported manifests into this one: the version is this
    /// manifest's; the mods are, for each name, the first mod of that name
    /// found in this manifest and then in `others` in order, so that the
    /// importing manifest takes priority; the imports are those of `others`,
    /// each once, in order of first appearance.
    pub fn merge(&self, others: Vec<YamlManifest>) -> (r: YamlManifest)
        ensures
            r.version == self.version,
            mod_views(r.mods@) == mod_views(
                first_by_key(self.mods@ + mods_of(others@), |m: YamlMod| mod_name(m)),
            ),
            r.imports@ == first_by_key(imports_of(others@), |s: String| import_path(s)),
    {
        let mut mods: Vec<YamlMod> = Vec::new();
        let mut imports: Vec<String> = Vec::new();
        assert(Seq::<YamlMod>::empty() + self.mods@ =~= self.mods@);
        assert(mod_views(mods@) =~= mod_views(first_by_key(Seq::<YamlMod>::empty(), |m: YamlMod| mod_name(m))));
        add_new_mods(&mut mods, &self.mods, Ghost(Seq::empty()));
        let mut i: usize = 0;
        while i < others.len()
            invariant
                i <= others@.len(),
                mod_views(mods@) == mod_views(
                    first_by_key(
                        self.mods@ + mods_of(others@.subrange(0, i as int)),
                        |m: YamlMod| mod_name(m),
                    ),
                ),
                imports@ == first_by_key(
                    imports_of(others@.subrange(0, i as int)),
                    |s: String| import_path(s),
                ),
            decreases others@.len() - i,
        {
            let ghost before = others@.subrange(0, i as int);
            let ghost after = others@.subrange(0, i as int + 1);
            assert(after.drop_last() =~= before);
            add_new_imports(&mut imports, &others[i].imports, Ghost(imports_of(before)));
            add_new_mods(&mut mods, &others[i].mods, Ghost(self.mods@ + mods_of(before)));
            assert(self.mods@ + mods_of(after) =~= self.mods@ + mods_of(before) + others@[i as int].mods@);
            i = i + 1;
        }
        assert(others@.subrange(0, others@.len() as int) =~= others@);
        YamlManifest { version: self.version.clone(), imports, mods }
    }
}

impl Keyed for YamlMod {
    open spec fn sort_key(&self) -> Seq<char> {
        self.name@
    }

    fn key_str(&self) -> (r: &str) {
        self.name.as_str()
    }
}

impl Keyed for NixMod {
    open spec fn sort_key(&self) -> Seq<char> {
        self.slug@
    }

    fn key_str(&self) -> (r: &str) {
        self.slug.as_str()
    }
}

/// The intermediate-manifest entry for a listed mod: named by the catalog
/// entry's slug, with the project id and the listed file id.
pub fn generate_yaml_mod_entry(mod_info: &ModFile, addon_info: &AddonInfo) -> (r: YamlMod)
    ensures
        r.name@ == addon_info.slug@,
        r.id == Some(mod_info.project_id),
        r.side is None,
        r.required is None,
        r.default is None,
        r.files matches Some(fs) && fs@.len() == 1 && fs@[0].id == Some(mod_info.file_id)
            && fs@[0].name is None && fs@[0].maturity is None && fs@[0].file_page_url is None
            && fs@[0].src is None && fs@[0].md5 is None,
{
    YamlMod::with_files(addon_info.slug.as_str(), mod_info.project_id, YamlModFile::with_id(mod_info.file_id))
}

/// The intermediate manifest for a game version and its entries: no
/// imports, and the entries ordered by name.
pub fn generate_yaml_manifest(version: String, entries: Vec<YamlMod>) -> (r: YamlManifest)
    ensures
        r.version == version,
        r.imports@.len() == 0,
        r.mods@.to_multiset() == entries@.to_multiset(),
        sorted_by_key(r.mods@),
{
    YamlManifest { version, imports: Vec::new(), mods: sort_by_key(entries) }
}

/// The file id that a mod asks for: the id of its first file reference.
pub open spec fn requested_file(m: YamlMod) -> Option<u32> {
    match m.files {
        Some(fs) => if fs@.len() > 0 {
            fs@[0].id
        } else {
            None
        },
        None => None,
    }
}

impl YamlMod {
    /// The specific file this mod asks for, if any; without one the newest
    /// file is taken.
    pub fn requested_file_id(&self) -> (r: Option<u32>)
        ensures
            r == requested_file(*self),
    {
        match &self.files {
            Some(fs) => if fs.len() > 0 {
                fs[0].id
            } else {
                None
            },
            None => None,
        }
    }
}

/// The position of a newest file: one whose date is not before any other's.
pub fn newest_file(files: &Vec<CurseModFile>) -> (r: Option<usize>)
    ensures
        r is None <==> files@.len() == 0,
        r matches Some(i) ==> i < files@.len() && forall|j: int|
            0 <= j < files@.len() ==> lex_le(#[trigger] files@[j].file_date@, files@[i as int].file_date@),
{
    if files.len() == 0 {
        return None;
    }
    let mut best: usize = 0;
    let mut k: usize = 1;
    proof {
        crate::text::lemma_lex_refl(files@[0].file_date@);
    }
    while k < files.len()
        invariant
            best < files@.len(),
            k <= files@.len(),
            forall|j: int| 0 <= j < k ==> lex_le(#[trigger] files@[j].file_date@, files@[best as int].file_date@),
        decreases files@.len() - k,
    {
        if !str_le(files[k].file_date.as_str(), files[best].file_date.as_str()) {
            proof {
                crate::text::lemma_lex_total(files@[k as int].file_date@, files@[best as int].file_date@);
                crate::text::lemma_lex_refl(files@[k as int].file_date@);
                assert forall|j: int| 0 <= j < k implies lex_le(
                    #[trigger] files@[j].file_date@,
                    files@[k as int].file_date@,
                ) by {
                    crate::text::lemma_lex_trans(
                        files@[j].file_date@,
                        files@[best as int].file_date@,
                        files@[k as int].file_date@,
                    );
                }
            }
            best = k;
        }
        k = k + 1;
    }
    Some(best)
}

/// A file name as the package manifest writes it: without parentheses.
pub open spec fn fixed_filename(name: Seq<char>) -> Seq<char> {
    replaced(replaced(name, '(', seq![]), ')', seq![])
}

/// A download URL as the package manifest writes it: `+` encoded as `%2B`,
/// then spaces written as `+`.
pub open spec fn fixed_src(url: Seq<char>) -> Seq<char> {
    replaced(replaced(url, '+', seq!['%', '2', 'B']), ' ', seq!['+'])
}

fn fix_filename(name: &str) -> (r: String)
    ensures
        r@ == fixed_filename(name@),
{
    proof {
        reveal_strlit("");
    }
    let a = replace_char(name, '(', "");
    assert(""@ =~= Seq::<char>::empty());
    replace_char(a.as_str(), ')', "")
}

fn fix_src(url: &str) -> (r: String)
    ensures
        r@ == fixed_src(url@),
{
    proof {
        reveal_strlit("%2B");
        reveal_strlit("+");
    }
    let a = replace_char(url, '+', "%2B");
    assert("%2B"@ =~= seq!['%', '2', 'B']);
    assert("+"@ =~= seq!['+']);
    replace_char(a.as_str(), ' ', "+")
}

/// The package-manifest entry for a mod of the intermediate manifest,
/// resolved to `project_id`, its catalog entry, the chosen file, and what was
/// derived from that file's content. Unset side, required and default flags
/// take `Both`, `true` and `true`.
pub fn nix_mod_entry(
    yaml_mod: &YamlMod,
    project_id: u32,
    addon_info: &AddonInfo,
    mod_file: &CurseModFile,
    file_info: &CurseModFileInfo,
) -> (r: NixMod)
    ensures
        r.slug@ == yaml_mod.name@,
        r.title@ == addon_info.name@,
        r.id == project_id,
        r.side == match yaml_mod.side {
            Some(s) => s,
            None => Side::Both,
        },
        r.required == match yaml_mod.required {
            Some(b) => b,
            None => true,
        },
        r.default == match yaml_mod.default {
            Some(b) => b,
            None => true,
        },
        r.deps@.len() == 0,
        r.filename@ == fixed_filename(mod_file.file_name@),
        r.encoded@ == fixed_filename(mod_file.file_name@),
        r.page@ == addon_info.links.website_url@,
        r.src@ == fixed_src(file_info.download_url@),
        r.size == file_info.size,
        r.md5@ == file_info.md5@,
        r.sha256@ == file_info.sha256@,
{
    let filename = fix_filename(mod_file.file_name.as_str());
    NixMod {
        slug: yaml_mod.name.clone(),
        title: addon_info.name.clone(),
        id: project_id,
        side: match yaml_mod.side {
            Some(s) => s,
            None => Side::Both,
        },
        required: match yaml_mod.required {
            Some(b) => b,
            None => true,
        },
        default: match yaml_mod.default {
            Some(b) => b,
            None => true,
        },
        deps: Vec::new(),
        encoded: filename.clone(),
        filename,
        page: addon_info.links.website_url.clone(),
        src: fix_src(file_info.download_url.as_str()),
        size: file_info.size,
        md5: file_info.md5.clone(),
        sha256: file_info.sha256.clone(),
    }
}

/// The lowercase name of a side.
pub open spec fn side_text(s: Side) -> Seq<char> {
    match s {
        Side::Client => "client"@,
        Side::Server => "server"@,
        Side::Both => "both"@,
    }
}

/// A boolean as the package manifest writes it.
pub open spec fn bool_text(b: bool) -> Seq<char> {
    if b {
        "true"@
    } else {
        "false"@
    }
}

impl Side {
    /// The lowercase name of this side.
    pub fn name(&self) -> (r: &'static str)
        ensures
            r@ == side_text(*self),
    {
        match self {
            Side::Client => "client",
            Side::Server => "server",
            Side::Both => "both",
        }
    }
}

fn bool_str(b: bool) -> (r: &'static str)
    ensures
        r@ == bool_text(b),
{
    if b {
        "true"
    } else {
        "false"
    }
}

/// The package-manifest text of one mod entry.
pub open spec fn nix_entry_text(m: NixMod) -> Seq<char> {
    "    \""@ + m.slug@ + "\" = {\n        \"title\" = \""@ + m.title@ + "\";\n        \"name\" = \""@
        + m.slug@ + "\";\n        \"id\" = "@ + decimal(m.id as nat) + ";\n        \"side\" = \""@
        + side_text(m.side) + "\";\n        \"required\" = "@ + bool_text(m.required)
        + ";\n        \"default\" = "@ + bool_text(m.default)
        + ";\n        \"deps\" = [];\n        \"filename\" = \""@ + m.filename@
        + "\";\n        \"encoded\" = \""@ + m.encoded@ + "\";\n        \"page\" = \""@ + m.page@
        + "\";\n        \"src\" = \""@ + m.src@
        + "\";\n        \"type\" = \"remote\";\n        \"md5\" = \""@ + m.md5@
        + "\";\n        \"sha256\" = \""@ + m.sha256@ + "\";\n        \"size\" = "@
        + decimal(m.size as nat) + ";\n    };"@
}

impl NixMod {
    /// This entry as package-manifest text.
    pub fn to_nix_entry(&self) -> (r: String)
        ensures
            r@ == nix_entry_text(*self),
    {
        let mut s = String::new();
        s.append("    \"");
        s.append(self.slug.as_str());
        s.append("\" = {\n        \"title\" = \"");
        s.append(self.title.as_str());
        s.append("\";\n        \"name\" = \"");
        s.append(self.slug.as_str());
        s.append("\";\n        \"id\" = ");
        push_decimal(&mut s, self.id as u64);
        s.append(";\n        \"side\" = \"");
        s.append(self.side.name());
        s.append("\";\n        \"required\" = ");
        s.append(bool_str(self.required));
        s.append(";\n        \"default\" = ");
        s.append(bool_str(self.default));
        s.append(";\n        \"deps\" = [];\n        \"filename\" = \"");
        s.append(self.filename.as_str());
        s.append("\";\n        \"encoded\" = \"");
        s.append(self.encoded.as_str());
        s.append("\";\n        \"page\" = \"");
        s.append(self.page.as_str());
        s.append("\";\n        \"src\" = \"");
        s.append(self.src.as_str());
        s.append("\";\n        \"type\" = \"remote\";\n        \"md5\" = \"");
        s.append(self.md5.as_str());
        s.append("\";\n        \"sha256\" = \"");
        s.append(self.sha256.as_str());
        s.append("\";\n        \"size\" = ");
        push_decimal(&mut s, self.size);
        s.append(";\n    };");
        assert(s@ =~= nix_entry_text(*self));
        s
    }
}

/// The entries' texts, one per line.
pub open spec fn nix_entries_text(ms: Seq<NixMod>) -> Seq<char>
    decreases ms.len(),
{
    if ms.len() == 0 {
        seq![]
    } else if ms.len() == 1 {
        nix_entry_text(ms[0])
    } else {
        nix_entries_text(ms.drop_last()) + "\n"@ + nix_entry_text(ms.last())
    }
}

/// The package-manifest text for a game version and its entries.
pub open spec fn nix_manifest_text(version: Seq<char>, ms: Seq<NixMod>) -> Seq<char> {
    "{\n    \"version\" = \""@ + version + "\";\n    \"imports\" = [];\n    \"mods\" = {\n    "@
        + nix_entries_text(ms) + "\n    };\n}"@
}

/// The package manifest for a game version and its entries, in the order
/// given.
pub fn render_nix_manifest(version: &str, mods: &Vec<NixMod>) -> (r: String)
    ensures
        r@ == nix_manifest_text(version@, mods@),
{
    let mut body = String::new();
    let mut i: usize = 0;
    while i < mods.len()
        invariant
            i <= mods@.len(),
            body@ == nix_entries_text(mods@.subrange(0, i as int)),
        decreases mods@.len() - i,
    {
        let ghost prefix = mods@.subrange(0, i as int + 1);
        assert(prefix.drop_last() =~= mods@.subrange(0, i as int));
        let entry = mods[i].to_nix_entry();
        if i > 0 {
            body.append("\n");
        }
        body.append(entry.as_str());
        proof {
            if i == 0 {
                assert(body@ =~= nix_entries_text(prefix));
            } else {
                assert(body@ =~= nix_entries_text(prefix));
            }
        }
        i = i + 1;
    }
    assert(mods@.subrange(0, mods@.len() as int) =~= mods@);
    let mut s = String::new();
    s.append("{\n    \"version\" = \"");
    s.append(version);
    s.append("\";\n    \"imports\" = [];\n    \"mods\" = {\n    ");
    s.append(body.as_str());
    s.append("\n    };\n}");
    assert(s@ =~= nix_manifest_text(version@, mods@));
    s
}

} // verus!
