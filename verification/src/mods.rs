//! Mod files: their identifiers, the placeholder that disables one, listing and
//! duplicate detection.

use vstd::prelude::*;
use crate::json::{spec_get, spec_get_str, JsonValue};
use crate::sort::{
    hits, is_stable_sort_of, lemma_text_lt_total, lemma_text_lt_transitive, stable_sort, text_less,
    text_lt, SortKey,
};
use crate::text::{
    chars_of, decimal, ends_with, has_prefix, has_suffix, lemma_parse_decimal_roundtrip, owned,
    parse_u32, push_decimal, spec_parse_u32, spec_to_lowercase, starts_with, str_eq, to_lowercase,
    is_digit, is_white, lemma_decimal, trim, trim_start, trimmed,
};
use crate::layout::opt_view;

verus! {

/// The identifier of a mod that a manifest names: its trimmed `id`, or else the
/// trimmed `quilt_loader.id`; an empty identifier does not count.
pub open spec fn spec_mod_id(json: JsonValue) -> Option<Seq<char>> {
    let direct = match spec_get_str(json, "id"@) {
        Some(id) => if trim(id).len() > 0 {
            Some(trim(id))
        } else {
            None
        },
        None => None,
    };
    let quilt = match spec_get(json, "quilt_loader"@) {
        Some(q) => match spec_get_str(q, "id"@) {
            Some(id) => if trim(id).len() > 0 {
                Some(trim(id))
            } else {
                None
            },
            None => None,
        },
        None => None,
    };
    if direct is Some {
        direct
    } else {
        quilt
    }
}

/// The mod identifier that a `fabric.mod.json` or `quilt.mod.json` document declares.
pub fn extract_mod_id_from_json(json: &JsonValue) -> (r: Option<String>)
    ensures
        r matches Some(s) ==> spec_mod_id(*json) == Some(s@),
        r is None ==> spec_mod_id(*json) is None,
{
    if let Some(id) = json.get_str("id") {
        let t = trimmed(id);
        if t.as_str().is_empty() == false {
            return Some(t);
        }
    }
    if let Some(q) = json.get("quilt_loader") {
        if let Some(id) = q.get_str("id") {
            let t = trimmed(id);
            if t.as_str().is_empty() == false {
                return Some(t);
            }
        }
    }
    None
}

/// An archive entry that holds a mod manifest: `fabric.mod.json` or
/// `quilt.mod.json`, at the top or in any folder.
pub open spec fn spec_is_manifest_name(name: Seq<char>) -> bool {
    ||| name == "fabric.mod.json"@
    ||| name == "quilt.mod.json"@
    ||| ends_with(name, "/fabric.mod.json"@)
    ||| ends_with(name, "/quilt.mod.json"@)
}

/// Whether an archive entry name is a mod manifest.
pub fn is_manifest_name(name: &str) -> (r: bool)
    ensures
        r == spec_is_manifest_name(name@),
{
    let cs = chars_of(name);
    let fabric = chars_of("/fabric.mod.json");
    let quilt = chars_of("/quilt.mod.json");
    str_eq(name, "fabric.mod.json") || str_eq(name, "quilt.mod.json") || has_suffix(
        cs.as_slice(),
        fabric.as_slice(),
    ) || has_suffix(cs.as_slice(), quilt.as_slice())
}

/// The first identifier among the manifests of a mod archive, taken in archive
/// order; a manifest that could not be read or parsed is `None`.
pub open spec fn spec_first_mod_id(manifests: Seq<Option<JsonValue>>) -> Option<Seq<char>>
    decreases manifests.len(),
{
    if manifests.len() == 0 {
        None
    } else {
        match spec_first_mod_id(manifests.drop_last()) {
            Some(id) => Some(id),
            None => match manifests.last() {
                Some(j) => spec_mod_id(j),
                None => None,
            },
        }
    }
}

/// The mod identifier of an archive, given its manifests in archive order.
pub fn read_fabric_mod_id(manifests: &Vec<Option<JsonValue>>) -> (r: Option<String>)
    ensures
        r matches Some(s) ==> spec_first_mod_id(manifests@) == Some(s@),
        r is None ==> spec_first_mod_id(manifests@) is None,
{
    let mut i: usize = 0;
    while i < manifests.len()
        invariant
            i <= manifests@.len(),
            spec_first_mod_id(manifests@.take(i as int)) is None,
        decreases manifests@.len() - i,
    {
        assert(manifests@.take(i + 1).drop_last() =~= manifests@.take(i as int));
        if let Some(j) = &manifests[i] {
            if let Some(id) = extract_mod_id_from_json(j) {
                proof {
                    lemma_first_mod_id_prefix(manifests@, i + 1);
                }
                return Some(id);
            }
        }
        i += 1;
    }
    assert(manifests@.take(manifests@.len() as int) =~= manifests@);
    None
}

proof fn lemma_first_mod_id_prefix(m: Seq<Option<JsonValue>>, k: int)
    requires
        0 <= k <= m.len(),
        spec_first_mod_id(m.take(k)) is Some,
    ensures
        spec_first_mod_id(m) == spec_first_mod_id(m.take(k)),
    decreases m.len() - k,
{
    if k < m.len() {
        assert(m.take(k + 1).drop_last() =~= m.take(k));
        lemma_first_mod_id_prefix(m, k + 1);
    } else {
        assert(m.take(k) =~= m);
    }
}

/// The prefix of the identifier that marks a disabled mod.
pub open spec fn disabled_prefix() -> Seq<char> {
    "disabledmod"@
}

/// The index of a disabled-mod placeholder: `disabledmodN` gives `N`.
pub open spec fn spec_parse_disabled_id(id: Seq<char>) -> Option<u32> {
    if starts_with(id, disabled_prefix()) {
        spec_parse_u32(id.skip(disabled_prefix().len() as int))
    } else {
        None
    }
}

/// The index `N` of an identifier `disabledmodN`.
pub fn parse_disabled_id(id: &str) -> (r: Option<u32>)
    ensures
        r == spec_parse_disabled_id(id@),
{
    let cs = chars_of(id);
    let p = chars_of("disabledmod");
    if !has_prefix(cs.as_slice(), p.as_slice()) {
        return None;
    }
    let rest = crate::text::string_from_range(cs.as_slice(), p.len(), cs.len());
    let rest_cs = chars_of(rest.as_str());
    assert(rest_cs@ =~= id@.skip(disabled_prefix().len() as int));
    parse_u32(rest_cs.as_slice())
}

/// The identifier of the placeholder with index `n`: `disabledmod` and `n` in decimal.
pub open spec fn spec_disabled_mod_id(n: u32) -> Seq<char> {
    disabled_prefix() + decimal(n as nat)
}

/// `format!("disabledmod{}", n)`.
pub fn disabled_mod_id(n: u32) -> (r: String)
    ensures
        r@ == spec_disabled_mod_id(n),
{
    let mut r = owned("disabledmod");
    push_decimal(&mut r, n as u64);
    r
}

/// Law: the identifier given to a disabled mod is read back as a disabled mod
/// with the same index.
pub proof fn lemma_disabled_id_roundtrip(n: u32)
    ensures
        spec_parse_disabled_id(spec_disabled_mod_id(n)) == Some(n),
{
    let id = spec_disabled_mod_id(n);
    assert(id.take(disabled_prefix().len() as int) =~= disabled_prefix());
    assert(id.skip(disabled_prefix().len() as int) =~= decimal(n as nat));
    lemma_parse_decimal_roundtrip(n);
}

// ---------------------------------------------------------------------------
// Listing mods
// ---------------------------------------------------------------------------

/// A mod archive is a file whose lower-cased name ends with `.jar`.
pub open spec fn spec_is_jar_name(filename: Seq<char>) -> bool {
    ends_with(spec_to_lowercase(filename), ".jar"@)
}

/// Whether `filename` names a mod archive.
pub fn is_jar_file_name(filename: &str) -> (r: bool)
    ensures
        r == spec_is_jar_name(filename@),
{
    let lower = to_lowercase(filename);
    let cs = chars_of(lower.as_str());
    let jar = chars_of(".jar");
    has_suffix(cs.as_slice(), jar.as_slice())
}

/// A mod archive in a game version's folder (`sub_path` empty) or in its
/// `preinstalled` subfolder.
#[derive(Clone, Debug)]
pub struct ModInfo {
    pub filename: String,
    pub sub_path: String,
    pub is_disabled: bool,
}

/// Mods are listed by folder, then by lower-cased file name.
impl SortKey for ModInfo {
    open spec fn key_le(&self, other: &Self) -> bool {
        ||| text_lt(self.sub_path@, other.sub_path@)
        ||| (self.sub_path@ == other.sub_path@ && !text_lt(
            spec_to_lowercase(other.filename@),
            spec_to_lowercase(self.filename@),
        ))
    }

    fn le(&self, other: &Self) -> (r: bool) {
        let a = chars_of(self.sub_path.as_str());
        let b = chars_of(other.sub_path.as_str());
        if text_less(a.as_slice(), b.as_slice()) {
            return true;
        }
        if text_less(b.as_slice(), a.as_slice()) {
            proof {
                crate::sort::lemma_text_lt_asymmetric(a@, b@);
            }
            return false;
        }
        proof {
            lemma_text_lt_total(a@, b@);
        }
        let la = to_lowercase(self.filename.as_str());
        let lb = to_lowercase(other.filename.as_str());
        let ca = chars_of(la.as_str());
        let cb = chars_of(lb.as_str());
        !text_less(cb.as_slice(), ca.as_slice())
    }

    proof fn lemma_total(a: &Self, b: &Self) {
        lemma_text_lt_total(a.sub_path@, b.sub_path@);
        lemma_text_lt_total(spec_to_lowercase(a.filename@), spec_to_lowercase(b.filename@));
        crate::sort::lemma_text_lt_asymmetric(
            spec_to_lowercase(a.filename@),
            spec_to_lowercase(b.filename@),
        );
    }

    proof fn lemma_transitive(a: &Self, b: &Self, c: &Self) {
        let (la, lb, lc) = (
            spec_to_lowercase(a.filename@),
            spec_to_lowercase(b.filename@),
            spec_to_lowercase(c.filename@),
        );
        if text_lt(a.sub_path@, b.sub_path@) && text_lt(b.sub_path@, c.sub_path@) {
            lemma_text_lt_transitive(a.sub_path@, b.sub_path@, c.sub_path@);
        }
        if a.sub_path@ == b.sub_path@ && b.sub_path@ == c.sub_path@ {
            lemma_text_lt_total(lc, lb);
            lemma_text_lt_total(lb, la);
            if text_lt(lc, la) && text_lt(lb, lc) {
                lemma_text_lt_transitive(lb, lc, la);
            }
        }
    }
}

/// A regular file found in a mod folder, with the identifier its manifest
/// declares when it could be read.
#[derive(Clone, Debug)]
pub struct ModEntry {
    pub filename: String,
    pub sub_path: String,
    pub id: Option<String>,
}

/// Whether an identifier marks a disabled mod.
pub open spec fn spec_id_is_disabled(id: Option<String>) -> bool {
    match id {
        Some(s) => spec_parse_disabled_id(s@) is Some,
        None => false,
    }
}

/// The mods among `entries`, in order: each mod archive with whether it is disabled.
pub open spec fn spec_mod_infos(entries: Seq<ModEntry>) -> Seq<ModInfo>
    decreases entries.len(),
{
    if entries.len() == 0 {
        Seq::empty()
    } else {
        let rest = spec_mod_infos(entries.drop_last());
        let e = entries.last();
        if spec_is_jar_name(e.filename@) {
            rest.push(
                ModInfo {
                    filename: e.filename,
                    sub_path: e.sub_path,
                    is_disabled: spec_id_is_disabled(e.id),
                },
            )
        } else {
            rest
        }
    }
}

/// The listed mod `m` is the mod archive `e`: same file name and folder, and
/// disabled exactly when the identifier that `e` declares is a placeholder's.
pub open spec fn listed_from(m: ModInfo, e: ModEntry) -> bool {
    &&& spec_is_jar_name(e.filename@)
    &&& m.filename@ == e.filename@
    &&& m.sub_path@ == e.sub_path@
    &&& m.is_disabled == (e.id matches Some(s) && spec_parse_disabled_id(s@) is Some)
}

/// Law: every mod in the list is one of the entries' mod archives, keeps its
/// file name and folder, and is disabled exactly when its declared identifier
/// reads as `disabledmodN`, in the regular and the `preinstalled` folder alike.
pub proof fn lemma_mod_infos_from_entries(entries: Seq<ModEntry>)
    ensures
        forall|k: int|
            0 <= k < spec_mod_infos(entries).len() ==> exists|j: int|
                0 <= j < entries.len() && listed_from(#[trigger] spec_mod_infos(entries)[k], entries[j]),
    decreases entries.len(),
{
    if entries.len() > 0 {
        let d = entries.drop_last();
        lemma_mod_infos_from_entries(d);
        let rest = spec_mod_infos(d);
        let all = spec_mod_infos(entries);
        assert forall|k: int| 0 <= k < all.len() implies exists|j: int|
            0 <= j < entries.len() && listed_from(#[trigger] all[k], entries[j]) by {
            if k < rest.len() {
                assert(all[k] == rest[k]);
                let j = choose|j: int| 0 <= j < d.len() && listed_from(rest[k], d[j]);
                assert(d[j] == entries[j]);
            } else {
                assert(listed_from(all[k], entries[entries.len() - 1]));
            }
        }
    }
}

/// The mods among the files of a game version's folders, sorted by folder and
/// then by lower-cased file name, files of equal rank in the order given.
pub fn list_mods(entries: &Vec<ModEntry>) -> (r: Vec<ModInfo>)
    ensures
        exists|p: Seq<int>| is_stable_sort_of(r@, spec_mod_infos(entries@), p),
        forall|k: int|
            0 <= k < r@.len() ==> exists|j: int|
                0 <= j < entries@.len() && listed_from(#[trigger] r@[k], entries@[j]),
{
    let mut infos: Vec<ModInfo> = Vec::new();
    let mut i: usize = 0;
    while i < entries.len()
        invariant
            i <= entries@.len(),
            infos@ == spec_mod_infos(entries@.take(i as int)),
        decreases entries@.len() - i,
    {
        assert(entries@.take(i + 1).drop_last() =~= entries@.take(i as int));
        let e = &entries[i];
        if is_jar_file_name(e.filename.as_str()) {
            let is_disabled = match &e.id {
                Some(id) => parse_disabled_id(id.as_str()).is_some(),
                None => false,
            };
            infos.push(
                ModInfo { filename: e.filename.clone(), sub_path: e.sub_path.clone(), is_disabled },
            );
        }
        i += 1;
    }
    assert(entries@.take(entries@.len() as int) =~= entries@);
    let ghost all = infos@;
    let r = stable_sort(infos);
    proof {
        lemma_mod_infos_from_entries(entries@);
        let p = choose|p: Seq<int>| is_stable_sort_of(r@, all, p);
        assert forall|k: int| 0 <= k < r@.len() implies exists|j: int|
            0 <= j < entries@.len() && listed_from(#[trigger] r@[k], entries@[j]) by {
            assert(r@[k] == all[p[k]]);
            assert(0 <= p[k] < all.len());
            let j = choose|j: int| 0 <= j < entries@.len() && listed_from(all[p[k]], entries@[j]);
        }
    }
    r
}

/// The largest index of a disabled mod among the identifiers of mod archives,
/// 0 when there is none.
pub open spec fn spec_max_disabled(entries: Seq<(String, Option<String>)>) -> u32
    decreases entries.len(),
{
    if entries.len() == 0 {
        0
    } else {
        let m = spec_max_disabled(entries.drop_last());
        let (filename, id) = entries.last();
        let n = match id {
            Some(s) => match spec_parse_disabled_id(s@) {
                Some(k) => if spec_is_jar_name(filename@) {
                    k
                } else {
                    0
                },
                None => 0,
            },
            None => 0,
        };
        if n > m {
            n
        } else {
            m
        }
    }
}

/// The index for the next disabled mod: one more than the largest in use among
/// the mod archives of both folders (file name and declared identifier each);
/// `None` when that largest index is `u32::MAX` and one more does not fit.
pub fn next_disabled_index(entries: &Vec<(String, Option<String>)>) -> (r: Option<u32>)
    ensures
        spec_max_disabled(entries@) < u32::MAX ==> r == Some((spec_max_disabled(entries@) + 1) as u32),
        spec_max_disabled(entries@) == u32::MAX ==> r is None,
{
    let mut max_n: u32 = 0;
    let mut i: usize = 0;
    while i < entries.len()
        invariant
            i <= entries@.len(),
            max_n == spec_max_disabled(entries@.take(i as int)),
        decreases entries@.len() - i,
    {
        assert(entries@.take(i + 1).drop_last() =~= entries@.take(i as int));
        let (filename, id) = &entries[i];
        if let Some(s) = id {
            if let Some(k) = parse_disabled_id(s.as_str()) {
                if is_jar_file_name(filename.as_str()) && k > max_n {
                    max_n = k;
                }
            }
        }
        i += 1;
    }
    assert(entries@.take(entries@.len() as int) =~= entries@);
    if max_n == u32::MAX {
        None
    } else {
        Some(max_n + 1)
    }
}

/// Law: the next index is greater than the index of every disabled mod among
/// the archives, so the placeholder it names is not in use.
pub proof fn lemma_next_disabled_index_fresh(entries: Seq<(String, Option<String>)>, i: int)
    requires
        0 <= i < entries.len(),
        spec_is_jar_name(entries[i].0@),
        entries[i].1 is Some,
        spec_parse_disabled_id(entries[i].1->0@) is Some,
    ensures
        spec_parse_disabled_id(entries[i].1->0@)->0 <= spec_max_disabled(entries),
    decreases entries.len(),
{
    if i < entries.len() - 1 {
        assert(entries.drop_last()[i] == entries[i]);
        lemma_next_disabled_index_fresh(entries.drop_last(), i);
    }
}

/// Law: a manifest whose `id` is the placeholder identifier `disabledmodN`
/// declares exactly that identifier, which reads back as the index `N`; so the
/// mod is listed as disabled, and disabling it again keeps that identifier.
pub proof fn lemma_placeholder_id_read_back(n: u32, manifest: JsonValue)
    requires
        spec_get_str(manifest, "id"@) == Some(spec_disabled_mod_id(n)),
    ensures
        spec_mod_id(manifest) == Some(spec_disabled_mod_id(n)),
        spec_parse_disabled_id(spec_disabled_mod_id(n)) == Some(n),
        is_placeholder(Some(spec_disabled_mod_id(n))),
{
    reveal_strlit("disabledmod");
    let id = spec_disabled_mod_id(n);
    lemma_decimal(n as nat);
    lemma_disabled_id_roundtrip(n);
    assert(id[0] == 'd');
    assert(!is_white(id[0]));
    assert(id.last() == decimal(n as nat).last());
    assert(is_digit(decimal(n as nat)[decimal(n as nat).len() - 1]));
    assert(!is_white(id.last()));
    assert(trim_start(id) == id);
    assert(trim(id) == id);
}

/// What disabling a mod comes to.
#[derive(Clone, Debug)]
pub enum DisablePlan {
    /// The file is a placeholder already; its identifier is the answer.
    AlreadyDisabled(String),
    /// The file is replaced by a placeholder with this identifier.
    Replace(String),
}

/// The identifier that a plan leaves the mod with.
pub open spec fn plan_id(p: DisablePlan) -> Seq<char> {
    match p {
        DisablePlan::AlreadyDisabled(id) => id@,
        DisablePlan::Replace(id) => id@,
    }
}

/// Whether a file whose archive declares `current_id` is a placeholder already.
pub open spec fn is_placeholder(current_id: Option<Seq<char>>) -> bool {
    current_id matches Some(id) && spec_parse_disabled_id(id) is Some
}

/// The decision of disabling the file whose archive declares `current_id`
/// (`None` when it declares none), given the files of both folders of its game
/// version with their identifiers: a placeholder stays as it is; any other file
/// gets the next free placeholder identifier. `None` when no index is left.
pub fn plan_disable(current_id: Option<&str>, entries: &Vec<(String, Option<String>)>) -> (r: Option<DisablePlan>)
    ensures
        is_placeholder(opt_view(current_id)) ==> (r matches Some(DisablePlan::AlreadyDisabled(id))
            && opt_view(current_id) == Some(id@)),
        !is_placeholder(opt_view(current_id)) && spec_max_disabled(entries@) < u32::MAX ==> (r matches Some(
            DisablePlan::Replace(id),
        ) && id@ == spec_disabled_mod_id((spec_max_disabled(entries@) + 1) as u32)),
        !is_placeholder(opt_view(current_id)) && spec_max_disabled(entries@) == u32::MAX ==> r is None,
        r matches Some(p) ==> spec_parse_disabled_id(plan_id(p)) is Some,
        r matches Some(DisablePlan::Replace(id)) ==> forall|i: int|
            0 <= i < entries@.len() && spec_is_jar_name((#[trigger] entries@[i]).0@) && entries@[i].1 is Some
                ==> entries@[i].1->0@ != id@,
{
    if let Some(id) = current_id {
        if parse_disabled_id(id).is_some() {
            return Some(DisablePlan::AlreadyDisabled(owned(id)));
        }
    }
    match next_disabled_index(entries) {
        None => None,
        Some(n) => {
            let id = disabled_mod_id(n);
            proof {
                lemma_disabled_id_roundtrip(n);
                assert forall|i: int|
                    0 <= i < entries@.len() && spec_is_jar_name((#[trigger] entries@[i]).0@)
                        && entries@[i].1 is Some implies entries@[i].1->0@ != id@ by {
                    if entries@[i].1->0@ == id@ {
                        lemma_next_disabled_index_fresh(entries@, i);
                    }
                }
            }
            Some(DisablePlan::Replace(id))
        },
    }
}

/// The mods of one folder that declare an identifier and are not disabled,
/// each with that identifier.
pub open spec fn spec_mods_with_ids(entries: Seq<(String, Option<String>)>, sub_path: Seq<char>) -> Seq<
    (Seq<char>, ModInfoModel),
>
    decreases entries.len(),
{
    if entries.len() == 0 {
        Seq::empty()
    } else {
        let rest = spec_mods_with_ids(entries.drop_last(), sub_path);
        let (filename, id) = entries.last();
        match id {
            Some(s) => if spec_is_jar_name(filename@) && spec_parse_disabled_id(s@) is None {
                rest.push((s@, ModInfoModel { filename: filename@, sub_path, is_disabled: false }))
            } else {
                rest
            },
            None => rest,
        }
    }
}

/// The mathematical value of a [`ModInfo`].
pub struct ModInfoModel {
    pub filename: Seq<char>,
    pub sub_path: Seq<char>,
    pub is_disabled: bool,
}

impl View for ModInfo {
    type V = ModInfoModel;

    open spec fn view(&self) -> ModInfoModel {
        ModInfoModel {
            filename: self.filename@,
            sub_path: self.sub_path@,
            is_disabled: self.is_disabled,
        }
    }
}

/// The found mod `m` (with its identifier) is the file `f` of the folder
/// `sub_path`: a mod archive of that name declaring that identifier, which is
/// not a placeholder's; `m` records the folder it was called for and is not
/// disabled.
pub open spec fn found_in_folder(m: (Seq<char>, ModInfoModel), f: (String, Option<String>), sub_path: Seq<char>) -> bool {
    &&& spec_is_jar_name(f.0@)
    &&& f.1 matches Some(id) && id@ == m.0 && spec_parse_disabled_id(id@) is None
    &&& m.1.filename == f.0@
    &&& m.1.sub_path == sub_path
    &&& !m.1.is_disabled
}

/// Law: every mod found in a folder is one of its files, identified as that
/// file declares, and carries the folder it was looked for in.
pub proof fn lemma_mods_with_ids_from_folder(entries: Seq<(String, Option<String>)>, sub_path: Seq<char>)
    ensures
        forall|k: int|
            0 <= k < spec_mods_with_ids(entries, sub_path).len() ==> exists|j: int|
                0 <= j < entries.len() && found_in_folder(
                    #[trigger] spec_mods_with_ids(entries, sub_path)[k],
                    entries[j],
                    sub_path,
                ),
    decreases entries.len(),
{
    if entries.len() > 0 {
        let d = entries.drop_last();
        lemma_mods_with_ids_from_folder(d, sub_path);
        let rest = spec_mods_with_ids(d, sub_path);
        let all = spec_mods_with_ids(entries, sub_path);
        assert forall|k: int| 0 <= k < all.len() implies exists|j: int|
            0 <= j < entries.len() && found_in_folder(#[trigger] all[k], entries[j], sub_path) by {
            if k < rest.len() {
                assert(all[k] == rest[k]);
                let j = choose|j: int| 0 <= j < d.len() && found_in_folder(rest[k], d[j], sub_path);
                assert(d[j] == entries[j]);
            } else {
                assert(found_in_folder(all[k], entries[entries.len() - 1], sub_path));
            }
        }
    }
}

/// The mod archives of a folder that declare an identifier of a mod that is not
/// disabled, given each file's name and identifier, in the order given.
pub fn collect_mods_with_ids(entries: &Vec<(String, Option<String>)>, sub_path: &str) -> (r: Vec<
    (String, ModInfo),
>)
    ensures
        r@.len() == spec_mods_with_ids(entries@, sub_path@).len(),
        forall|k: int|
            0 <= k < r@.len() ==> (#[trigger] r@[k].0@, r@[k].1@) == spec_mods_with_ids(
                entries@,
                sub_path@,
            )[k],
        forall|k: int|
            0 <= k < r@.len() ==> (#[trigger] r@[k].1).sub_path@ == sub_path@ && !r@[k].1.is_disabled,
{
    let mut out: Vec<(String, ModInfo)> = Vec::new();
    let mut i: usize = 0;
    while i < entries.len()
        invariant
            i <= entries@.len(),
            out@.len() == spec_mods_with_ids(entries@.take(i as int), sub_path@).len(),
            forall|k: int|
                0 <= k < out@.len() ==> (#[trigger] out@[k].0@, out@[k].1@) == spec_mods_with_ids(
                    entries@.take(i as int),
                    sub_path@,
                )[k],
        decreases entries@.len() - i,
    {
        assert(entries@.take(i + 1).drop_last() =~= entries@.take(i as int));
        let (filename, id) = &entries[i];
        if let Some(s) = id {
            if is_jar_file_name(filename.as_str()) && parse_disabled_id(s.as_str()).is_none() {
                out.push(
                    (
                        s.clone(),
                        ModInfo {
                            filename: filename.clone(),
                            sub_path: owned(sub_path),
                            is_disabled: false,
                        },
                    ),
                );
            }
        }
        i += 1;
    }
    assert(entries@.take(entries@.len() as int) =~= entries@);
    proof {
        lemma_mods_with_ids_from_folder(entries@, sub_path@);
        assert forall|k: int| 0 <= k < out@.len() implies (#[trigger] out@[k].1).sub_path@ == sub_path@
            && !out@[k].1.is_disabled by {
            assert((out@[k].0@, out@[k].1@) == spec_mods_with_ids(entries@, sub_path@)[k]);
            let j = choose|j: int| 0 <= j < entries@.len() && found_in_folder(
                spec_mods_with_ids(entries@, sub_path@)[k],
                entries@[j],
                sub_path@,
            );
        }
    }
    out
}

// ---------------------------------------------------------------------------
// Duplicate mods
// ---------------------------------------------------------------------------

/// The mods that declare one identifier, in the regular folder and in the
/// `preinstalled` folder.
#[derive(Debug)]
pub struct DuplicateGroup {
    pub mod_id: String,
    pub preinstalled: Vec<ModInfo>,
    pub regular: Vec<ModInfo>,
}

/// Groups are listed by identifier.
impl SortKey for DuplicateGroup {
    open spec fn key_le(&self, other: &Self) -> bool {
        !text_lt(other.mod_id@, self.mod_id@)
    }

    fn le(&self, other: &Self) -> (r: bool) {
        let a = chars_of(self.mod_id.as_str());
        let b = chars_of(other.mod_id.as_str());
        !text_less(b.as_slice(), a.as_slice())
    }

    proof fn lemma_total(a: &Self, b: &Self) {
        crate::sort::lemma_text_lt_asymmetric(a.mod_id@, b.mod_id@);
    }

    proof fn lemma_transitive(a: &Self, b: &Self, c: &Self) {
        lemma_text_lt_total(a.mod_id@, b.mod_id@);
        lemma_text_lt_total(b.mod_id@, c.mod_id@);
        if text_lt(c.mod_id@, a.mod_id@) {
            if text_lt(a.mod_id@, b.mod_id@) {
                lemma_text_lt_transitive(c.mod_id@, a.mod_id@, b.mod_id@);
            }
        }
    }
}

/// The values of a list of mods.
pub open spec fn infos_view(v: Seq<ModInfo>) -> Seq<ModInfoModel> {
    v.map_values(|m: ModInfo| m@)
}

/// The mods of `list` that declare `id`, in order.
pub open spec fn spec_infos_with_id(list: Seq<(String, ModInfo)>, id: Seq<char>) -> Seq<ModInfoModel>
    decreases list.len(),
{
    if list.len() == 0 {
        Seq::empty()
    } else {
        let rest = spec_infos_with_id(list.drop_last(), id);
        if list.last().0@ == id {
            rest.push(list.last().1@)
        } else {
            rest
        }
    }
}

/// More than one mod, over both folders, declares `id`.
pub open spec fn spec_is_duplicate(
    regular: Seq<(String, ModInfo)>,
    preinstalled: Seq<(String, ModInfo)>,
    id: Seq<char>,
) -> bool {
    spec_infos_with_id(regular, id).len() + spec_infos_with_id(preinstalled, id).len() > 1
}

/// A group holds exactly the mods of each folder that declare its identifier,
/// and more than one of them.
pub open spec fn spec_group_ok(
    g: DuplicateGroup,
    regular: Seq<(String, ModInfo)>,
    preinstalled: Seq<(String, ModInfo)>,
) -> bool {
    &&& infos_view(g.regular@) == spec_infos_with_id(regular, g.mod_id@)
    &&& infos_view(g.preinstalled@) == spec_infos_with_id(preinstalled, g.mod_id@)
    &&& spec_is_duplicate(regular, preinstalled, g.mod_id@)
}

/// Some entry of `list` declares `id`.
pub open spec fn id_occurs(list: Seq<(String, ModInfo)>, id: Seq<char>) -> bool {
    exists|k: int| 0 <= k < list.len() && (#[trigger] list[k]).0@ == id
}

proof fn lemma_infos_with_id_occurs(list: Seq<(String, ModInfo)>, id: Seq<char>)
    requires
        spec_infos_with_id(list, id).len() > 0,
    ensures
        id_occurs(list, id),
    decreases list.len(),
{
    if list.last().0@ != id {
        lemma_infos_with_id_occurs(list.drop_last(), id);
        let k = choose|k: int| 0 <= k < list.drop_last().len() && (#[trigger] list.drop_last()[k]).0@ == id;
        assert(list[k] == list.drop_last()[k]);
    } else {
        assert(list[list.len() - 1].0@ == id);
    }
}

fn copy_info(m: &ModInfo) -> (r: ModInfo)
    ensures
        r@ == m@,
{
    ModInfo { filename: m.filename.clone(), sub_path: m.sub_path.clone(), is_disabled: m.is_disabled }
}

/// The mods of `list` that declare `id`.
fn infos_with_id(list: &Vec<(String, ModInfo)>, id: &str) -> (r: Vec<ModInfo>)
    ensures
        infos_view(r@) == spec_infos_with_id(list@, id@),
{
    let mut out: Vec<ModInfo> = Vec::new();
    let mut i: usize = 0;
    while i < list.len()
        invariant
            i <= list@.len(),
            infos_view(out@) == spec_infos_with_id(list@.take(i as int), id@),
        decreases list@.len() - i,
    {
        assert(list@.take(i + 1).drop_last() =~= list@.take(i as int));
        assert(list@.take(i + 1).last() == list@[i as int]);
        if str_eq(list[i].0.as_str(), id) {
            let ghost before = out@;
            out.push(copy_info(&list[i].1));
            assert(infos_view(out@) =~= infos_view(before).push(list@[i as int].1@));
        }
        i += 1;
    }
    assert(list@.take(list@.len() as int) =~= list@);
    out
}

/// The texts of `ids`.
pub open spec fn ids_view(ids: Seq<String>) -> Seq<Seq<char>> {
    ids.map_values(|s: String| s@)
}

/// The identifiers among `ids` that are declared by more than one mod, in order.
pub open spec fn dup_ids(
    ids: Seq<Seq<char>>,
    regular: Seq<(String, ModInfo)>,
    preinstalled: Seq<(String, ModInfo)>,
) -> Seq<Seq<char>>
    decreases ids.len(),
{
    if ids.len() == 0 {
        Seq::empty()
    } else {
        let rest = dup_ids(ids.drop_last(), regular, preinstalled);
        if spec_is_duplicate(regular, preinstalled, ids.last()) {
            rest.push(ids.last())
        } else {
            rest
        }
    }
}

proof fn lemma_dup_ids(ids: Seq<Seq<char>>, regular: Seq<(String, ModInfo)>, preinstalled: Seq<(String, ModInfo)>)
    ensures
        forall|x: Seq<char>| #[trigger] dup_ids(ids, regular, preinstalled).contains(x) <==> (ids.contains(x)
            && spec_is_duplicate(regular, preinstalled, x)),
        ids.no_duplicates() ==> dup_ids(ids, regular, preinstalled).no_duplicates(),
    decreases ids.len(),
{
    if ids.len() > 0 {
        let init = ids.drop_last();
        lemma_dup_ids(init, regular, preinstalled);
        let rest = dup_ids(init, regular, preinstalled);
        assert(ids =~= init.push(ids.last()));
        assert forall|x: Seq<char>| #[trigger] ids.contains(x) <==> (init.contains(x) || x == ids.last()) by {
            if ids.contains(x) {
                let k = choose|k: int| 0 <= k < ids.len() && ids[k] == x;
                if k < ids.len() - 1 {
                    assert(init[k] == x);
                }
            }
            if init.contains(x) {
                let k = choose|k: int| 0 <= k < init.len() && init[k] == x;
                assert(ids[k] == x);
            }
            if x == ids.last() {
                assert(ids[ids.len() - 1] == x);
            }
        }
        if spec_is_duplicate(regular, preinstalled, ids.last()) {
            let d = rest.push(ids.last());
            assert forall|x: Seq<char>| #[trigger] d.contains(x) <==> (rest.contains(x) || x == ids.last()) by {
                if d.contains(x) {
                    let k = choose|k: int| 0 <= k < d.len() && d[k] == x;
                    if k < d.len() - 1 {
                        assert(rest[k] == x);
                    }
                }
                if rest.contains(x) {
                    let k = choose|k: int| 0 <= k < rest.len() && rest[k] == x;
                    assert(d[k] == x);
                }
                if x == ids.last() {
                    assert(d[d.len() - 1] == x);
                }
            }
            if ids.no_duplicates() {
                assert(init.no_duplicates()) by {
                    assert forall|a: int, b: int| 0 <= a < init.len() && 0 <= b < init.len() && a != b implies init[a] != init[b] by {
                        assert(ids[a] == init[a]);
                        assert(ids[b] == init[b]);
                    }
                }
                assert(!rest.contains(ids.last())) by {
                    if rest.contains(ids.last()) {
                        let k = choose|k: int| 0 <= k < init.len() && init[k] == ids.last();
                        assert(ids[k] == ids[ids.len() - 1]);
                    }
                }
                assert forall|a: int, b: int| 0 <= a < d.len() && 0 <= b < d.len() && a != b implies d[a] != d[b] by {
                    if a == d.len() - 1 {
                        assert(rest[b] == d[b]);
                        assert(rest.contains(d[b]));
                    } else if b == d.len() - 1 {
                        assert(rest[a] == d[a]);
                        assert(rest.contains(d[a]));
                    }
                }
            }
        } else {
            if ids.no_duplicates() {
                assert(init.no_duplicates()) by {
                    assert forall|a: int, b: int| 0 <= a < init.len() && 0 <= b < init.len() && a != b implies init[a] != init[b] by {
                        assert(ids[a] == init[a]);
                        assert(ids[b] == init[b]);
                    }
                }
            }
        }
    }
}

/// Whether some text of `ids` equals `id`.
fn has_id(ids: &Vec<String>, id: &str) -> (r: bool)
    ensures
        r == ids_view(ids@).contains(id@),
{
    let mut i: usize = 0;
    while i < ids.len()
        invariant
            i <= ids@.len(),
            forall|t: int| 0 <= t < i ==> (#[trigger] ids@[t])@ != id@,
        decreases ids@.len() - i,
    {
        if str_eq(ids[i].as_str(), id) {
            assert(ids_view(ids@)[i as int] == id@);
            return true;
        }
        i += 1;
    }
    assert(!ids_view(ids@).contains(id@)) by {
        if ids_view(ids@).contains(id@) {
            let t = choose|t: int| 0 <= t < ids@.len() && ids_view(ids@)[t] == id@;
            assert(ids@[t]@ != id@);
        }
    }
    false
}

/// Adds to `ids` the identifiers of `list` that it lacks.
fn add_ids(ids: &mut Vec<String>, list: &Vec<(String, ModInfo)>)
    requires
        ids_view(old(ids)@).no_duplicates(),
    ensures
        ids_view(final(ids)@).no_duplicates(),
        forall|x: Seq<char>| #[trigger] ids_view(final(ids)@).contains(x) <==> (ids_view(old(ids)@).contains(x)
            || id_occurs(list@, x)),
{
    let ghost start = ids_view(ids@);
    let mut i: usize = 0;
    while i < list.len()
        invariant
            i <= list@.len(),
            ids_view(ids@).no_duplicates(),
            forall|x: Seq<char>| #[trigger] ids_view(ids@).contains(x) <==> (start.contains(x)
                || exists|k: int| 0 <= k < i && (#[trigger] list@[k]).0@ == x),
        decreases list@.len() - i,
    {
        let id = &list[i].0;
        let ghost before = ids_view(ids@);
        if !has_id(ids, id.as_str()) {
            ids.push(id.clone());
            assert(ids_view(ids@) =~= before.push(id@));
        } else {
            assert(ids_view(ids@) == before);
        }
        proof {
            let now = ids_view(ids@);
            assert(now.contains(id@)) by {
                if before.contains(id@) {
                    let t = choose|t: int| 0 <= t < before.len() && before[t] == id@;
                    assert(now[t] == id@);
                } else {
                    assert(now[now.len() - 1] == id@);
                }
            }
            assert forall|x: Seq<char>| #[trigger] now.contains(x) <==> (before.contains(x) || x == id@) by {
                if now.contains(x) && !before.contains(x) {
                    let t = choose|t: int| 0 <= t < now.len() && now[t] == x;
                    if t < before.len() {
                        assert(before[t] == x);
                    }
                }
                if before.contains(x) {
                    let t = choose|t: int| 0 <= t < before.len() && before[t] == x;
                    assert(now[t] == x);
                }
            }
            assert forall|x: Seq<char>| #[trigger] now.contains(x) <==> (start.contains(x)
                || exists|k: int| 0 <= k < i + 1 && (#[trigger] list@[k]).0@ == x) by {
                if exists|k: int| 0 <= k < i + 1 && (#[trigger] list@[k]).0@ == x {
                    let k = choose|k: int| 0 <= k < i + 1 && (#[trigger] list@[k]).0@ == x;
                    if k < i {
                        assert(before.contains(x));
                    }
                }
            }
            if !before.contains(id@) {
                assert forall|a: int, b: int| 0 <= a < now.len() && 0 <= b < now.len() && a != b implies now[a] != now[b] by {
                    if a == now.len() - 1 {
                        assert(before[b] == now[b]);
                        assert(before.contains(now[b]));
                    } else if b == now.len() - 1 {
                        assert(before[a] == now[a]);
                        assert(before.contains(now[a]));
                    } else {
                        assert(before[a] == now[a]);
                        assert(before[b] == now[b]);
                    }
                }
            }
        }
        i += 1;
    }
}

/// The groups of mods for the identifiers among `ids` that more than one mod
/// declares, in the order of `ids`.
fn collect_groups(
    ids: &Vec<String>,
    regular: &Vec<(String, ModInfo)>,
    preinstalled: &Vec<(String, ModInfo)>,
) -> (r: Vec<DuplicateGroup>)
    ensures
        r@.map_values(|g: DuplicateGroup| g.mod_id@) == dup_ids(ids_view(ids@), regular@, preinstalled@),
        forall|m: int| 0 <= m < r@.len() ==> spec_group_ok(#[trigger] r@[m], regular@, preinstalled@),
{
    let mut groups: Vec<DuplicateGroup> = Vec::new();
    let mut i: usize = 0;
    while i < ids.len()
        invariant
            i <= ids@.len(),
            groups@.map_values(|g: DuplicateGroup| g.mod_id@) == dup_ids(
                ids_view(ids@).take(i as int),
                regular@,
                preinstalled@,
            ),
            forall|m: int| 0 <= m < groups@.len() ==> spec_group_ok(#[trigger] groups@[m], regular@, preinstalled@),
        decreases ids@.len() - i,
    {
        let ghost view_prefix = ids_view(ids@).take(i + 1);
        assert(view_prefix.drop_last() =~= ids_view(ids@).take(i as int));
        assert(view_prefix.last() == ids@[i as int]@);
        let rg = infos_with_id(regular, ids[i].as_str());
        let pg = infos_with_id(preinstalled, ids[i].as_str());
        assert(infos_view(rg@).len() == rg@.len());
        assert(infos_view(pg@).len() == pg@.len());
        let ghost before = groups@;
        if rg.len() > 1 || pg.len() > 1 || (rg.len() == 1 && pg.len() == 1) {
            groups.push(DuplicateGroup { mod_id: ids[i].clone(), preinstalled: pg, regular: rg });
            assert(groups@.map_values(|g: DuplicateGroup| g.mod_id@) =~= before.map_values(
                |g: DuplicateGroup| g.mod_id@,
            ).push(ids@[i as int]@));
        }
        i += 1;
    }
    assert(ids_view(ids@).take(ids@.len() as int) =~= ids_view(ids@));
    groups
}

/// The identifiers declared by more than one mod over a game version's regular
/// and `preinstalled` folders, each with the mods of both folders that declare
/// it (in the order given), listed by identifier.
pub fn find_duplicate_mods(regular: &Vec<(String, ModInfo)>, preinstalled: &Vec<(String, ModInfo)>) -> (r:
    Vec<DuplicateGroup>)
    ensures
        forall|k: int, l: int|
            0 <= k < l < r@.len() ==> text_lt((#[trigger] r@[k]).mod_id@, (#[trigger] r@[l]).mod_id@),
        forall|k: int| 0 <= k < r@.len() ==> spec_group_ok(#[trigger] r@[k], regular@, preinstalled@),
        forall|id: Seq<char>|
            #[trigger] spec_is_duplicate(regular@, preinstalled@, id) ==> exists|k: int|
                0 <= k < r@.len() && (#[trigger] r@[k]).mod_id@ == id,
{
    let mut ids: Vec<String> = Vec::new();
    assert(ids_view(ids@).no_duplicates());
    add_ids(&mut ids, regular);
    add_ids(&mut ids, preinstalled);
    let groups = collect_groups(&ids, regular, preinstalled);
    let ghost unsorted = groups@;
    let ghost gids = dup_ids(ids_view(ids@), regular@, preinstalled@);
    proof {
        lemma_dup_ids(ids_view(ids@), regular@, preinstalled@);
        assert(gids.no_duplicates());
        assert(unsorted.len() == gids.len()) by {
            assert(unsorted.map_values(|g: DuplicateGroup| g.mod_id@).len() == unsorted.len());
        }
        assert forall|m: int| 0 <= m < unsorted.len() implies (#[trigger] unsorted[m]).mod_id@ == gids[m] by {
            assert(unsorted.map_values(|g: DuplicateGroup| g.mod_id@)[m] == unsorted[m].mod_id@);
        }
    }
    let sorted = stable_sort(groups);
    proof {
        let p = choose|p: Seq<int>| is_stable_sort_of(sorted@, unsorted, p);
        assert forall|k: int, l: int| 0 <= k < l < sorted@.len() implies text_lt(
            (#[trigger] sorted@[k]).mod_id@,
            (#[trigger] sorted@[l]).mod_id@,
        ) by {
            assert(0 <= p[k] < unsorted.len());
            assert(0 <= p[l] < unsorted.len());
            assert(sorted@[k] == unsorted[p[k]]);
            assert(sorted@[l] == unsorted[p[l]]);
            assert(p[k] != p[l]);
            assert(gids[p[k]] != gids[p[l]]);
            assert(sorted@[k].key_le(&sorted@[l]));
            lemma_text_lt_total(sorted@[k].mod_id@, sorted@[l].mod_id@);
        }
        assert forall|k: int| 0 <= k < sorted@.len() implies spec_group_ok(
            #[trigger] sorted@[k],
            regular@,
            preinstalled@,
        ) by {
            assert(sorted@[k] == unsorted[p[k]]);
        }
        assert forall|id: Seq<char>| #[trigger] spec_is_duplicate(regular@, preinstalled@, id) implies exists|k: int|
            0 <= k < sorted@.len() && (#[trigger] sorted@[k]).mod_id@ == id by {
            if spec_infos_with_id(regular@, id).len() > 0 {
                lemma_infos_with_id_occurs(regular@, id);
            } else {
                lemma_infos_with_id_occurs(preinstalled@, id);
            }
            assert(ids_view(ids@).contains(id));
            assert(gids.contains(id));
            let m = choose|m: int| 0 <= m < gids.len() && gids[m] == id;
            assert(hits(p, m));
            let k = choose|k: int| 0 <= k < p.len() && p[k] == m;
            assert(sorted@[k] == unsorted[m]);
        }
    }
    sorted
}

} // verus!
