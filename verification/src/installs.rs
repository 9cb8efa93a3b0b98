//! Installed Java builds, the offered distributions, and the decisions taken
//! while downloading and installing a build.

use vstd::prelude::*;
use crate::java_name::{parse_java_name, spec_parse_java_name, ParsedJavaName, ParsedJavaNameModel};
use crate::sort::{
    is_stable_sort_of, lemma_text_lt_asymmetric, lemma_text_lt_total, lemma_text_lt_transitive,
    stable_sort, text_less, text_lt, SortKey,
};
use crate::release_info::{spec_distribution_kind, spec_distribution_label, ReleaseInfo};
use crate::text::{chars_of, owned, push_char, str_eq};

verus! {

// ---------------------------------------------------------------------------
// Installed builds
// ---------------------------------------------------------------------------

/// A folder of the Java folder, as found on disk.
#[derive(Clone, Debug)]
pub struct InstallationEntry {
    pub java_name: String,
    pub path: String,
    pub java_exe: String,
    pub java_exe_exists: bool,
    pub size_bytes: u64,
}

/// An installed Java build.
#[derive(Clone, Debug)]
pub struct JavaInstallation {
    pub java_name: String,
    pub distribution: String,
    pub major: u32,
    pub version: String,
    pub build: u32,
    pub is_jre: bool,
    pub path: String,
    pub java_exe: String,
    pub exists: bool,
    pub java_exe_exists: bool,
    pub size_bytes: u64,
    pub parsed: Option<ParsedJavaName>,
    pub source: String,
}

/// The mathematical value of a [`JavaInstallation`].
pub struct JavaInstallationModel {
    pub java_name: Seq<char>,
    pub distribution: Seq<char>,
    pub major: u32,
    pub version: Seq<char>,
    pub build: u32,
    pub is_jre: bool,
    pub path: Seq<char>,
    pub java_exe: Seq<char>,
    pub exists: bool,
    pub java_exe_exists: bool,
    pub size_bytes: u64,
    pub parsed: Option<ParsedJavaNameModel>,
    pub source: Seq<char>,
}

impl View for JavaInstallation {
    type V = JavaInstallationModel;

    open spec fn view(&self) -> JavaInstallationModel {
        JavaInstallationModel {
            java_name: self.java_name@,
            distribution: self.distribution@,
            major: self.major,
            version: self.version@,
            build: self.build,
            is_jre: self.is_jre,
            path: self.path@,
            java_exe: self.java_exe@,
            exists: self.exists,
            java_exe_exists: self.java_exe_exists,
            size_bytes: self.size_bytes,
            parsed: match self.parsed {
                Some(p) => Some(p@),
                None => None,
            },
            source: self.source@,
        }
    }
}

/// The description of an installed build: its parts when its folder name parses
/// as a build name, zeros and empty texts otherwise.
pub open spec fn spec_installation(e: InstallationEntry) -> JavaInstallationModel {
    let parsed = match spec_parse_java_name(e.java_name@) {
        Ok(p) => Some(p),
        Err(_) => None,
    };
    JavaInstallationModel {
        java_name: e.java_name@,
        distribution: Seq::empty(),
        major: match parsed {
            Some(p) => p.major,
            None => 0,
        },
        version: match parsed {
            Some(p) => p.version,
            None => Seq::empty(),
        },
        build: match parsed {
            Some(p) => p.build,
            None => 0,
        },
        is_jre: match parsed {
            Some(p) => p.is_jre,
            None => false,
        },
        path: e.path@,
        java_exe: e.java_exe@,
        exists: true,
        java_exe_exists: e.java_exe_exists,
        size_bytes: e.size_bytes,
        parsed,
        source: Seq::empty(),
    }
}

/// Law: an installed build is described from its folder: it exists (the folder
/// was found), whether its `java` program exists is what was found for it, and
/// its name, path, program path and size are the folder's.
pub proof fn lemma_installation_from_folder(e: InstallationEntry)
    ensures
        spec_installation(e).exists,
        spec_installation(e).java_exe_exists == e.java_exe_exists,
        spec_installation(e).java_name == e.java_name@,
        spec_installation(e).path == e.path@,
        spec_installation(e).java_exe == e.java_exe@,
        spec_installation(e).size_bytes == e.size_bytes,
{
}

/// The description of the installed build in the folder `e`.
pub fn java_installation(e: &InstallationEntry) -> (r: JavaInstallation)
    ensures
        r@ == spec_installation(*e),
        r.exists,
        r.java_exe_exists == e.java_exe_exists,
{
    let parsed = parse_java_name(e.java_name.as_str()).ok();
    let (major, version, build, is_jre) = match &parsed {
        Some(p) => (p.major, p.version.clone(), p.build, p.is_jre),
        None => (0, String::new(), 0, false),
    };
    JavaInstallation {
        java_name: e.java_name.clone(),
        distribution: String::new(),
        major,
        version,
        build,
        is_jre,
        path: e.path.clone(),
        java_exe: e.java_exe.clone(),
        exists: true,
        java_exe_exists: e.java_exe_exists,
        size_bytes: e.size_bytes,
        parsed,
        source: String::new(),
    }
}

/// Installed builds are listed by name.
impl SortKey for JavaInstallation {
    open spec fn key_le(&self, other: &Self) -> bool {
        !text_lt(other.java_name@, self.java_name@)
    }

    fn le(&self, other: &Self) -> (r: bool) {
        let a = chars_of(self.java_name.as_str());
        let b = chars_of(other.java_name.as_str());
        !text_less(b.as_slice(), a.as_slice())
    }

    proof fn lemma_total(a: &Self, b: &Self) {
        lemma_text_lt_asymmetric(a.java_name@, b.java_name@);
    }

    proof fn lemma_transitive(a: &Self, b: &Self, c: &Self) {
        lemma_text_lt_total(a.java_name@, b.java_name@);
        lemma_text_lt_total(b.java_name@, c.java_name@);
        if text_lt(c.java_name@, a.java_name@) && text_lt(a.java_name@, b.java_name@) {
            lemma_text_lt_transitive(c.java_name@, a.java_name@, b.java_name@);
        }
    }
}

/// The installed builds in the folders `entries`, listed by name (folders of
/// equal name in the order given).
pub fn list_java_installations(entries: &Vec<InstallationEntry>) -> (r: Vec<JavaInstallation>)
    ensures
        exists|s: Seq<JavaInstallation>, p: Seq<int>|
            {
                &&& s.len() == entries@.len()
                &&& forall|k: int| 0 <= k < s.len() ==> (#[trigger] s[k])@ == spec_installation(entries@[k])
                &&& is_stable_sort_of(r@, s, p)
            },
        forall|k: int|
            0 <= k < r@.len() ==> (#[trigger] r@[k]).exists && exists|j: int|
                0 <= j < entries@.len() && r@[k].java_name@ == entries@[j].java_name@
                    && r@[k].java_exe_exists == entries@[j].java_exe_exists,
{
    let mut all: Vec<JavaInstallation> = Vec::new();
    let mut i: usize = 0;
    while i < entries.len()
        invariant
            i <= entries@.len(),
            all@.len() == i,
            forall|k: int| 0 <= k < i ==> (#[trigger] all@[k])@ == spec_installation(entries@[k]),
        decreases entries@.len() - i,
    {
        all.push(java_installation(&entries[i]));
        i += 1;
    }
    let ghost s = all@;
    let r = stable_sort(all);
    proof {
        let p = choose|p: Seq<int>| is_stable_sort_of(r@, s, p);
        assert(forall|k: int| 0 <= k < s.len() ==> (#[trigger] s[k])@ == spec_installation(entries@[k]));
        assert forall|k: int| 0 <= k < r@.len() implies (#[trigger] r@[k]).exists && exists|j: int|
            0 <= j < entries@.len() && r@[k].java_name@ == entries@[j].java_name@
                && r@[k].java_exe_exists == entries@[j].java_exe_exists by {
            assert(r@[k] == s[p[k]]);
            assert(0 <= p[k] < s.len());
            assert(s[p[k]]@ == spec_installation(entries@[p[k]]));
            lemma_installation_from_folder(entries@[p[k]]);
        }
    }
    r
}

// ---------------------------------------------------------------------------
// Offered distributions
// ---------------------------------------------------------------------------

/// A distribution the manager offers.
#[derive(Clone, Debug)]
pub struct DistributionInfo {
    pub id: String,
    pub label: String,
    pub description: String,
    pub kinds: Vec<String>,
    pub source: String,
}

/// The offered distribution at `i` of the list: identifier, label, description
/// and source; each offers the kinds `jdk` and `jre`.
pub open spec fn spec_offered(i: int) -> (Seq<char>, Seq<char>, Seq<char>, Seq<char>) {
    if i == 0 {
        ("temurin"@, "Eclipse Temurin"@, "Adoptium Temurin - the default Adoptium build"@, "adoptium-api"@)
    } else if i == 1 {
        ("zulu"@, "Azul Zulu"@, "Azul Zulu OpenJDK build"@, "static-url"@)
    } else if i == 2 {
        ("liberica"@, "BellSoft Liberica"@, "BellSoft Liberica OpenJDK build"@, "liberica-api"@)
    } else if i == 3 {
        ("corretto"@, "Amazon Corretto"@, "Amazon's no-cost, multiplatform OpenJDK distribution"@, "static-url"@)
    } else {
        ("microsoft"@, "Microsoft OpenJDK"@, "Microsoft's OpenJDK distribution"@, "static-url"@)
    }
}

fn offered(id: &str, label: &str, description: &str, source: &str) -> (r: DistributionInfo)
    ensures
        r.id@ == id@,
        r.label@ == label@,
        r.description@ == description@,
        r.source@ == source@,
        r.kinds@.len() == 2,
        r.kinds@[0]@ == "jdk"@,
        r.kinds@[1]@ == "jre"@,
{
    let mut kinds: Vec<String> = Vec::new();
    kinds.push(owned("jdk"));
    kinds.push(owned("jre"));
    DistributionInfo {
        id: owned(id),
        label: owned(label),
        description: owned(description),
        kinds,
        source: owned(source),
    }
}

/// Law: each offered distribution is shown under the display name that release
/// descriptions give its identifier, and each identifier names a distribution
/// the manager can install.
pub proof fn lemma_offered_labels(i: int)
    requires
        0 <= i < 5,
    ensures
        spec_offered(i).1 == spec_distribution_label(spec_offered(i).0),
        spec_distribution_kind(spec_offered(i).0) is Some,
{
    reveal_strlit("temurin");
    reveal_strlit("adoptium");
    reveal_strlit("eclipse");
    reveal_strlit("liberica");
    reveal_strlit("bellsoft");
    reveal_strlit("zulu");
    reveal_strlit("corretto");
    reveal_strlit("microsoft");
    reveal_strlit("ms");
    reveal_strlit("msopenjdk");
    assert("corretto"@[0] != "adoptium"@[0]);
    assert("corretto"@[0] != "liberica"@[0]);
    assert("corretto"@[0] != "bellsoft"@[0]);
    assert("liberica"@[0] != "adoptium"@[0]);
    assert("temurin"@[0] != "eclipse"@[0]);
    assert("microsoft"@[1] != "msopenjdk"@[1]);
}

/// The distributions the manager offers, in the order shown.
pub fn list_distributions() -> (r: Vec<DistributionInfo>)
    ensures
        r@.len() == 5,
        forall|i: int|
            0 <= i < 5 ==> (#[trigger] r@[i].id@, r@[i].label@, r@[i].description@, r@[i].source@)
                == spec_offered(i),
        forall|i: int|
            0 <= i < 5 ==> (#[trigger] r@[i].kinds@).len() == 2 && r@[i].kinds@[0]@ == "jdk"@
                && r@[i].kinds@[1]@ == "jre"@,
        forall|i: int| 0 <= i < 5 ==> (#[trigger] r@[i]).label@ == spec_distribution_label(r@[i].id@),
{
    let mut r: Vec<DistributionInfo> = Vec::new();
    r.push(offered("temurin", "Eclipse Temurin", "Adoptium Temurin - the default Adoptium build", "adoptium-api"));
    r.push(offered("zulu", "Azul Zulu", "Azul Zulu OpenJDK build", "static-url"));
    r.push(offered("liberica", "BellSoft Liberica", "BellSoft Liberica OpenJDK build", "liberica-api"));
    r.push(offered("corretto", "Amazon Corretto", "Amazon's no-cost, multiplatform OpenJDK distribution", "static-url"));
    r.push(offered("microsoft", "Microsoft OpenJDK", "Microsoft's OpenJDK distribution", "static-url"));
    proof {
        assert forall|i: int| 0 <= i < 5 implies (#[trigger] r@[i]).label@ == spec_distribution_label(
            r@[i].id@,
        ) by {
            lemma_offered_labels(i);
        }
    }
    r
}

// ---------------------------------------------------------------------------
// Installing
// ---------------------------------------------------------------------------

/// What `char::is_alphanumeric` answers for `c`: whether it has the Unicode
/// `Alphabetic` property or a numeric general category.
pub uninterp spec fn spec_is_alphanumeric(c: char) -> bool;

/// `char::is_alphanumeric`. The contract names its answer, which takes the
/// Unicode tables to state.
#[verifier::external_body]
fn is_alphanumeric(c: char) -> (r: bool)
    ensures
        r == spec_is_alphanumeric(c),
{
    c.is_alphanumeric()
}

/// A character that may stay in a downloaded archive's file name.
pub open spec fn keeps_in_archive_name(c: char) -> bool {
    spec_is_alphanumeric(c) || c == '_' || c == '-'
}

/// The build name with every other character replaced by `_`.
pub open spec fn sanitized(s: Seq<char>) -> Seq<char> {
    Seq::new(s.len(), |i: int| if keeps_in_archive_name(s[i]) { s[i] } else { '_' })
}

/// The file name of the downloaded archive: the sanitized build name, a dot and
/// the archive extension.
pub fn install_archive_name(java_name: &str, archive_ext: &str) -> (r: String)
    ensures
        r@ == sanitized(java_name@) + "."@ + archive_ext@,
{
    let cs = chars_of(java_name);
    let mut out = String::new();
    let mut i: usize = 0;
    while i < cs.len()
        invariant
            cs@ == java_name@,
            i <= cs@.len(),
            out@ == sanitized(java_name@).take(i as int),
        decreases cs@.len() - i,
    {
        let c = cs[i];
        let keep = is_alphanumeric(c) || c == '_' || c == '-';
        push_char(&mut out, if keep { c } else { '_' });
        i += 1;
        assert(out@ =~= sanitized(java_name@).take(i as int));
    }
    assert(sanitized(java_name@).take(cs@.len() as int) =~= sanitized(java_name@));
    out.concat(".").concat(archive_ext)
}

/// Whether an archive with this extension is unpacked as a zip archive (the
/// others are gzip-compressed tar archives).
pub fn extract_as_zip(archive_ext: &str) -> (r: bool)
    ensures
        r == (archive_ext@ == "zip"@),
{
    str_eq(archive_ext, "zip")
}

/// What to do about an existing install folder before installing.
#[derive(Clone, Copy, Debug)]
pub enum ExistingInstall {
    /// No folder: install.
    Absent,
    /// A folder without a `java` program: remove it, then install.
    RemoveStale,
}

/// The decision about an existing install folder: a folder with its `java`
/// program means the build is installed already, which refuses the install.
pub fn check_existing_install(
    java_name: &str,
    install_dir: &str,
    install_dir_exists: bool,
    java_exe_exists: bool,
) -> (r: Result<ExistingInstall, String>)
    ensures
        !install_dir_exists ==> r matches Ok(ExistingInstall::Absent),
        install_dir_exists && !java_exe_exists ==> r matches Ok(ExistingInstall::RemoveStale),
        install_dir_exists && java_exe_exists ==> (r matches Err(e) && e@ == "Java distribution '"@
            + java_name@ + "' is already installed at "@ + install_dir@),
{
    if !install_dir_exists {
        Ok(ExistingInstall::Absent)
    } else if java_exe_exists {
        Err(owned("Java distribution '").concat(java_name).concat("' is already installed at ").concat(install_dir))
    } else {
        Ok(ExistingInstall::RemoveStale)
    }
}

/// Whether a download reports its progress after a read: when 200 ms have
/// passed since the last report, or when the received total has just passed a
/// 2 MiB boundary (it is less than 256 KiB beyond a multiple of 2 MiB).
pub fn should_emit_progress(millis_since_last: u64, received: u64) -> (r: bool)
    ensures
        r == (millis_since_last >= 200 || received % 2097152 < 262144),
{
    millis_since_last >= 200 || received % 2097152 < 262144
}

/// The folder whose contents become the install folder: the single folder
/// that an archive unpacked into, or the unpacking folder itself when it holds
/// no folder or several.
pub fn install_copy_source(top_dirs: &Vec<String>, extract_dir: &str) -> (r: String)
    ensures
        top_dirs@.len() == 1 ==> r@ == top_dirs@[0]@,
        top_dirs@.len() != 1 ==> r@ == extract_dir@,
{
    if top_dirs.len() == 1 {
        top_dirs[0].clone()
    } else {
        owned(extract_dir)
    }
}

/// The description of a freshly installed release, whose `java` program is at
/// `java_exe` and whose install folder holds `size_bytes`.
pub open spec fn spec_installed(info: crate::release_info::ReleaseInfoModel, java_exe: Seq<char>, size_bytes: u64) -> JavaInstallationModel {
    JavaInstallationModel {
        java_name: info.java_name,
        distribution: info.distribution,
        major: info.major,
        version: info.version,
        build: info.build,
        is_jre: info.is_jre,
        path: info.install_dir,
        java_exe,
        exists: true,
        java_exe_exists: true,
        size_bytes,
        parsed: match spec_parse_java_name(info.java_name) {
            Ok(p) => Some(p),
            Err(_) => None,
        },
        source: info.source,
    }
}

/// The description of the installed release `info`.
pub fn installed_release(info: &ReleaseInfo, java_exe: &str, size_bytes: u64) -> (r: JavaInstallation)
    ensures
        r@ == spec_installed(info@, java_exe@, size_bytes),
{
    JavaInstallation {
        java_name: info.java_name.clone(),
        distribution: info.distribution.clone(),
        major: info.major,
        version: info.version.clone(),
        build: info.build,
        is_jre: info.is_jre,
        path: info.install_dir.clone(),
        java_exe: owned(java_exe),
        exists: true,
        java_exe_exists: true,
        size_bytes,
        parsed: parse_java_name(info.java_name.as_str()).ok(),
        source: info.source.clone(),
    }
}

/// A path component that every platform reads the same way after a leading
/// `/`: a non-empty name without a separator (`/`, or a backslash, which
/// Windows also reads as one), and neither `.` nor `..`. (A `:` inside such a
/// name marks no drive: a drive prefix only stands at the very start.)
pub open spec fn plain_name(n: Seq<char>) -> bool {
    &&& n.len() > 0
    &&& !n.contains('/')
    &&& !n.contains('\\')
    &&& n != "."@
    &&& n != ".."@
}

/// Every name of `ns` is a plain name.
pub open spec fn plain_names(ns: Seq<Seq<char>>) -> bool {
    forall|i: int| 0 <= i < ns.len() ==> #[trigger] plain_name(ns[i])
}

/// `/` followed by each name of `ns` and a `/` between names.
pub open spec fn names_text(ns: Seq<Seq<char>>) -> Seq<char>
    decreases ns.len(),
{
    if ns.len() == 0 {
        Seq::empty()
    } else {
        names_text(ns.drop_last()) + "/"@ + ns.last()
    }
}

/// The absolute path made of the names `ns`: `/` alone when there is none.
pub open spec fn rooted(ns: Seq<Seq<char>>) -> Seq<char> {
    if ns.len() == 0 {
        "/"@
    } else {
        names_text(ns)
    }
}

/// The names `base` are the first names of `path`.
pub open spec fn names_prefix(base: Seq<Seq<char>>, path: Seq<Seq<char>>) -> bool {
    base.len() <= path.len() && path.take(base.len() as int) == base
}

/// `Path::starts_with`: whether `base` is a leading run of whole components of
/// `path`. How a text splits into components follows the platform's path
/// syntax (separators, drive prefixes, verbatim `\\?\` paths), so the
/// contract speaks only of paths of the form `/name/name...` made of plain names,
/// which every platform splits at `/` into the root and those names; of other
/// texts it promises nothing.
#[verifier::external_body]
fn path_starts_with(path: &str, base: &str) -> (r: bool)
    ensures
        forall|pn: Seq<Seq<char>>, bn: Seq<Seq<char>>|
            plain_names(pn) && plain_names(bn) && #[trigger] rooted(pn) == path@ && #[trigger] rooted(
                bn,
            ) == base@ ==> (r <==> names_prefix(bn, pn)),
{
    std::path::Path::new(path).starts_with(base)
}

/// The answer to a request to delete an install folder, given whether its
/// resolved path lies inside the resolved Java folder.
pub fn deletion_allowed(inside_java_dir: bool) -> (r: Result<(), String>)
    ensures
        inside_java_dir ==> r is Ok,
        !inside_java_dir ==> (r matches Err(e) && e@ == "Refusing to delete: path escapes java directory"@),
{
    if inside_java_dir {
        Ok(())
    } else {
        Err(owned("Refusing to delete: path escapes java directory"))
    }
}

/// Whether the install folder resolved to `target` may be deleted, the Java
/// folder being resolved to `java_dir`: only a folder inside the Java folder
/// may. The containment test is the platform's: for absolute paths made of
/// plain names, the folder is inside when the Java folder's names are its first
/// names. A refusal is always the same message.
pub fn check_deletion(target: &str, java_dir: &str) -> (r: Result<(), String>)
    ensures
        r matches Err(e) ==> e@ == "Refusing to delete: path escapes java directory"@,
        forall|tn: Seq<Seq<char>>, jn: Seq<Seq<char>>|
            plain_names(tn) && plain_names(jn) && #[trigger] rooted(tn) == target@ && #[trigger] rooted(
                jn,
            ) == java_dir@ ==> (r is Ok <==> names_prefix(jn, tn)),
{
    deletion_allowed(path_starts_with(target, java_dir))
}

/// The name of the `java` program on the system.
pub fn java_exe_name(windows: bool) -> (r: &'static str)
    ensures
        windows ==> r@ == "java.exe"@,
        !windows ==> r@ == "java"@,
{
    if windows {
        "java.exe"
    } else {
        "java"
    }
}

} // verus!
