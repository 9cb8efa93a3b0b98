//! Where the manager keeps its files: the data folder, mod folders and the Java
//! folder.

use vstd::prelude::*;
use crate::sort::{lemma_text_lt_asymmetric, lemma_text_lt_total, lemma_text_lt_transitive, stable_sort, text_less, text_lt, SortKey, is_stable_sort_of};
use crate::text::{chars_of, owned, push_char};

verus! {

/// The data folder: `.ogulniega` in `%APPDATA%` on Windows and in `$HOME`
/// elsewhere; an error names the variable that is missing.
pub open spec fn spec_root(windows: bool, appdata: Option<Seq<char>>, home: Option<Seq<char>>) -> Result<Seq<char>, Seq<char>> {
    if windows {
        match appdata {
            Some(a) => Ok(a + "/.ogulniega"@),
            None => Err("APPDATA not found"@),
        }
    } else {
        match home {
            Some(h) => Ok(h + "/.ogulniega"@),
            None => Err("HOME not found"@),
        }
    }
}

/// The data folder, given whether the system is Windows and the values of the
/// `APPDATA` and `HOME` variables.
pub fn get_ogulniega_root(windows: bool, appdata: Option<&str>, home: Option<&str>) -> (r: Result<String, String>)
    ensures
        r matches Ok(s) ==> spec_root(windows, opt_view(appdata), opt_view(home)) == Ok::<Seq<char>, Seq<char>>(s@),
        r matches Err(e) ==> spec_root(windows, opt_view(appdata), opt_view(home)) == Err::<Seq<char>, Seq<char>>(e@),
{
    if windows {
        match appdata {
            Some(a) => Ok(owned(a).concat("/.ogulniega")),
            None => Err(owned("APPDATA not found")),
        }
    } else {
        match home {
            Some(h) => Ok(owned(h).concat("/.ogulniega")),
            None => Err(owned("HOME not found")),
        }
    }
}

/// An optional text as a mathematical value.
pub open spec fn opt_view(s: Option<&str>) -> Option<Seq<char>> {
    match s {
        Some(t) => Some(t@),
        None => None,
    }
}

/// The folder of the mods: `profile/mods` in the data folder.
pub fn get_mods_dir(windows: bool, appdata: Option<&str>, home: Option<&str>) -> (r: Result<String, String>)
    ensures
        r matches Ok(s) ==> spec_root(windows, opt_view(appdata), opt_view(home)) matches Ok(root) && s@
            == root + "/profile/mods"@,
        r matches Err(e) ==> spec_root(windows, opt_view(appdata), opt_view(home)) == Err::<Seq<char>, Seq<char>>(e@),
{
    let root = get_ogulniega_root(windows, appdata, home)?;
    Ok(root.concat("/profile/mods"))
}

/// The platform's path separator: a backslash on Windows, `/` elsewhere.
pub open spec fn sep(windows: bool) -> char {
    if windows {
        '\\'
    } else {
        '/'
    }
}

/// The Java folder: the `java` folder of the manager's root, joined with the
/// platform's separator.
pub open spec fn spec_java_dir(windows: bool, appdata: Option<Seq<char>>, home: Option<Seq<char>>) -> Result<
    Seq<char>,
    Seq<char>,
> {
    match spec_root(windows, appdata, home) {
        Ok(root) => Ok(root.push(sep(windows)) + "java"@),
        Err(e) => Err(e),
    }
}

/// `dir` joined with the name `name`: what `Path::join` gives for a folder
/// whose name does not end in a separator and a relative name without a drive
/// prefix (such as a Java build name, which starts with `jdk-`).
pub open spec fn join_name(dir: Seq<char>, name: Seq<char>, windows: bool) -> Seq<char> {
    dir.push(sep(windows)) + name
}

/// The install folder of the build `java_name` in the Java folder `java_dir`,
/// and its `java` program in the `bin` folder.
pub open spec fn spec_install_location(java_dir: Seq<char>, java_name: Seq<char>, windows: bool) -> (
    Seq<char>,
    Seq<char>,
) {
    let dir = join_name(java_dir, java_name, windows);
    (
        dir,
        join_name(join_name(dir, "bin"@, windows), if windows {
            "java.exe"@
        } else {
            "java"@
        }, windows),
    )
}

/// Where the build `java_name` is installed in the Java folder `java_dir`: its
/// folder and its `java` program.
pub fn install_location(java_dir: &str, java_name: &str, windows: bool) -> (r: (String, String))
    ensures
        (r.0@, r.1@) == spec_install_location(java_dir@, java_name@, windows),
{
    let s = if windows {
        '\\'
    } else {
        '/'
    };
    let mut dir = owned(java_dir);
    push_char(&mut dir, s);
    let dir = dir.concat(java_name);
    let mut exe = dir.clone();
    push_char(&mut exe, s);
    let mut exe = exe.concat("bin");
    push_char(&mut exe, s);
    let exe = exe.concat(if windows {
        "java.exe"
    } else {
        "java"
    });
    (dir, exe)
}

/// The folder of the installed Java builds: `java` in the data folder, joined
/// with the system's path separator (`\` on Windows, `/` elsewhere), as
/// `PathBuf::join` does for a folder whose name does not end in a separator.
pub fn get_java_dir(windows: bool, appdata: Option<&str>, home: Option<&str>) -> (r: Result<String, String>)
    ensures
        r matches Ok(s) ==> spec_java_dir(windows, opt_view(appdata), opt_view(home)) == Ok::<Seq<char>, Seq<char>>(s@),
        r matches Err(e) ==> spec_java_dir(windows, opt_view(appdata), opt_view(home)) == Err::<Seq<char>, Seq<char>>(e@),
{
    let mut root = get_ogulniega_root(windows, appdata, home)?;
    push_char(&mut root, if windows { '\\' } else { '/' });
    Ok(root.concat("java"))
}

/// `a/b`.
pub open spec fn slash(a: Seq<char>, b: Seq<char>) -> Seq<char> {
    a + "/"@ + b
}

fn join_slash(a: &str, b: &str) -> (r: String)
    ensures
        r@ == slash(a@, b@),
{
    owned(a).concat("/").concat(b)
}

/// The two folders of a game version's mods, each with its sub-path: the
/// version folder (sub-path empty) and its `preinstalled` subfolder.
pub fn version_dirs(mods_dir: &str, game_version: &str) -> (r: Vec<(String, String)>)
    ensures
        r@.len() == 2,
        r@[0].0@ == ""@,
        r@[0].1@ == slash(mods_dir@, game_version@),
        r@[1].0@ == "preinstalled"@,
        r@[1].1@ == slash(slash(mods_dir@, game_version@), "preinstalled"@),
{
    let version_dir = join_slash(mods_dir, game_version);
    let pre_dir = join_slash(version_dir.as_str(), "preinstalled");
    let mut r: Vec<(String, String)> = Vec::new();
    r.push((owned(""), version_dir));
    r.push((owned("preinstalled"), pre_dir));
    r
}

/// The folder of a game version's mods with the given sub-path: the version
/// folder itself when the sub-path is empty.
pub fn mod_folder(mods_dir: &str, game_version: &str, sub_path: &str) -> (r: String)
    ensures
        sub_path@.len() == 0 ==> r@ == slash(mods_dir@, game_version@),
        sub_path@.len() > 0 ==> r@ == slash(slash(mods_dir@, game_version@), sub_path@),
{
    let version_dir = join_slash(mods_dir, game_version);
    if sub_path.is_empty() {
        version_dir
    } else {
        join_slash(version_dir.as_str(), sub_path)
    }
}

/// Where an uploaded mod file is written: in the version folder, or in its
/// `preinstalled` subfolder.
pub fn mod_file_destination(mods_dir: &str, game_version: &str, filename: &str, preinstalled: bool) -> (r: String)
    ensures
        !preinstalled ==> r@ == slash(slash(mods_dir@, game_version@), filename@),
        preinstalled ==> r@ == slash(slash(slash(mods_dir@, game_version@), "preinstalled"@), filename@),
{
    let version_dir = join_slash(mods_dir, game_version);
    if preinstalled {
        let pre = join_slash(version_dir.as_str(), "preinstalled");
        join_slash(pre.as_str(), filename)
    } else {
        join_slash(version_dir.as_str(), filename)
    }
}

/// The folder listed for a directory name: that name in the mods folder.
pub fn mods_subfolder(mods_dir: &str, dir_name: &str) -> (r: String)
    ensures
        r@ == slash(mods_dir@, dir_name@),
{
    join_slash(mods_dir, dir_name)
}

/// Texts are listed in the order of `String`'s `Ord`.
impl SortKey for String {
    open spec fn key_le(&self, other: &Self) -> bool {
        !text_lt(other@, self@)
    }

    fn le(&self, other: &Self) -> (r: bool) {
        let a = chars_of(self.as_str());
        let b = chars_of(other.as_str());
        !text_less(b.as_slice(), a.as_slice())
    }

    proof fn lemma_total(a: &Self, b: &Self) {
        lemma_text_lt_asymmetric(a@, b@);
    }

    proof fn lemma_transitive(a: &Self, b: &Self, c: &Self) {
        lemma_text_lt_total(a@, b@);
        lemma_text_lt_total(b@, c@);
        if text_lt(c@, a@) && text_lt(a@, b@) {
            lemma_text_lt_transitive(c@, a@, b@);
        }
    }
}

/// The names of a folder's subfolders, in order (`Vec::sort`).
pub fn sort_names(names: Vec<String>) -> (r: Vec<String>)
    ensures
        exists|p: Seq<int>| is_stable_sort_of(r@, names@, p),
{
    stable_sort(names)
}

} // verus!
