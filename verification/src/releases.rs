//! Java distributions: which release to download for a build name, from where,
//! and the description of the result.

use vstd::prelude::*;
use crate::json::{spec_as_u64, spec_get, spec_get_str, JsonValue};
use crate::platform::{
    adoptium_arch_for, adoptium_os_for, platform_pair, spec_adoptium_arch, spec_adoptium_os,
    spec_platform_pair, PlatformInfo, PlatformPair,
};
use crate::text::{
    after_first, before_first, cat_num, chars_eq_ignore_ascii_case, chars_of, contains_seq,
    decimal, ends_with, eq_ignore_ascii_case, has_infix, has_prefix, has_suffix, owned,
    parse_u32, push_decimal, spec_parse_u32, split_first, starts_with, str_eq,
};

verus! {

/// What a distribution's lookup gives: version, build number, download URL,
/// archive extension and the name of the service that answered.
pub type Fetched = (String, u32, String, String, String);

/// The mathematical value of a [`Fetched`].
pub open spec fn fetched_view(f: Fetched) -> (Seq<char>, u32, Seq<char>, Seq<char>, Seq<char>) {
    (f.0@, f.1, f.2@, f.3@, f.4@)
}

/// The result of a lookup as mathematical values.
pub open spec fn fetched_result_view(r: Result<Fetched, String>) -> Result<
    (Seq<char>, u32, Seq<char>, Seq<char>, Seq<char>),
    Seq<char>,
> {
    match r {
        Ok(f) => Ok(fetched_view(f)),
        Err(e) => Err(e@),
    }
}

// ---------------------------------------------------------------------------
// Microsoft OpenJDK
// ---------------------------------------------------------------------------

/// The Microsoft OpenJDK version published for a major version.
pub open spec fn spec_microsoft_version(major: u32) -> Option<Seq<char>> {
    if major == 11 {
        Some("11.0.31"@)
    } else if major == 17 {
        Some("17.0.19"@)
    } else if major == 21 {
        Some("21.0.11"@)
    } else if major == 25 {
        Some("25.0.2"@)
    } else {
        None
    }
}

/// Operating system, architecture and archive extension in Microsoft's file names.
pub open spec fn spec_microsoft_tokens(p: PlatformPair) -> (Seq<char>, Seq<char>, Seq<char>) {
    match p {
        PlatformPair::WindowsX64 => ("windows"@, "x64"@, "zip"@),
        PlatformPair::WindowsAarch64 => ("windows"@, "aarch64"@, "zip"@),
        PlatformPair::LinuxX64 => ("linux"@, "x64"@, "tar.gz"@),
        PlatformPair::LinuxAarch64 => ("linux"@, "aarch64"@, "tar.gz"@),
        PlatformPair::MacX64 => ("macos"@, "x64"@, "tar.gz"@),
        PlatformPair::MacAarch64 => ("macos"@, "aarch64"@, "tar.gz"@),
    }
}

/// The Microsoft OpenJDK download for a major version on a platform.
pub open spec fn spec_fetch_microsoft(major: u32, platform: crate::platform::PlatformModel) -> Result<
    (Seq<char>, u32, Seq<char>, Seq<char>, Seq<char>),
    Seq<char>,
> {
    match spec_microsoft_version(major) {
        None => Err(
            "Microsoft OpenJDK has no preset for major "@ + decimal(major as nat)
                + " (known: 11, 17, 21, 25)"@,
        ),
        Some(version) => match spec_platform_pair(platform.os, platform.arch) {
            None => Err("Microsoft has no build for "@ + platform.os + "-"@ + platform.arch),
            Some(p) => {
                let (os, arch, ext) = spec_microsoft_tokens(p);
                Ok(
                    (
                        version,
                        7,
                        "https://aka.ms/download-jdk/"@ + "microsoft-jdk-"@ + version + "-"@ + os
                            + "-"@ + arch + "."@ + ext,
                        ext,
                        "microsoft-aka"@,
                    ),
                )
            },
        },
    }
}

fn microsoft_tokens(p: PlatformPair) -> (r: (&'static str, &'static str, &'static str))
    ensures
        (r.0@, r.1@, r.2@) == spec_microsoft_tokens(p),
{
    match p {
        PlatformPair::WindowsX64 => ("windows", "x64", "zip"),
        PlatformPair::WindowsAarch64 => ("windows", "aarch64", "zip"),
        PlatformPair::LinuxX64 => ("linux", "x64", "tar.gz"),
        PlatformPair::LinuxAarch64 => ("linux", "aarch64", "tar.gz"),
        PlatformPair::MacX64 => ("macos", "x64", "tar.gz"),
        PlatformPair::MacAarch64 => ("macos", "aarch64", "tar.gz"),
    }
}

/// The Microsoft OpenJDK download for `major` on `platform`; Microsoft builds
/// are looked up in a fixed table, so no service is asked.
pub fn fetch_microsoft_latest(major: u32, _kind: &str, platform: &PlatformInfo) -> (r: Result<Fetched, String>)
    ensures
        fetched_result_view(r) == spec_fetch_microsoft(major, platform@),
{
    let version: &'static str = if major == 11 {
        "11.0.31"
    } else if major == 17 {
        "17.0.19"
    } else if major == 21 {
        "21.0.11"
    } else if major == 25 {
        "25.0.2"
    } else {
        let msg = cat_num(owned("Microsoft OpenJDK has no preset for major "), major as u64).concat(
            " (known: 11, 17, 21, 25)",
        );
        return Err(msg);
    };
    let pair = match platform_pair(platform) {
        Some(p) => p,
        None => {
            let msg = owned("Microsoft has no build for ").concat(platform.os.as_str()).concat(
                "-",
            ).concat(platform.arch.as_str());
            return Err(msg);
        },
    };
    let (os, arch, ext) = microsoft_tokens(pair);
    let url = owned("https://aka.ms/download-jdk/").concat("microsoft-jdk-").concat(version).concat(
        "-",
    ).concat(os).concat("-").concat(arch).concat(".").concat(ext);
    Ok((owned(version), 7, url, owned(ext), owned("microsoft-aka")))
}

// ---------------------------------------------------------------------------
// Amazon Corretto
// ---------------------------------------------------------------------------

/// Operating system, architecture, archive extension and package suffix in
/// Corretto's file names.
pub open spec fn spec_corretto_tokens(p: PlatformPair) -> (Seq<char>, Seq<char>, Seq<char>, Seq<char>) {
    match p {
        PlatformPair::WindowsX64 => ("windows"@, "x64"@, "zip"@, "-jdk"@),
        PlatformPair::WindowsAarch64 => ("windows"@, "aarch64"@, "zip"@, "-jdk"@),
        PlatformPair::LinuxX64 => ("linux"@, "x64"@, "tar.gz"@, ""@),
        PlatformPair::LinuxAarch64 => ("linux"@, "aarch64"@, "tar.gz"@, ""@),
        PlatformPair::MacX64 => ("macosx"@, "x64"@, "tar.gz"@, ""@),
        PlatformPair::MacAarch64 => ("macosx"@, "aarch64"@, "tar.gz"@, ""@),
    }
}

fn corretto_tokens(p: PlatformPair) -> (r: (&'static str, &'static str, &'static str, &'static str))
    ensures
        (r.0@, r.1@, r.2@, r.3@) == spec_corretto_tokens(p),
{
    match p {
        PlatformPair::WindowsX64 => ("windows", "x64", "zip", "-jdk"),
        PlatformPair::WindowsAarch64 => ("windows", "aarch64", "zip", "-jdk"),
        PlatformPair::LinuxX64 => ("linux", "x64", "tar.gz", ""),
        PlatformPair::LinuxAarch64 => ("linux", "aarch64", "tar.gz", ""),
        PlatformPair::MacX64 => ("macosx", "x64", "tar.gz", ""),
        PlatformPair::MacAarch64 => ("macosx", "aarch64", "tar.gz", ""),
    }
}

/// The GitHub API address of the latest Corretto release of a major version.
pub open spec fn spec_corretto_api_url(major: u32) -> Seq<char> {
    "https://api.github.com/repos/corretto/corretto-"@ + decimal(major as nat)
        + "/releases/latest"@
}

/// The address to ask for the latest Corretto release of `major`.
pub fn corretto_api_url(major: u32) -> (r: String)
    ensures
        r@ == spec_corretto_api_url(major),
{
    cat_num(owned("https://api.github.com/repos/corretto/corretto-"), major as u64).concat(
        "/releases/latest",
    )
}

/// The Corretto download, given GitHub's answer about the latest release.
pub open spec fn spec_corretto_release(
    major: u32,
    platform: crate::platform::PlatformModel,
    release: JsonValue,
) -> Result<(Seq<char>, u32, Seq<char>, Seq<char>, Seq<char>), Seq<char>> {
    match spec_get_str(release, "tag_name"@) {
        None => Err("Corretto major "@ + decimal(major as nat) + " not found on GitHub"@),
        Some(tag) => match spec_platform_pair(platform.os, platform.arch) {
            None => Err("Corretto has no build for "@ + platform.os + "-"@ + platform.arch),
            Some(p) => {
                let (os, arch, ext, suffix) = spec_corretto_tokens(p);
                let asset = "amazon-corretto-"@ + tag + "-"@ + os + "-"@ + arch + suffix + "."@
                    + ext;
                Ok(
                    (
                        tag,
                        1,
                        "https://corretto.aws/downloads/resources/"@ + tag + "/"@ + asset,
                        ext,
                        "corretto-aws"@,
                    ),
                )
            },
        },
    }
}

/// The Corretto download for `major` on `platform`, given the release document
/// that [`corretto_api_url`] answers with.
pub fn corretto_release(major: u32, platform: &PlatformInfo, release: &JsonValue) -> (r: Result<
    Fetched,
    String,
>)
    ensures
        fetched_result_view(r) == spec_corretto_release(major, platform@, *release),
{
    let tag = match release.get_str("tag_name") {
        Some(t) => t,
        None => {
            return Err(
                cat_num(owned("Corretto major "), major as u64).concat(" not found on GitHub"),
            );
        },
    };
    let pair = match platform_pair(platform) {
        Some(p) => p,
        None => {
            return Err(
                owned("Corretto has no build for ").concat(platform.os.as_str()).concat(
                    "-",
                ).concat(platform.arch.as_str()),
            );
        },
    };
    let (os, arch, ext, suffix) = corretto_tokens(pair);
    let asset = owned("amazon-corretto-").concat(tag).concat("-").concat(os).concat("-").concat(
        arch,
    ).concat(suffix).concat(".").concat(ext);
    let url = owned("https://corretto.aws/downloads/resources/").concat(tag).concat("/").concat(
        asset.as_str(),
    );
    Ok((owned(tag), 1, url, owned(ext), owned("corretto-aws")))
}

// ---------------------------------------------------------------------------
// Helpers shared by the lookups that read JSON
// ---------------------------------------------------------------------------

/// `jre` when `kind` is `jre` in any ASCII case, `jdk` otherwise.
pub open spec fn spec_kind_prefix(kind: Seq<char>) -> Seq<char> {
    if eq_ignore_ascii_case(kind, "jre"@) {
        "jre"@
    } else {
        "jdk"@
    }
}

/// The package kind word for `kind`.
pub fn kind_prefix(kind: &str) -> (r: &'static str)
    ensures
        r@ == spec_kind_prefix(kind@),
{
    let k = chars_of(kind);
    let jre = chars_of("jre");
    if chars_eq_ignore_ascii_case(k.as_slice(), jre.as_slice()) {
        "jre"
    } else {
        "jdk"
    }
}

/// The items of an array value; nothing for a missing or non-array value.
pub open spec fn spec_items(v: Option<JsonValue>) -> Seq<JsonValue> {
    match v {
        Some(JsonValue::Array(a)) => a@,
        _ => Seq::empty(),
    }
}

/// The text of a string member, or the empty text (`unwrap_or("")`).
pub open spec fn spec_str_or_empty(v: JsonValue, key: Seq<char>) -> Seq<char> {
    match spec_get_str(v, key) {
        Some(s) => s,
        None => Seq::empty(),
    }
}

fn str_or_empty<'a>(v: &'a JsonValue, key: &str) -> (r: &'a str)
    ensures
        r@ == spec_str_or_empty(*v, key@),
{
    match v.get_str(key) {
        Some(s) => s,
        None => {
            proof {
                reveal_strlit("");
            }
            ""
        },
    }
}

/// The first of `items` whose `name` member is the string `name`.
pub open spec fn spec_first_named(items: Seq<JsonValue>, name: Seq<char>) -> Option<JsonValue>
    decreases items.len(),
{
    if items.len() == 0 {
        None
    } else {
        match spec_first_named(items.drop_last(), name) {
            Some(v) => Some(v),
            None => if spec_get_str(items.last(), "name"@) == Some(name) {
                Some(items.last())
            } else {
                None
            },
        }
    }
}

fn first_named<'a>(items: &'a Vec<JsonValue>, name: &str) -> (r: Option<&'a JsonValue>)
    ensures
        r matches Some(v) ==> spec_first_named(items@, name@) == Some(*v),
        r is None ==> spec_first_named(items@, name@) is None,
{
    let mut found: Option<&JsonValue> = None;
    let mut i: usize = 0;
    while i < items.len()
        invariant
            i <= items@.len(),
            found matches Some(v) ==> spec_first_named(items@.take(i as int), name@) == Some(*v),
            found is None ==> spec_first_named(items@.take(i as int), name@) is None,
        decreases items@.len() - i,
    {
        assert(items@.take(i + 1).drop_last() =~= items@.take(i as int));
        if found.is_none() {
            match items[i].get_str("name") {
                Some(n) => {
                    if str_eq(n, name) {
                        found = Some(&items[i]);
                    }
                },
                None => {},
            }
        }
        i += 1;
    }
    assert(items@.take(items@.len() as int) =~= items@);
    found
}

// ---------------------------------------------------------------------------
// BellSoft Liberica
// ---------------------------------------------------------------------------

/// Operating system, architecture and archive extension in Liberica's file names.
pub open spec fn spec_liberica_tokens(p: PlatformPair) -> (Seq<char>, Seq<char>, Seq<char>) {
    match p {
        PlatformPair::WindowsX64 => ("windows"@, "amd64"@, "zip"@),
        PlatformPair::WindowsAarch64 => ("windows"@, "aarch64"@, "zip"@),
        PlatformPair::LinuxX64 => ("linux"@, "amd64"@, "tar.gz"@),
        PlatformPair::LinuxAarch64 => ("linux"@, "aarch64"@, "tar.gz"@),
        PlatformPair::MacX64 => ("macos"@, "x64"@, "tar.gz"@),
        PlatformPair::MacAarch64 => ("macos"@, "aarch64"@, "tar.gz"@),
    }
}

fn liberica_tokens(p: PlatformPair) -> (r: (&'static str, &'static str, &'static str))
    ensures
        (r.0@, r.1@, r.2@) == spec_liberica_tokens(p),
{
    match p {
        PlatformPair::WindowsX64 => ("windows", "amd64", "zip"),
        PlatformPair::WindowsAarch64 => ("windows", "aarch64", "zip"),
        PlatformPair::LinuxX64 => ("linux", "amd64", "tar.gz"),
        PlatformPair::LinuxAarch64 => ("linux", "aarch64", "tar.gz"),
        PlatformPair::MacX64 => ("macos", "x64", "tar.gz"),
        PlatformPair::MacAarch64 => ("macos", "aarch64", "tar.gz"),
    }
}

/// The address of the list of recent Liberica releases on GitHub.
pub fn liberica_api_url() -> (r: &'static str)
    ensures
        r@ == "https://api.github.com/repos/bell-sw/Liberica/releases?per_page=30"@,
{
    "https://api.github.com/repos/bell-sw/Liberica/releases?per_page=30"
}

/// The download address that a Liberica release offers for the asset name
/// `bellsoft-{prefix}{tag}-{os}-{arch}.{ext}`, when the release is of the wanted
/// major version and that asset has a non-empty address.
pub open spec fn spec_liberica_pick(
    release: JsonValue,
    major: u32,
    prefix: Seq<char>,
    os: Seq<char>,
    arch: Seq<char>,
    ext: Seq<char>,
) -> Option<Seq<char>> {
    let tag = spec_str_or_empty(release, "tag_name"@);
    if spec_parse_u32(before_first(tag, '.')) != Some(major) {
        None
    } else {
        let target = "bellsoft-"@ + prefix + tag + "-"@ + os + "-"@ + arch + "."@ + ext;
        match spec_first_named(spec_items(spec_get(release, "assets"@)), target) {
            None => None,
            Some(asset) => {
                let url = spec_str_or_empty(asset, "browser_download_url"@);
                if url.len() == 0 {
                    None
                } else {
                    Some(url)
                }
            },
        }
    }
}

/// The first release, in the order GitHub lists them, that offers the asset;
/// with its download address.
pub open spec fn spec_liberica_first(
    releases: Seq<JsonValue>,
    major: u32,
    prefix: Seq<char>,
    os: Seq<char>,
    arch: Seq<char>,
    ext: Seq<char>,
) -> Option<(JsonValue, Seq<char>)>
    decreases releases.len(),
{
    if releases.len() == 0 {
        None
    } else {
        match spec_liberica_first(releases.drop_last(), major, prefix, os, arch, ext) {
            Some(r) => Some(r),
            None => match spec_liberica_pick(releases.last(), major, prefix, os, arch, ext) {
                Some(url) => Some((releases.last(), url)),
                None => None,
            },
        }
    }
}

/// The build number in a release tag `VERSION+BUILD`: the text after the first
/// `+` up to the next one, or 0 when there is none or it is not a number.
pub open spec fn spec_tag_build(tag: Seq<char>) -> u32 {
    if tag.contains('+') {
        match spec_parse_u32(before_first(after_first(tag, '+'), '+')) {
            Some(b) => b,
            None => 0,
        }
    } else {
        0
    }
}

/// The Liberica download for `major` of the given kind on `platform`, given the
/// releases that [`liberica_api_url`] lists.
pub open spec fn spec_liberica_release(
    major: u32,
    kind: Seq<char>,
    platform: crate::platform::PlatformModel,
    releases: Seq<JsonValue>,
) -> Result<(Seq<char>, u32, Seq<char>, Seq<char>, Seq<char>), Seq<char>> {
    let prefix = spec_kind_prefix(kind);
    match spec_platform_pair(platform.os, platform.arch) {
        None => Err("Liberica has no build for "@ + platform.os + "-"@ + platform.arch),
        Some(p) => {
            let (os, arch, ext) = spec_liberica_tokens(p);
            match spec_liberica_first(releases, major, prefix, os, arch, ext) {
                None => Err(
                    "No Liberica release found for Java "@ + decimal(major as nat) + " "@ + prefix
                        + " on "@ + os + "-"@ + arch,
                ),
                Some((release, url)) => {
                    let tag = spec_str_or_empty(release, "tag_name"@);
                    Ok((before_first(tag, '+'), spec_tag_build(tag), url, ext, "liberica-github"@))
                },
            }
        },
    }
}

fn liberica_pick(
    release: &JsonValue,
    major: u32,
    prefix: &str,
    os: &str,
    arch: &str,
    ext: &str,
) -> (r: Option<String>)
    ensures
        r matches Some(u) ==> spec_liberica_pick(*release, major, prefix@, os@, arch@, ext@) == Some(
            u@,
        ),
        r is None ==> spec_liberica_pick(*release, major, prefix@, os@, arch@, ext@) is None,
{
    let tag = str_or_empty(release, "tag_name");
    let (head, _) = split_first(tag, '.');
    let head_cs = chars_of(head.as_str());
    match parse_u32(head_cs.as_slice()) {
        Some(m) => {
            if m != major {
                return None;
            }
        },
        None => {
            return None;
        },
    }
    let target = owned("bellsoft-").concat(prefix).concat(tag).concat("-").concat(os).concat(
        "-",
    ).concat(arch).concat(".").concat(ext);
    let empty: Vec<JsonValue> = Vec::new();
    let assets: &Vec<JsonValue> = match release.get("assets") {
        Some(a) => match a.as_array() {
            Some(items) => items,
            None => &empty,
        },
        None => &empty,
    };
    assert(assets@ == spec_items(spec_get(*release, "assets"@)));
    match first_named(assets, target.as_str()) {
        None => None,
        Some(asset) => {
            let url = str_or_empty(asset, "browser_download_url");
            if url.is_empty() {
                None
            } else {
                Some(owned(url))
            }
        },
    }
}

fn tag_build(tag: &str) -> (r: u32)
    ensures
        r == spec_tag_build(tag@),
{
    match split_first(tag, '+') {
        (_, Some(rest)) => {
            let (piece, _) = split_first(rest.as_str(), '+');
            let cs = chars_of(piece.as_str());
            match parse_u32(cs.as_slice()) {
                Some(b) => b,
                None => 0,
            }
        },
        (_, None) => 0,
    }
}

/// The Liberica download for `major` of the given kind on `platform`, given the
/// releases that [`liberica_api_url`] lists.
pub fn liberica_release(major: u32, kind: &str, platform: &PlatformInfo, releases: &Vec<JsonValue>) -> (r:
    Result<Fetched, String>)
    ensures
        fetched_result_view(r) == spec_liberica_release(major, kind@, platform@, releases@),
{
    let prefix = kind_prefix(kind);
    let pair = match platform_pair(platform) {
        Some(p) => p,
        None => {
            return Err(
                owned("Liberica has no build for ").concat(platform.os.as_str()).concat(
                    "-",
                ).concat(platform.arch.as_str()),
            );
        },
    };
    let (os, arch, ext) = liberica_tokens(pair);
    let mut i: usize = 0;
    while i < releases.len()
        invariant
            i <= releases@.len(),
            prefix@ == spec_kind_prefix(kind@),
            spec_platform_pair(platform@.os, platform@.arch) == Some(pair),
            (os@, arch@, ext@) == spec_liberica_tokens(pair),
            spec_liberica_first(releases@.take(i as int), major, prefix@, os@, arch@, ext@) is None,
        decreases releases@.len() - i,
    {
        assert(releases@.take(i + 1).drop_last() =~= releases@.take(i as int));
        if let Some(url) = liberica_pick(&releases[i], major, prefix, os, arch, ext) {
            assert(releases@.take(i + 1).last() == releases@[i as int]);
            assert(spec_liberica_first(releases@.take(i + 1), major, prefix@, os@, arch@, ext@)
                == Some((releases@[i as int], url@)));
            proof {
                lemma_liberica_first_prefix(releases@, i + 1, major, prefix@, os@, arch@, ext@);
            }
            let tag = str_or_empty(&releases[i], "tag_name");
            let (version, _) = split_first(tag, '+');
            return Ok((version, tag_build(tag), url, owned(ext), owned("liberica-github")));
        }
        i += 1;
    }
    assert(releases@.take(releases@.len() as int) =~= releases@);
    Err(
        cat_num(owned("No Liberica release found for Java "), major as u64).concat(" ").concat(
            prefix,
        ).concat(" on ").concat(os).concat("-").concat(arch),
    )
}

proof fn lemma_liberica_first_prefix(
    r: Seq<JsonValue>,
    k: int,
    major: u32,
    prefix: Seq<char>,
    os: Seq<char>,
    arch: Seq<char>,
    ext: Seq<char>,
)
    requires
        0 <= k <= r.len(),
        spec_liberica_first(r.take(k), major, prefix, os, arch, ext) is Some,
    ensures
        spec_liberica_first(r, major, prefix, os, arch, ext) == spec_liberica_first(
            r.take(k),
            major,
            prefix,
            os,
            arch,
            ext,
        ),
    decreases r.len() - k,
{
    if k < r.len() {
        assert(r.take(k + 1).drop_last() =~= r.take(k));
        lemma_liberica_first_prefix(r, k + 1, major, prefix, os, arch, ext);
    } else {
        assert(r.take(k) =~= r);
    }
}

// ---------------------------------------------------------------------------
// Azul Zulu
// ---------------------------------------------------------------------------

/// Operating system and architecture in the Azul metadata API.
pub open spec fn spec_zulu_tokens(p: PlatformPair) -> (Seq<char>, Seq<char>) {
    match p {
        PlatformPair::WindowsX64 => ("windows"@, "x86"@),
        PlatformPair::WindowsAarch64 => ("windows"@, "aarch64"@),
        PlatformPair::LinuxX64 => ("linux"@, "x64"@),
        PlatformPair::LinuxAarch64 => ("linux"@, "aarch64"@),
        PlatformPair::MacX64 => ("macos"@, "x64"@),
        PlatformPair::MacAarch64 => ("macos"@, "aarch64"@),
    }
}

fn zulu_tokens(p: PlatformPair) -> (r: (&'static str, &'static str))
    ensures
        (r.0@, r.1@) == spec_zulu_tokens(p),
{
    match p {
        PlatformPair::WindowsX64 => ("windows", "x86"),
        PlatformPair::WindowsAarch64 => ("windows", "aarch64"),
        PlatformPair::LinuxX64 => ("linux", "x64"),
        PlatformPair::LinuxAarch64 => ("linux", "aarch64"),
        PlatformPair::MacX64 => ("macos", "x64"),
        PlatformPair::MacAarch64 => ("macos", "aarch64"),
    }
}

/// The Azul metadata query for the latest Zulu packages of `major`, or the
/// refusal when Zulu has no build for the platform.
pub open spec fn spec_zulu_api_url(major: u32, kind: Seq<char>, platform: crate::platform::PlatformModel) -> Result<
    Seq<char>,
    Seq<char>,
> {
    match spec_platform_pair(platform.os, platform.arch) {
        None => Err("Zulu has no build for "@ + platform.os + "-"@ + platform.arch),
        Some(p) => {
            let (os, arch) = spec_zulu_tokens(p);
            Ok(
                "https://api.azul.com/metadata/v1/zulu/packages?availability_types=ca&release_status=ga&java_version="@
                    + decimal(major as nat) + "&os="@ + os + "&arch="@ + arch
                    + "&hw_bitness=64&bundle_type="@ + spec_kind_prefix(kind)
                    + "&features=latest&latest=true&page_size=50"@,
            )
        },
    }
}

/// The address to ask Azul for Zulu packages of `major` and `kind` on `platform`.
pub fn zulu_api_url(major: u32, kind: &str, platform: &PlatformInfo) -> (r: Result<String, String>)
    ensures
        r matches Ok(u) ==> spec_zulu_api_url(major, kind@, platform@) == Ok::<Seq<char>, Seq<char>>(u@),
        r matches Err(e) ==> spec_zulu_api_url(major, kind@, platform@) == Err::<Seq<char>, Seq<char>>(e@),
{
    let prefix = kind_prefix(kind);
    let pair = match platform_pair(platform) {
        Some(p) => p,
        None => {
            return Err(
                owned("Zulu has no build for ").concat(platform.os.as_str()).concat("-").concat(
                    platform.arch.as_str(),
                ),
            );
        },
    };
    let (os, arch) = zulu_tokens(pair);
    let url = cat_num(
        owned(
            "https://api.azul.com/metadata/v1/zulu/packages?availability_types=ca&release_status=ga&java_version=",
        ),
        major as u64,
    ).concat("&os=").concat(os).concat("&arch=").concat(arch).concat(
        "&hw_bitness=64&bundle_type=",
    ).concat(prefix).concat("&features=latest&latest=true&page_size=50");
    Ok(url)
}

/// A package name that the manager accepts: a plain Zulu `prefix` package
/// (no CRaC, musl, JavaFX or headless variant) in the platform's archive format.
pub open spec fn spec_zulu_name_ok(name: Seq<char>, prefix: Seq<char>, ext_zip: bool) -> bool {
    &&& starts_with(name, "zulu"@)
    &&& contains_seq(name, prefix)
    &&& !contains_seq(name, "-crac-"@)
    &&& !contains_seq(name, "-musl-"@)
    &&& !contains_seq(name, "-fx-"@)
    &&& !contains_seq(name, "-headless-"@)
    &&& if ext_zip {
        ends_with(name, ".zip"@)
    } else {
        ends_with(name, ".tar.gz"@)
    }
}

fn zulu_name_ok(name: &str, prefix: &str, ext_zip: bool) -> (r: bool)
    ensures
        r == spec_zulu_name_ok(name@, prefix@, ext_zip),
{
    let n = chars_of(name);
    let n = n.as_slice();
    let zulu = chars_of("zulu");
    let p = chars_of(prefix);
    let crac = chars_of("-crac-");
    let musl = chars_of("-musl-");
    let fx = chars_of("-fx-");
    let headless = chars_of("-headless-");
    let zip = chars_of(".zip");
    let tgz = chars_of(".tar.gz");
    if !has_prefix(n, zulu.as_slice()) || !has_infix(n, p.as_slice()) {
        return false;
    }
    if has_infix(n, crac.as_slice()) || has_infix(n, musl.as_slice()) || has_infix(
        n,
        fx.as_slice(),
    ) || has_infix(n, headless.as_slice()) {
        return false;
    }
    if ext_zip {
        has_suffix(n, zip.as_slice())
    } else {
        has_suffix(n, tgz.as_slice())
    }
}

/// The first package, in the order Azul lists them, whose name is accepted.
pub open spec fn spec_zulu_first(pkgs: Seq<JsonValue>, prefix: Seq<char>, ext_zip: bool) -> Option<
    JsonValue,
>
    decreases pkgs.len(),
{
    if pkgs.len() == 0 {
        None
    } else {
        match spec_zulu_first(pkgs.drop_last(), prefix, ext_zip) {
            Some(p) => Some(p),
            None => if spec_zulu_name_ok(spec_str_or_empty(pkgs.last(), "name"@), prefix, ext_zip) {
                Some(pkgs.last())
            } else {
                None
            },
        }
    }
}

/// The decimal texts of the non-negative integers among `items`, in order.
pub open spec fn spec_u64_texts(items: Seq<JsonValue>) -> Seq<Seq<char>>
    decreases items.len(),
{
    if items.len() == 0 {
        Seq::empty()
    } else {
        let rest = spec_u64_texts(items.drop_last());
        match spec_as_u64(items.last()) {
            Some(n) => rest.push(decimal(n as nat)),
            None => rest,
        }
    }
}

/// `parts.join(".")`.
pub open spec fn spec_join_dot(parts: Seq<Seq<char>>) -> Seq<char>
    decreases parts.len(),
{
    if parts.len() == 0 {
        Seq::empty()
    } else if parts.len() == 1 {
        parts[0]
    } else {
        spec_join_dot(parts.drop_last()) + "."@ + parts.last()
    }
}

/// The Java version of a Zulu package: the numbers of its `java_version` array
/// joined with dots, or the empty text.
pub open spec fn spec_zulu_version(pkg: JsonValue) -> Seq<char> {
    match spec_get(pkg, "java_version"@) {
        Some(JsonValue::Array(a)) => spec_join_dot(spec_u64_texts(a@)),
        _ => Seq::empty(),
    }
}

/// The OpenJDK build number of a Zulu package, cut to 32 bits (`as u32`), or 0.
pub open spec fn spec_zulu_build(pkg: JsonValue) -> u32 {
    match spec_get(pkg, "openjdk_build_number"@) {
        Some(v) => match spec_as_u64(v) {
            Some(n) => n as u32,
            None => 0,
        },
        None => 0,
    }
}

/// The Zulu download, given the packages that [`zulu_api_url`] lists.
pub open spec fn spec_zulu_release(
    major: u32,
    kind: Seq<char>,
    platform: crate::platform::PlatformModel,
    pkgs: Seq<JsonValue>,
) -> Result<(Seq<char>, u32, Seq<char>, Seq<char>, Seq<char>), Seq<char>> {
    let prefix = spec_kind_prefix(kind);
    let ext_zip = platform.os == "windows"@;
    match spec_platform_pair(platform.os, platform.arch) {
        None => Err("Zulu has no build for "@ + platform.os + "-"@ + platform.arch),
        Some(_) => match spec_zulu_first(pkgs, prefix, ext_zip) {
            None => Err(
                "No Zulu "@ + prefix + " found for major "@ + decimal(major as nat) + " on "@
                    + platform.os + "-"@ + platform.arch,
            ),
            Some(pkg) => match spec_get_str(pkg, "download_url"@) {
                None => Err("Zulu: no download_url"@),
                Some(url) => Ok(
                    (
                        spec_zulu_version(pkg),
                        spec_zulu_build(pkg),
                        url,
                        if ext_zip {
                            "zip"@
                        } else {
                            "tar.gz"@
                        },
                        "azul-metadata"@,
                    ),
                ),
            },
        },
    }
}

fn zulu_first<'a>(pkgs: &'a Vec<JsonValue>, prefix: &str, ext_zip: bool) -> (r: Option<&'a JsonValue>)
    ensures
        r matches Some(v) ==> spec_zulu_first(pkgs@, prefix@, ext_zip) == Some(*v),
        r is None ==> spec_zulu_first(pkgs@, prefix@, ext_zip) is None,
{
    let mut found: Option<&JsonValue> = None;
    let mut i: usize = 0;
    while i < pkgs.len()
        invariant
            i <= pkgs@.len(),
            found matches Some(v) ==> spec_zulu_first(pkgs@.take(i as int), prefix@, ext_zip)
                == Some(*v),
            found is None ==> spec_zulu_first(pkgs@.take(i as int), prefix@, ext_zip) is None,
        decreases pkgs@.len() - i,
    {
        assert(pkgs@.take(i + 1).drop_last() =~= pkgs@.take(i as int));
        if found.is_none() && zulu_name_ok(str_or_empty(&pkgs[i], "name"), prefix, ext_zip) {
            found = Some(&pkgs[i]);
        }
        i += 1;
    }
    assert(pkgs@.take(pkgs@.len() as int) =~= pkgs@);
    found
}

fn zulu_version(pkg: &JsonValue) -> (r: String)
    ensures
        r@ == spec_zulu_version(*pkg),
{
    let items = match pkg.get("java_version") {
        Some(v) => match v.as_array() {
            Some(a) => a,
            None => {
                return String::new();
            },
        },
        None => {
            return String::new();
        },
    };
    let mut out = String::new();
    let mut count: usize = 0;
    let mut i: usize = 0;
    while i < items.len()
        invariant
            i <= items@.len(),
            count <= i,
            out@ == spec_join_dot(spec_u64_texts(items@.take(i as int))),
            count == spec_u64_texts(items@.take(i as int)).len(),
        decreases items@.len() - i,
    {
        assert(items@.take(i + 1).drop_last() =~= items@.take(i as int));
        let ghost parts = spec_u64_texts(items@.take(i as int));
        match items[i].as_u64() {
            Some(n) => {
                if count > 0 {
                    out.append(".");
                }
                push_decimal(&mut out, n);
                count += 1;
                proof {
                    let np = parts.push(decimal(n as nat));
                    assert(np.drop_last() =~= parts);
                    if parts.len() == 0 {
                        assert(out@ =~= np[0]);
                    }
                }
            },
            None => {},
        }
        i += 1;
    }
    assert(items@.take(items@.len() as int) =~= items@);
    out
}

fn zulu_build(pkg: &JsonValue) -> (r: u32)
    ensures
        r == spec_zulu_build(*pkg),
{
    match pkg.get("openjdk_build_number") {
        Some(v) => match v.as_u64() {
            Some(n) => #[verifier::truncate] (n as u32),
            None => 0,
        },
        None => 0,
    }
}

/// The Zulu download for `major` of the given kind on `platform`, given the
/// packages that [`zulu_api_url`] lists.
pub fn zulu_release(major: u32, kind: &str, platform: &PlatformInfo, pkgs: &Vec<JsonValue>) -> (r:
    Result<Fetched, String>)
    ensures
        fetched_result_view(r) == spec_zulu_release(major, kind@, platform@, pkgs@),
{
    let prefix = kind_prefix(kind);
    if platform_pair(platform).is_none() {
        return Err(
            owned("Zulu has no build for ").concat(platform.os.as_str()).concat("-").concat(
                platform.arch.as_str(),
            ),
        );
    }
    let ext_zip = str_eq(platform.os.as_str(), "windows");
    let pkg = match zulu_first(pkgs, prefix, ext_zip) {
        Some(p) => p,
        None => {
            return Err(
                cat_num(
                    owned("No Zulu ").concat(prefix).concat(" found for major "),
                    major as u64,
                ).concat(" on ").concat(platform.os.as_str()).concat("-").concat(
                    platform.arch.as_str(),
                ),
            );
        },
    };
    let url = match pkg.get_str("download_url") {
        Some(u) => owned(u),
        None => {
            return Err(owned("Zulu: no download_url"));
        },
    };
    let ext = if ext_zip {
        "zip"
    } else {
        "tar.gz"
    };
    Ok((zulu_version(pkg), zulu_build(pkg), url, owned(ext), owned("azul-metadata")))
}

// ---------------------------------------------------------------------------
// Eclipse Temurin (Adoptium)
// ---------------------------------------------------------------------------

/// A downloadable file of an Adoptium binary.
#[derive(Clone, Debug, Default)]
pub struct AdoptiumPackage {
    pub name: String,
    pub link: String,
    pub size: u64,
}

/// One binary of an Adoptium release.
#[derive(Clone, Debug, Default)]
pub struct AdoptiumBinary {
    pub os: String,
    pub architecture: String,
    pub image_type: String,
    pub package: AdoptiumPackage,
}

/// The version data of an Adoptium release.
#[derive(Clone, Debug, Default)]
pub struct AdoptiumVersion {
    pub semver: String,
    pub major: u32,
    pub minor: u32,
    pub patch: u32,
    pub build: u32,
}

/// One Adoptium release, as the assets API describes it.
#[derive(Clone, Debug, Default)]
pub struct AdoptiumRelease {
    pub release_name: String,
    pub binaries: Vec<AdoptiumBinary>,
    pub version: AdoptiumVersion,
}

/// The Adoptium assets query for the latest release of `major` and `kind`.
pub open spec fn spec_temurin_api_url(major: u32, kind: Seq<char>, platform: crate::platform::PlatformModel) -> Result<
    Seq<char>,
    Seq<char>,
> {
    match spec_adoptium_os(platform.os) {
        Err(e) => Err(e),
        Ok(os) => match spec_adoptium_arch(platform.arch) {
            Err(e) => Err(e),
            Ok(arch) => Ok(
                "https://api.adoptium.net/v3/assets/feature_releases/"@ + decimal(major as nat)
                    + "/ga?architecture="@ + arch + "&os="@ + os + "&image_type="@ + kind
                    + "&page=0&size=1&sort=timestamp&order=DESC"@,
            ),
        },
    }
}

/// The address to ask Adoptium for the latest Temurin release of `major`.
pub fn temurin_api_url(major: u32, kind: &str, platform: &PlatformInfo) -> (r: Result<String, String>)
    ensures
        r matches Ok(u) ==> spec_temurin_api_url(major, kind@, platform@) == Ok::<Seq<char>, Seq<char>>(u@),
        r matches Err(e) ==> spec_temurin_api_url(major, kind@, platform@) == Err::<Seq<char>, Seq<char>>(e@),
{
    let os = adoptium_os_for(platform)?;
    let arch = adoptium_arch_for(platform)?;
    Ok(
        cat_num(owned("https://api.adoptium.net/v3/assets/feature_releases/"), major as u64).concat(
            "/ga?architecture=",
        ).concat(arch).concat("&os=").concat(os).concat("&image_type=").concat(kind).concat(
            "&page=0&size=1&sort=timestamp&order=DESC",
        ),
    )
}

/// A binary for the platform's own operating system and architecture names and
/// the wanted kind, compared without regard to ASCII case.
pub open spec fn spec_binary_matches(b: AdoptiumBinary, os: Seq<char>, arch: Seq<char>, kind: Seq<char>) -> bool {
    &&& eq_ignore_ascii_case(b.os@, os)
    &&& eq_ignore_ascii_case(b.architecture@, arch)
    &&& eq_ignore_ascii_case(b.image_type@, kind)
}

/// The first matching binary.
pub open spec fn spec_first_binary(bs: Seq<AdoptiumBinary>, os: Seq<char>, arch: Seq<char>, kind: Seq<char>) -> Option<
    AdoptiumBinary,
>
    decreases bs.len(),
{
    if bs.len() == 0 {
        None
    } else {
        match spec_first_binary(bs.drop_last(), os, arch, kind) {
            Some(b) => Some(b),
            None => if spec_binary_matches(bs.last(), os, arch, kind) {
                Some(bs.last())
            } else {
                None
            },
        }
    }
}

/// The Temurin download, given the releases that [`temurin_api_url`] answers with.
pub open spec fn spec_temurin_release(
    major: u32,
    kind: Seq<char>,
    platform: crate::platform::PlatformModel,
    releases: Seq<AdoptiumRelease>,
) -> Result<(Seq<char>, u32, Seq<char>, Seq<char>, Seq<char>), Seq<char>> {
    match spec_adoptium_os(platform.os) {
        Err(e) => Err(e),
        Ok(_) => match spec_adoptium_arch(platform.arch) {
            Err(e) => Err(e),
            Ok(arch) => if releases.len() == 0 {
                Err("No Adoptium release for "@ + decimal(major as nat) + "/"@ + kind + "/"@ + arch)
            } else {
                let release = releases[0];
                match spec_first_binary(release.binaries@, platform.os, platform.arch, kind) {
                    None => Err(
                        "No matching Temurin binary for "@ + platform.os + "-"@ + platform.arch
                            + "-"@ + kind,
                    ),
                    Some(b) => Ok(
                        (
                            release.version.semver@,
                            release.version.build,
                            b.package.link@,
                            if platform.os == "windows"@ {
                                "zip"@
                            } else {
                                "tar.gz"@
                            },
                            "adoptium-api"@,
                        ),
                    ),
                }
            },
        },
    }
}

fn binary_matches(b: &AdoptiumBinary, os: &[char], arch: &[char], kind: &[char]) -> (r: bool)
    ensures
        r == spec_binary_matches(*b, os@, arch@, kind@),
{
    let bo = chars_of(b.os.as_str());
    let ba = chars_of(b.architecture.as_str());
    let bk = chars_of(b.image_type.as_str());
    chars_eq_ignore_ascii_case(bo.as_slice(), os) && chars_eq_ignore_ascii_case(ba.as_slice(), arch)
        && chars_eq_ignore_ascii_case(bk.as_slice(), kind)
}

/// The Temurin download for `major` of the given kind on `platform`, given the
/// releases that [`temurin_api_url`] answers with.
pub fn temurin_release(major: u32, kind: &str, platform: &PlatformInfo, releases: &Vec<AdoptiumRelease>) -> (r:
    Result<Fetched, String>)
    ensures
        fetched_result_view(r) == spec_temurin_release(major, kind@, platform@, releases@),
        r matches Ok(f) ==> f.3@ == (if platform@.os == "windows"@ {
            "zip"@
        } else {
            "tar.gz"@
        }),
{
    let _os = adoptium_os_for(platform)?;
    let arch = adoptium_arch_for(platform)?;
    if releases.len() == 0 {
        return Err(
            cat_num(owned("No Adoptium release for "), major as u64).concat("/").concat(kind).concat(
                "/",
            ).concat(arch),
        );
    }
    let release = &releases[0];
    let os_cs = chars_of(platform.os.as_str());
    let arch_cs = chars_of(platform.arch.as_str());
    let kind_cs = chars_of(kind);
    let bs = &release.binaries;
    let mut found: Option<&AdoptiumBinary> = None;
    let mut i: usize = 0;
    while i < bs.len()
        invariant
            i <= bs@.len(),
            found matches Some(b) ==> spec_first_binary(bs@.take(i as int), os_cs@, arch_cs@, kind_cs@)
                == Some(*b),
            found is None ==> spec_first_binary(bs@.take(i as int), os_cs@, arch_cs@, kind_cs@) is None,
        decreases bs@.len() - i,
    {
        assert(bs@.take(i + 1).drop_last() =~= bs@.take(i as int));
        if found.is_none() && binary_matches(&bs[i], os_cs.as_slice(), arch_cs.as_slice(), kind_cs.as_slice()) {
            found = Some(&bs[i]);
        }
        i += 1;
    }
    assert(bs@.take(bs@.len() as int) =~= bs@);
    let binary = match found {
        Some(b) => b,
        None => {
            return Err(
                owned("No matching Temurin binary for ").concat(platform.os.as_str()).concat(
                    "-",
                ).concat(platform.arch.as_str()).concat("-").concat(kind),
            );
        },
    };
    let ext = if str_eq(platform.os.as_str(), "windows") {
        "zip"
    } else {
        "tar.gz"
    };
    Ok(
        (
            release.version.semver.clone(),
            release.version.build,
            binary.package.link.clone(),
            owned(ext),
            owned("adoptium-api"),
        ),
    )
}

// ---------------------------------------------------------------------------
// Archive formats
// ---------------------------------------------------------------------------

/// The archive format of builds for the operating system `os`: zip on Windows,
/// gzip-compressed tar elsewhere.
pub open spec fn archive_ext_for(os: Seq<char>) -> Seq<char> {
    if os == "windows"@ {
        "zip"@
    } else {
        "tar.gz"@
    }
}

/// The common platforms run Windows exactly when their pair is a Windows one.
proof fn lemma_pair_windows(os: Seq<char>, arch: Seq<char>)
    ensures
        spec_platform_pair(os, arch) matches Some(p) ==> ((p is WindowsX64 || p is WindowsAarch64)
            <==> os == "windows"@),
{
    reveal_strlit("windows");
    reveal_strlit("linux");
    reveal_strlit("mac");
}

/// The binary picked is one of the release's binaries, and it matches.
proof fn lemma_first_binary_in(bs: Seq<AdoptiumBinary>, os: Seq<char>, arch: Seq<char>, kind: Seq<char>)
    ensures
        spec_first_binary(bs, os, arch, kind) matches Some(b) ==> spec_binary_matches(b, os, arch, kind)
            && exists|i: int| 0 <= i < bs.len() && #[trigger] bs[i] == b,
    decreases bs.len(),
{
    if bs.len() > 0 {
        lemma_first_binary_in(bs.drop_last(), os, arch, kind);
        if let Some(b) = spec_first_binary(bs.drop_last(), os, arch, kind) {
            let i = choose|i: int| 0 <= i < bs.drop_last().len() && bs.drop_last()[i] == b;
            assert(bs[i] == b);
        } else if spec_first_binary(bs, os, arch, kind) is Some {
            assert(bs[bs.len() - 1] == bs.last());
        }
    }
}

/// Law: a Temurin lookup that succeeds gives the version and build of the first
/// listed release, the download of one of its binaries, the platform's archive
/// format (zip on Windows, gzip-compressed tar elsewhere) and the Adoptium
/// source.
pub proof fn lemma_temurin_release_result(
    major: u32,
    kind: Seq<char>,
    platform: crate::platform::PlatformModel,
    releases: Seq<AdoptiumRelease>,
)
    ensures
        spec_temurin_release(major, kind, platform, releases) matches Ok(f) ==> {
            &&& releases.len() > 0
            &&& f.0 == releases[0].version.semver@
            &&& f.1 == releases[0].version.build
            &&& exists|b: int|
                0 <= b < releases[0].binaries@.len() && f.2 == (#[trigger] releases[0].binaries@[b]).package.link@
            &&& f.3 == (if platform.os == "windows"@ {
                "zip"@
            } else {
                "tar.gz"@
            })
            &&& f.4 == "adoptium-api"@
        },
{
    if spec_temurin_release(major, kind, platform, releases) is Ok {
        let bs = releases[0].binaries@;
        lemma_first_binary_in(bs, platform.os, platform.arch, kind);
    }
}

/// Law: every successful lookup, of any distribution, gives the archive format
/// of the platform: zip on Windows, gzip-compressed tar elsewhere.
pub proof fn lemma_lookups_use_platform_archive(
    major: u32,
    kind: Seq<char>,
    platform: crate::platform::PlatformModel,
    releases: Seq<AdoptiumRelease>,
    items: Seq<JsonValue>,
    doc: JsonValue,
)
    ensures
        spec_temurin_release(major, kind, platform, releases) matches Ok(f) ==> f.3 == archive_ext_for(platform.os),
        spec_liberica_release(major, kind, platform, items) matches Ok(f) ==> f.3 == archive_ext_for(platform.os),
        spec_zulu_release(major, kind, platform, items) matches Ok(f) ==> f.3 == archive_ext_for(platform.os),
        spec_corretto_release(major, platform, doc) matches Ok(f) ==> f.3 == archive_ext_for(platform.os),
        spec_fetch_microsoft(major, platform) matches Ok(f) ==> f.3 == archive_ext_for(platform.os),
{
    lemma_pair_windows(platform.os, platform.arch);
}

} // verus!
