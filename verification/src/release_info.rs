//! Which distribution a request names, and the description of the release that
//! the manager will install.

use vstd::prelude::*;
use crate::java_name::{parse_java_name, spec_parse_java_name};
use crate::platform::{platform_pair, spec_platform_pair, PlatformInfo};
use crate::json::JsonValue;
use crate::layout::{get_java_dir, install_location, opt_view, spec_install_location, spec_java_dir};
use crate::releases::{
    corretto_api_url, corretto_release, fetch_microsoft_latest, fetched_result_view, fetched_view,
    liberica_api_url, liberica_release, spec_corretto_api_url, spec_corretto_release,
    spec_fetch_microsoft, spec_liberica_release, archive_ext_for, lemma_lookups_use_platform_archive, spec_temurin_api_url, spec_temurin_release,
    spec_zulu_api_url, spec_zulu_release, temurin_api_url, temurin_release, zulu_api_url,
    zulu_release, AdoptiumRelease, Fetched,
};
use crate::text::{owned, str_eq};

verus! {

/// The Java distributions the manager can install.
#[derive(Clone, Copy, Debug)]
pub enum DistributionKind {
    Temurin,
    Liberica,
    Zulu,
    Corretto,
    Microsoft,
}

/// The distribution that a name (or one of its aliases) stands for.
pub open spec fn spec_distribution_kind(d: Seq<char>) -> Option<DistributionKind> {
    if d == "temurin"@ || d == "adoptium"@ || d == "eclipse"@ {
        Some(DistributionKind::Temurin)
    } else if d == "liberica"@ || d == "bellsoft"@ {
        Some(DistributionKind::Liberica)
    } else if d == "zulu"@ {
        Some(DistributionKind::Zulu)
    } else if d == "corretto"@ {
        Some(DistributionKind::Corretto)
    } else if d == "microsoft"@ || d == "ms"@ || d == "msopenjdk"@ {
        Some(DistributionKind::Microsoft)
    } else {
        None
    }
}

/// The distribution that `distribution` names.
pub fn distribution_kind(distribution: &str) -> (r: Option<DistributionKind>)
    ensures
        r == spec_distribution_kind(distribution@),
{
    let d = distribution;
    if str_eq(d, "temurin") || str_eq(d, "adoptium") || str_eq(d, "eclipse") {
        Some(DistributionKind::Temurin)
    } else if str_eq(d, "liberica") || str_eq(d, "bellsoft") {
        Some(DistributionKind::Liberica)
    } else if str_eq(d, "zulu") {
        Some(DistributionKind::Zulu)
    } else if str_eq(d, "corretto") {
        Some(DistributionKind::Corretto)
    } else if str_eq(d, "microsoft") || str_eq(d, "ms") || str_eq(d, "msopenjdk") {
        Some(DistributionKind::Microsoft)
    } else {
        None
    }
}

/// The display name of a distribution; an unknown name stands for itself.
pub open spec fn spec_distribution_label(d: Seq<char>) -> Seq<char> {
    match spec_distribution_kind(d) {
        Some(DistributionKind::Temurin) => "Eclipse Temurin"@,
        Some(DistributionKind::Zulu) => "Azul Zulu"@,
        Some(DistributionKind::Liberica) => "BellSoft Liberica"@,
        Some(DistributionKind::Corretto) => "Amazon Corretto"@,
        Some(DistributionKind::Microsoft) => "Microsoft OpenJDK"@,
        None => d,
    }
}

/// The display name of `distribution`.
pub fn distribution_label(distribution: &str) -> (r: String)
    ensures
        r@ == spec_distribution_label(distribution@),
{
    match distribution_kind(distribution) {
        Some(DistributionKind::Temurin) => owned("Eclipse Temurin"),
        Some(DistributionKind::Zulu) => owned("Azul Zulu"),
        Some(DistributionKind::Liberica) => owned("BellSoft Liberica"),
        Some(DistributionKind::Corretto) => owned("Amazon Corretto"),
        Some(DistributionKind::Microsoft) => owned("Microsoft OpenJDK"),
        None => owned(distribution),
    }
}

/// `jre` for a runtime-only build, `jdk` otherwise.
pub open spec fn spec_kind_name(is_jre: bool) -> Seq<char> {
    if is_jre {
        "jre"@
    } else {
        "jdk"@
    }
}

/// What a release request resolves to before any service is asked.
#[derive(Clone, Copy, Debug)]
pub struct ReleaseRequest {
    pub distribution: DistributionKind,
    pub major: u32,
    pub is_jre: bool,
}

/// The checks a release request passes, in order: a known platform, a valid
/// build name, a known distribution.
pub open spec fn spec_release_request(
    distribution: Seq<char>,
    java_name: Seq<char>,
    platform: crate::platform::PlatformModel,
) -> Result<ReleaseRequest, Seq<char>> {
    if platform.os == "unknown"@ || platform.arch == "unknown"@ {
        Err("Unsupported platform: os="@ + platform.os + ", arch="@ + platform.arch)
    } else {
        match spec_parse_java_name(java_name) {
            Err(e) => Err(e),
            Ok(p) => match spec_distribution_kind(distribution) {
                None => Err(
                    "Unknown distribution '"@ + distribution
                        + "'. Supported: temurin, zulu, liberica, corretto, microsoft"@,
                ),
                Some(k) => Ok(ReleaseRequest { distribution: k, major: p.major, is_jre: p.is_jre }),
            },
        }
    }
}

/// Resolves a request for `java_name` from `distribution` on `platform`.
pub fn release_request(distribution: &str, java_name: &str, platform: &PlatformInfo) -> (r: Result<
    ReleaseRequest,
    String,
>)
    ensures
        r matches Ok(q) ==> spec_release_request(distribution@, java_name@, platform@) == Ok::<ReleaseRequest, Seq<char>>(q),
        r matches Err(e) ==> spec_release_request(distribution@, java_name@, platform@) == Err::<ReleaseRequest, Seq<char>>(e@),
{
    if str_eq(platform.os.as_str(), "unknown") || str_eq(platform.arch.as_str(), "unknown") {
        return Err(
            owned("Unsupported platform: os=").concat(platform.os.as_str()).concat(
                ", arch=",
            ).concat(platform.arch.as_str()),
        );
    }
    let parsed = parse_java_name(java_name)?;
    match distribution_kind(distribution) {
        None => Err(
            owned("Unknown distribution '").concat(distribution).concat(
                "'. Supported: temurin, zulu, liberica, corretto, microsoft",
            ),
        ),
        Some(k) => Ok(ReleaseRequest { distribution: k, major: parsed.major, is_jre: parsed.is_jre }),
    }
}

/// How the latest release of a request is found.
#[derive(Debug)]
pub enum ReleaseLookup {
    /// Known without asking any service.
    Known(Fetched),
    /// Found by asking the service at this address; the distribution's reading
    /// function in [`crate::releases`] takes the answer.
    Ask(String),
}

/// The mathematical value of a [`ReleaseLookup`].
pub enum ReleaseLookupModel {
    Known((Seq<char>, u32, Seq<char>, Seq<char>, Seq<char>)),
    Ask(Seq<char>),
}

impl View for ReleaseLookup {
    type V = ReleaseLookupModel;

    open spec fn view(&self) -> ReleaseLookupModel {
        match self {
            ReleaseLookup::Known(f) => ReleaseLookupModel::Known(fetched_view(*f)),
            ReleaseLookup::Ask(url) => ReleaseLookupModel::Ask(url@),
        }
    }
}

/// Where each distribution looks for its latest release of the requested major
/// version and kind, or the refusal that comes before any service is asked.
pub open spec fn spec_release_lookup(q: ReleaseRequest, platform: crate::platform::PlatformModel) -> Result<
    ReleaseLookupModel,
    Seq<char>,
> {
    let kind = spec_kind_name(q.is_jre);
    match q.distribution {
        DistributionKind::Temurin => match spec_temurin_api_url(q.major, kind, platform) {
            Ok(url) => Ok(ReleaseLookupModel::Ask(url)),
            Err(e) => Err(e),
        },
        DistributionKind::Liberica => match spec_platform_pair(platform.os, platform.arch) {
            None => Err("Liberica has no build for "@ + platform.os + "-"@ + platform.arch),
            Some(_) => Ok(
                ReleaseLookupModel::Ask(
                    "https://api.github.com/repos/bell-sw/Liberica/releases?per_page=30"@,
                ),
            ),
        },
        DistributionKind::Zulu => match spec_zulu_api_url(q.major, kind, platform) {
            Ok(url) => Ok(ReleaseLookupModel::Ask(url)),
            Err(e) => Err(e),
        },
        DistributionKind::Corretto => Ok(ReleaseLookupModel::Ask(spec_corretto_api_url(q.major))),
        DistributionKind::Microsoft => match spec_fetch_microsoft(q.major, platform) {
            Ok(f) => Ok(ReleaseLookupModel::Known(f)),
            Err(e) => Err(e),
        },
    }
}

/// How to find the release that `q` asks for on `platform`.
pub fn release_lookup(q: &ReleaseRequest, platform: &PlatformInfo) -> (r: Result<ReleaseLookup, String>)
    ensures
        r matches Ok(l) ==> spec_release_lookup(*q, platform@) == Ok::<ReleaseLookupModel, Seq<char>>(l@),
        r matches Err(e) ==> spec_release_lookup(*q, platform@) == Err::<ReleaseLookupModel, Seq<char>>(e@),
{
    let kind = if q.is_jre {
        "jre"
    } else {
        "jdk"
    };
    match q.distribution {
        DistributionKind::Temurin => Ok(ReleaseLookup::Ask(temurin_api_url(q.major, kind, platform)?)),
        DistributionKind::Liberica => match platform_pair(platform) {
            None => Err(
                owned("Liberica has no build for ").concat(platform.os.as_str()).concat("-").concat(
                    platform.arch.as_str(),
                ),
            ),
            Some(_) => Ok(ReleaseLookup::Ask(owned(liberica_api_url()))),
        },
        DistributionKind::Zulu => Ok(ReleaseLookup::Ask(zulu_api_url(q.major, kind, platform)?)),
        DistributionKind::Corretto => Ok(ReleaseLookup::Ask(corretto_api_url(q.major))),
        DistributionKind::Microsoft => Ok(
            ReleaseLookup::Known(fetch_microsoft_latest(q.major, kind, platform)?),
        ),
    }
}

/// Everything the manager knows about a release before installing it.
#[derive(Clone, Debug)]
pub struct ReleaseInfo {
    pub distribution: String,
    pub distribution_label: String,
    pub major: u32,
    pub kind: String,
    pub is_jre: bool,
    pub version: String,
    pub build: u32,
    pub java_name: String,
    pub url: String,
    pub archive_ext: String,
    pub size_bytes: u64,
    pub install_dir: String,
    pub java_exe: String,
    pub platform_os: String,
    pub platform_arch: String,
    pub source: String,
}

/// The mathematical value of a [`ReleaseInfo`].
pub struct ReleaseInfoModel {
    pub distribution: Seq<char>,
    pub distribution_label: Seq<char>,
    pub major: u32,
    pub kind: Seq<char>,
    pub is_jre: bool,
    pub version: Seq<char>,
    pub build: u32,
    pub java_name: Seq<char>,
    pub url: Seq<char>,
    pub archive_ext: Seq<char>,
    pub size_bytes: u64,
    pub install_dir: Seq<char>,
    pub java_exe: Seq<char>,
    pub platform_os: Seq<char>,
    pub platform_arch: Seq<char>,
    pub source: Seq<char>,
}

impl View for ReleaseInfo {
    type V = ReleaseInfoModel;

    open spec fn view(&self) -> ReleaseInfoModel {
        ReleaseInfoModel {
            distribution: self.distribution@,
            distribution_label: self.distribution_label@,
            major: self.major,
            kind: self.kind@,
            is_jre: self.is_jre,
            version: self.version@,
            build: self.build,
            java_name: self.java_name@,
            url: self.url@,
            archive_ext: self.archive_ext@,
            size_bytes: self.size_bytes,
            install_dir: self.install_dir@,
            java_exe: self.java_exe@,
            platform_os: self.platform_os@,
            platform_arch: self.platform_arch@,
            source: self.source@,
        }
    }
}

/// What the service of a distribution answered, as the manager reads it: the
/// releases that the Adoptium API lists, the releases that Liberica's GitHub
/// page lists, the packages that the Azul metadata lists, or the document of
/// Corretto's latest GitHub release; or the message of a request or a parse that
/// failed. `NotAsked` stands where no service was asked.
#[derive(Debug)]
pub enum ServiceAnswer {
    NotAsked,
    Failed(String),
    Adoptium(Vec<AdoptiumRelease>),
    Liberica(Vec<JsonValue>),
    Zulu(Vec<JsonValue>),
    Corretto(JsonValue),
}

/// The answer comes from the service of the distribution `kind` (or is a failure).
pub open spec fn answer_fits(kind: DistributionKind, answer: ServiceAnswer) -> bool {
    match answer {
        ServiceAnswer::Failed(_) => true,
        ServiceAnswer::Adoptium(_) => kind is Temurin,
        ServiceAnswer::Liberica(_) => kind is Liberica,
        ServiceAnswer::Zulu(_) => kind is Zulu,
        ServiceAnswer::Corretto(_) => kind is Corretto,
        ServiceAnswer::NotAsked => false,
    }
}

/// The release that an answer gives for the request `q`: each service's answer
/// is read by that distribution's reader; a failure passes its message on; no
/// answer gives an empty message.
pub open spec fn spec_read_answer(
    q: ReleaseRequest,
    platform: crate::platform::PlatformModel,
    answer: ServiceAnswer,
) -> Result<(Seq<char>, u32, Seq<char>, Seq<char>, Seq<char>), Seq<char>> {
    let kind = spec_kind_name(q.is_jre);
    match answer {
        ServiceAnswer::NotAsked => Err(Seq::empty()),
        ServiceAnswer::Failed(e) => Err(e@),
        ServiceAnswer::Adoptium(rs) => spec_temurin_release(q.major, kind, platform, rs@),
        ServiceAnswer::Liberica(rs) => spec_liberica_release(q.major, kind, platform, rs@),
        ServiceAnswer::Zulu(pkgs) => spec_zulu_release(q.major, kind, platform, pkgs@),
        ServiceAnswer::Corretto(doc) => spec_corretto_release(q.major, platform, doc),
    }
}

/// Reads the release that `answer` gives for the request `q` on `platform`.
pub fn read_answer(q: &ReleaseRequest, platform: &PlatformInfo, answer: &ServiceAnswer) -> (r: Result<
    Fetched,
    String,
>)
    ensures
        fetched_result_view(r) == spec_read_answer(*q, platform@, *answer),
{
    let kind = if q.is_jre {
        "jre"
    } else {
        "jdk"
    };
    match answer {
        ServiceAnswer::NotAsked => Err(String::new()),
        ServiceAnswer::Failed(e) => Err(e.clone()),
        ServiceAnswer::Adoptium(rs) => temurin_release(q.major, kind, platform, rs),
        ServiceAnswer::Liberica(rs) => liberica_release(q.major, kind, platform, rs),
        ServiceAnswer::Zulu(pkgs) => zulu_release(q.major, kind, platform, pkgs),
        ServiceAnswer::Corretto(doc) => corretto_release(q.major, platform, doc),
    }
}

/// Where the lookup names a service to ask, `answer` comes from that service.
pub open spec fn answer_owed(
    distribution: Seq<char>,
    java_name: Seq<char>,
    platform: crate::platform::PlatformModel,
    answer: ServiceAnswer,
) -> bool {
    match spec_release_request(distribution, java_name, platform) {
        Ok(q) => match spec_release_lookup(q, platform) {
            Ok(ReleaseLookupModel::Ask(_)) => answer_fits(q.distribution, answer),
            _ => true,
        },
        Err(_) => true,
    }
}

/// Whether the manager runs on Windows, by its platform description.
pub open spec fn on_windows(platform: crate::platform::PlatformModel) -> bool {
    platform.os == "windows"@
}

/// The description of a release: the request's checks first, then the lookup
/// (a refusal before asking, the known release, or the reading of the service's
/// answer), then the Java folder; the build is installed in the Java folder
/// under its name, with its `java` program in the `bin` folder.
pub open spec fn spec_build_release_info(
    distribution: Seq<char>,
    java_name: Seq<char>,
    platform: crate::platform::PlatformModel,
    answer: ServiceAnswer,
    appdata: Option<Seq<char>>,
    home: Option<Seq<char>>,
) -> Result<ReleaseInfoModel, Seq<char>> {
    match spec_release_request(distribution, java_name, platform) {
        Err(e) => Err(e),
        Ok(q) => match spec_release_lookup(q, platform) {
            Err(e) => Err(e),
            Ok(lookup) => {
                let fetched = match lookup {
                    ReleaseLookupModel::Known(f) => Ok(f),
                    ReleaseLookupModel::Ask(_) => spec_read_answer(q, platform, answer),
                };
                match fetched {
                    Err(e) => Err(e),
                    Ok((version, build, url, archive_ext, source)) => match spec_java_dir(
                        on_windows(platform),
                        appdata,
                        home,
                    ) {
                        Err(e) => Err(e),
                        Ok(java_dir) => {
                            let (install_dir, java_exe) = spec_install_location(
                                java_dir,
                                java_name,
                                on_windows(platform),
                            );
                            Ok(
                                ReleaseInfoModel {
                                    distribution,
                                    distribution_label: spec_distribution_label(distribution),
                                    major: q.major,
                                    kind: spec_kind_name(q.is_jre),
                                    is_jre: q.is_jre,
                                    version,
                                    build,
                                    java_name,
                                    url,
                                    archive_ext,
                                    size_bytes: 0,
                                    install_dir,
                                    java_exe,
                                    platform_os: platform.os,
                                    platform_arch: platform.arch,
                                    source,
                                },
                            )
                        },
                    },
                }
            },
        },
    }
}

/// Law: a release description, whichever distribution it comes from, names the
/// platform's archive format: zip on Windows, gzip-compressed tar elsewhere.
pub proof fn lemma_release_archive_ext(
    distribution: Seq<char>,
    java_name: Seq<char>,
    platform: crate::platform::PlatformModel,
    answer: ServiceAnswer,
    appdata: Option<Seq<char>>,
    home: Option<Seq<char>>,
)
    ensures
        spec_build_release_info(distribution, java_name, platform, answer, appdata, home) matches Ok(info)
            ==> info.archive_ext == archive_ext_for(platform.os),
{
    if let Ok(q) = spec_release_request(distribution, java_name, platform) {
        let kind = spec_kind_name(q.is_jre);
        let empty_releases: Seq<AdoptiumRelease> = Seq::empty();
        let empty_items: Seq<JsonValue> = Seq::empty();
        match answer {
            ServiceAnswer::Adoptium(rs) => lemma_lookups_use_platform_archive(q.major, kind, platform, rs@, empty_items, JsonValue::Null),
            ServiceAnswer::Liberica(v) => lemma_lookups_use_platform_archive(q.major, kind, platform, empty_releases, v@, JsonValue::Null),
            ServiceAnswer::Zulu(v) => lemma_lookups_use_platform_archive(q.major, kind, platform, empty_releases, v@, JsonValue::Null),
            ServiceAnswer::Corretto(d) => lemma_lookups_use_platform_archive(q.major, kind, platform, empty_releases, empty_items, d),
            _ => lemma_lookups_use_platform_archive(q.major, kind, platform, empty_releases, empty_items, JsonValue::Null),
        }
    }
}

/// The key under which a release description is remembered: the distribution
/// and the build name, joined by `|`.
pub fn release_cache_key(distribution: &str, java_name: &str) -> (r: String)
    ensures
        r@ == distribution@ + "|"@ + java_name@,
{
    owned(distribution).concat("|").concat(java_name)
}

/// Describes the release of `java_name` from `distribution` on `platform`.
/// `answer` is what the service that [`release_lookup`] names answered (when it
/// names one); `appdata` and `home` are the folders that locate the Java folder.
pub fn build_release_info(
    distribution: &str,
    java_name: &str,
    platform: &PlatformInfo,
    answer: &ServiceAnswer,
    appdata: Option<&str>,
    home: Option<&str>,
) -> (r: Result<ReleaseInfo, String>)
    requires
        answer_owed(distribution@, java_name@, platform@, *answer),
    ensures
        r matches Ok(info) ==> spec_build_release_info(
            distribution@,
            java_name@,
            platform@,
            *answer,
            opt_view(appdata),
            opt_view(home),
        ) == Ok::<ReleaseInfoModel, Seq<char>>(info@),
        r matches Err(e) ==> spec_build_release_info(
            distribution@,
            java_name@,
            platform@,
            *answer,
            opt_view(appdata),
            opt_view(home),
        ) == Err::<ReleaseInfoModel, Seq<char>>(e@),
{
    let q = release_request(distribution, java_name, platform)?;
    let lookup = release_lookup(&q, platform)?;
    let (version, build, url, archive_ext, source) = match lookup {
        ReleaseLookup::Known(f) => f,
        ReleaseLookup::Ask(_) => read_answer(&q, platform, answer)?,
    };
    let windows = str_eq(platform.os.as_str(), "windows");
    let java_dir = get_java_dir(windows, appdata, home)?;
    let (install_dir, java_exe) = install_location(java_dir.as_str(), java_name, windows);
    let kind = if q.is_jre {
        owned("jre")
    } else {
        owned("jdk")
    };
    Ok(
        ReleaseInfo {
            distribution: owned(distribution),
            distribution_label: distribution_label(distribution),
            major: q.major,
            kind,
            is_jre: q.is_jre,
            version,
            build,
            java_name: owned(java_name),
            url,
            archive_ext,
            size_bytes: 0,
            install_dir,
            java_exe,
            platform_os: platform.os.clone(),
            platform_arch: platform.arch.clone(),
            source,
        },
    )
}

} // verus!
