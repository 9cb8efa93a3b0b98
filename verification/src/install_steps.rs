//! The course of installing a downloaded Java build: after each piece of work
//! the application reports what happened, and the next step says which progress
//! to report, what to clean up, and whether the install failed or succeeded.

use vstd::prelude::*;
use crate::text::owned;

verus! {

/// Where an install stands: the work the application does next.
#[derive(Clone, Copy, Debug)]
pub enum InstallStage {
    /// Download the archive.
    Download,
    /// Create the unpacking folder; `received` bytes were downloaded.
    MakeExtractDir { received: u64 },
    /// Unpack the archive into the unpacking folder.
    Extract { received: u64 },
    /// Copy the unpacked build into the install folder.
    Layout { received: u64 },
    /// Look for the `java` program.
    LocateJava { received: u64 },
    /// Nothing is left to do.
    Finished,
}

/// What the work of a stage came to.
#[derive(Debug)]
pub enum InstallEvent {
    /// The download: the bytes received, or why it failed.
    Downloaded(Result<u64, String>),
    /// Creating the unpacking folder.
    ExtractDirMade(Result<(), String>),
    /// Unpacking the archive.
    Extracted(Result<(), String>),
    /// Copying into the install folder.
    LaidOut(Result<(), String>),
    /// Whether the `java` program is where the release says; if not, where a
    /// search of the install folder found one, if anywhere.
    JavaLocated { at_expected_place: bool, found: Option<String> },
}

/// A piece of work for the application, in the order given.
#[derive(Debug)]
pub enum InstallAction {
    /// Report progress in the given phase.
    Report { received: u64, total: u64, phase: String },
    RemoveArchive,
    RemoveExtractDir,
    RemoveInstallDir,
    RemoveTempDir,
    /// Make the `java` program executable.
    MakeExecutable,
    /// The install fails with this message.
    Fail(String),
    /// The install succeeded; its `java` program is at this path.
    Succeed(String),
}

/// The mathematical value of an [`InstallAction`].
pub enum InstallActionModel {
    Report { received: u64, total: u64, phase: Seq<char> },
    RemoveArchive,
    RemoveExtractDir,
    RemoveInstallDir,
    RemoveTempDir,
    MakeExecutable,
    Fail(Seq<char>),
    Succeed(Seq<char>),
}

impl View for InstallAction {
    type V = InstallActionModel;

    open spec fn view(&self) -> InstallActionModel {
        match self {
            InstallAction::Report { received, total, phase } => InstallActionModel::Report {
                received: *received,
                total: *total,
                phase: phase@,
            },
            InstallAction::RemoveArchive => InstallActionModel::RemoveArchive,
            InstallAction::RemoveExtractDir => InstallActionModel::RemoveExtractDir,
            InstallAction::RemoveInstallDir => InstallActionModel::RemoveInstallDir,
            InstallAction::RemoveTempDir => InstallActionModel::RemoveTempDir,
            InstallAction::MakeExecutable => InstallActionModel::MakeExecutable,
            InstallAction::Fail(e) => InstallActionModel::Fail(e@),
            InstallAction::Succeed(p) => InstallActionModel::Succeed(p@),
        }
    }
}

/// The actions as mathematical values.
pub open spec fn actions_view(v: Seq<InstallAction>) -> Seq<InstallActionModel> {
    v.map_values(|a: InstallAction| a@)
}

/// The event reports the work that `stage` asks for.
pub open spec fn event_fits(stage: InstallStage, event: InstallEvent) -> bool {
    match stage {
        InstallStage::Download => event is Downloaded,
        InstallStage::MakeExtractDir { .. } => event is ExtractDirMade,
        InstallStage::Extract { .. } => event is Extracted,
        InstallStage::Layout { .. } => event is LaidOut,
        InstallStage::LocateJava { .. } => event is JavaLocated,
        InstallStage::Finished => false,
    }
}

/// The bytes downloaded so far, as the stage records them.
pub open spec fn stage_received(stage: InstallStage) -> u64 {
    match stage {
        InstallStage::MakeExtractDir { received } => received,
        InstallStage::Extract { received } => received,
        InstallStage::Layout { received } => received,
        InstallStage::LocateJava { received } => received,
        _ => 0,
    }
}

/// How an install begins: report the download at zero bytes, then download.
pub open spec fn spec_install_start() -> (InstallStage, Seq<InstallActionModel>) {
    (
        InstallStage::Download,
        seq![InstallActionModel::Report { received: 0, total: 0, phase: "downloading"@ }],
    )
}

/// The next stage and the actions after `event`, for the release downloaded
/// from `url` and installed in `install_dir` with its `java` program expected at
/// `java_exe`:
/// - a failed download removes the partial archive and fails with
///   `Failed to download URL: ERROR`; a finished one reports the extracting
///   phase (received of received bytes);
/// - a failure to create the unpacking folder removes the archive and fails with
///   `Failed to create extract dir: ERROR`;
/// - unpacking always removes the archive; a failure also removes the unpacking
///   folder and fails with its message;
/// - a failed copy removes the unpacking folder and the install folder and
///   fails with its message; a finished one removes the unpacking folder;
/// - a `java` program where expected is made executable, the done phase is
///   reported, the temporary folder removed, and the install succeeds; one found
///   elsewhere makes the install succeed at once; none removes the install
///   folder and fails with `Extraction succeeded but java binary not found in DIR`.
pub open spec fn spec_install_step(
    stage: InstallStage,
    event: InstallEvent,
    url: Seq<char>,
    install_dir: Seq<char>,
    java_exe: Seq<char>,
) -> (InstallStage, Seq<InstallActionModel>) {
    let n = stage_received(stage);
    match event {
        InstallEvent::Downloaded(Err(e)) => (
            InstallStage::Finished,
            seq![
                InstallActionModel::RemoveArchive,
                InstallActionModel::Fail("Failed to download "@ + url + ": "@ + e@),
            ],
        ),
        InstallEvent::Downloaded(Ok(received)) => (
            InstallStage::MakeExtractDir { received },
            seq![InstallActionModel::Report { received, total: received, phase: "extracting"@ }],
        ),
        InstallEvent::ExtractDirMade(Err(e)) => (
            InstallStage::Finished,
            seq![
                InstallActionModel::RemoveArchive,
                InstallActionModel::Fail("Failed to create extract dir: "@ + e@),
            ],
        ),
        InstallEvent::ExtractDirMade(Ok(())) => (InstallStage::Extract { received: n }, seq![]),
        InstallEvent::Extracted(Err(e)) => (
            InstallStage::Finished,
            seq![
                InstallActionModel::RemoveArchive,
                InstallActionModel::RemoveExtractDir,
                InstallActionModel::Fail(e@),
            ],
        ),
        InstallEvent::Extracted(Ok(())) => (
            InstallStage::Layout { received: n },
            seq![InstallActionModel::RemoveArchive],
        ),
        InstallEvent::LaidOut(Err(e)) => (
            InstallStage::Finished,
            seq![
                InstallActionModel::RemoveExtractDir,
                InstallActionModel::RemoveInstallDir,
                InstallActionModel::Fail(e@),
            ],
        ),
        InstallEvent::LaidOut(Ok(())) => (
            InstallStage::LocateJava { received: n },
            seq![InstallActionModel::RemoveExtractDir],
        ),
        InstallEvent::JavaLocated { at_expected_place, found } => (
            InstallStage::Finished,
            if at_expected_place {
                seq![
                    InstallActionModel::MakeExecutable,
                    InstallActionModel::Report { received: n, total: n, phase: "done"@ },
                    InstallActionModel::RemoveTempDir,
                    InstallActionModel::Succeed(java_exe),
                ]
            } else {
                match found {
                    Some(p) => seq![InstallActionModel::Succeed(p@)],
                    None => seq![
                        InstallActionModel::RemoveInstallDir,
                        InstallActionModel::Fail(
                            "Extraction succeeded but java binary not found in "@ + install_dir,
                        ),
                    ],
                }
            },
        ),
    }
}

/// The action ends the install.
pub open spec fn is_outcome(a: InstallActionModel) -> bool {
    a is Fail || a is Succeed
}

/// Law: a step ends the install exactly when it finishes, and then with one
/// outcome, its last action; no other action ends it.
pub proof fn lemma_install_step_outcome(
    stage: InstallStage,
    event: InstallEvent,
    url: Seq<char>,
    install_dir: Seq<char>,
    java_exe: Seq<char>,
)
    requires
        event_fits(stage, event),
    ensures
        ({
            let (next, actions) = spec_install_step(stage, event, url, install_dir, java_exe);
            &&& (next is Finished) <==> (actions.len() > 0 && is_outcome(actions.last()))
            &&& forall|i: int| 0 <= i < actions.len() - 1 ==> !is_outcome(#[trigger] actions[i])
        }),
{
}

/// The first stage of an install and the actions before it.
pub fn install_start() -> (r: (InstallStage, Vec<InstallAction>))
    ensures
        (r.0, actions_view(r.1@)) == spec_install_start(),
{
    let mut v: Vec<InstallAction> = Vec::new();
    v.push(InstallAction::Report { received: 0, total: 0, phase: owned("downloading") });
    assert(actions_view(v@) =~= spec_install_start().1);
    (InstallStage::Download, v)
}

/// The step of an install after `event` (see [`spec_install_step`]).
pub fn install_step(
    stage: InstallStage,
    event: &InstallEvent,
    url: &str,
    install_dir: &str,
    java_exe: &str,
) -> (r: (InstallStage, Vec<InstallAction>))
    requires
        event_fits(stage, *event),
    ensures
        r.0 == spec_install_step(stage, *event, url@, install_dir@, java_exe@).0,
        actions_view(r.1@) == spec_install_step(stage, *event, url@, install_dir@, java_exe@).1,
{
    let n: u64 = match stage {
        InstallStage::MakeExtractDir { received } => received,
        InstallStage::Extract { received } => received,
        InstallStage::Layout { received } => received,
        InstallStage::LocateJava { received } => received,
        _ => 0,
    };
    let mut v: Vec<InstallAction> = Vec::new();
    let next = match event {
        InstallEvent::Downloaded(Err(e)) => {
            v.push(InstallAction::RemoveArchive);
            v.push(
                InstallAction::Fail(
                    owned("Failed to download ").concat(url).concat(": ").concat(e.as_str()),
                ),
            );
            InstallStage::Finished
        },
        InstallEvent::Downloaded(Ok(received)) => {
            v.push(
                InstallAction::Report {
                    received: *received,
                    total: *received,
                    phase: owned("extracting"),
                },
            );
            InstallStage::MakeExtractDir { received: *received }
        },
        InstallEvent::ExtractDirMade(Err(e)) => {
            v.push(InstallAction::RemoveArchive);
            v.push(
                InstallAction::Fail(owned("Failed to create extract dir: ").concat(e.as_str())),
            );
            InstallStage::Finished
        },
        InstallEvent::ExtractDirMade(Ok(())) => InstallStage::Extract { received: n },
        InstallEvent::Extracted(Err(e)) => {
            v.push(InstallAction::RemoveArchive);
            v.push(InstallAction::RemoveExtractDir);
            v.push(InstallAction::Fail(e.clone()));
            InstallStage::Finished
        },
        InstallEvent::Extracted(Ok(())) => {
            v.push(InstallAction::RemoveArchive);
            InstallStage::Layout { received: n }
        },
        InstallEvent::LaidOut(Err(e)) => {
            v.push(InstallAction::RemoveExtractDir);
            v.push(InstallAction::RemoveInstallDir);
            v.push(InstallAction::Fail(e.clone()));
            InstallStage::Finished
        },
        InstallEvent::LaidOut(Ok(())) => {
            v.push(InstallAction::RemoveExtractDir);
            InstallStage::LocateJava { received: n }
        },
        InstallEvent::JavaLocated { at_expected_place, found } => {
            if *at_expected_place {
                v.push(InstallAction::MakeExecutable);
                v.push(InstallAction::Report { received: n, total: n, phase: owned("done") });
                v.push(InstallAction::RemoveTempDir);
                v.push(InstallAction::Succeed(owned(java_exe)));
            } else {
                match found {
                    Some(p) => {
                        v.push(InstallAction::Succeed(p.clone()));
                    },
                    None => {
                        v.push(InstallAction::RemoveInstallDir);
                        v.push(
                            InstallAction::Fail(
                                owned("Extraction succeeded but java binary not found in ").concat(
                                    install_dir,
                                ),
                            ),
                        );
                    },
                }
            }
            InstallStage::Finished
        },
    };
    assert(actions_view(v@) =~= spec_install_step(stage, *event, url@, install_dir@, java_exe@).1);
    (next, v)
}

} // verus!
