//! The course of an update: what is fetched, what is asked, what is checked, and
//! when the program is replaced.

use vstd::prelude::*;
use vstd::string::*;

use crate::bytes::copy_bytes;
use crate::text;
use crate::update;
use crate::update::{
    archive_is_sound, archive_name, checksum_for, find_asset, list_of, newer_release,
    releases_url, rustc_target, should_update, Asset, Consent, Release, UpdateProblem, Version,
};

verus! {

/// Why an update does not go through.
#[derive(Debug, Clone, Copy, PartialEq, Eq, Structural)]
pub enum UpdateFailure {
    /// No release has a version.
    NoRelease,
    /// The version of this program is not a version.
    CurrentVersion,
    /// There is nobody to ask.
    NotTerminal,
    /// There are no builds for this system and processor.
    NoTarget,
    /// The release has no build for this system and processor.
    NoBuild,
    /// The archive does not have the checksum that is listed for it.
    ChecksumMismatch,
    /// The archive could not be extracted.
    NotExtracted,
    /// The archive does not hold the program.
    NoProgram,
    /// Something that was to be done could not be.
    StepFailed,
    /// Something happened that was not waited for.
    OutOfTurn,
}

// ---- which release, and which of its files ----

/// The place of the latest release.
pub open spec fn latest_place(releases: Seq<Release>) -> int {
    choose|at: int| #[trigger] update::is_latest(releases, at)
}

/// The version with these numbers.
pub open spec fn version_of(n: (nat, nat, nat)) -> Version {
    Version(n.0 as u32, n.1 as u32, n.2 as u32)
}

/// The version and the place of the release to update to, or nothing where this
/// program is up to date.
pub open spec fn offered(current: Seq<char>, releases: Seq<Release>) -> Result<
    Option<(Version, int)>,
    UpdateFailure,
> {
    if !(exists|i: int| 0 <= i < releases.len() && update::is_candidate(#[trigger] releases[i])) {
        Err(UpdateFailure::NoRelease)
    } else {
        let at = latest_place(releases);
        let latest = update::version_in(releases[at].tag_name@)->0;
        match update::version_in(current) {
            None => Err(UpdateFailure::CurrentVersion),
            Some(here) => if update::older_numbers(here, latest) {
                Ok(Some((version_of(latest), at)))
            } else {
                Ok(None)
            },
        }
    }
}

/// Finds the release to update to.
fn offer(current: &str, releases: &Vec<Release>) -> (r: Result<
    Option<(Version, usize)>,
    UpdateFailure,
>)
    ensures
        match r {
            Ok(Some(found)) => offered(current@, releases@) == Ok::<
                Option<(Version, int)>,
                UpdateFailure,
            >(Some((found.0, found.1 as int))) && found.1 < releases@.len(),
            Ok(None) => offered(current@, releases@) == Ok::<
                Option<(Version, int)>,
                UpdateFailure,
            >(None),
            Err(e) => offered(current@, releases@) == Err::<
                Option<(Version, int)>,
                UpdateFailure,
            >(e),
        },
{
    let found = newer_release(current, releases);
    proof {
        if found is Ok {
            let at = choose|at: int| #[trigger] update::is_latest(releases@, at);
            assert(update::is_candidate(releases@[at]));
            assert forall|i: int| #[trigger] update::is_latest(releases@, i) implies i == at by {
                update::latest_release_is_unique(releases@, i, at);
            }
        }
    }
    match found {
        Ok(newer) => Ok(newer),
        Err(UpdateProblem::NoRelease) => Err(UpdateFailure::NoRelease),
        Err(UpdateProblem::CurrentVersion) => Err(UpdateFailure::CurrentVersion),
    }
}

/// Where the first file with a name is.
pub open spec fn url_of(assets: Seq<Asset>, name: Seq<char>) -> Option<Seq<char>> {
    if update::asset_place(assets, name) < assets.len() {
        Some(assets[update::asset_place(assets, name) as int].browser_download_url@)
    } else {
        None
    }
}

/// What is downloaded.
#[derive(Debug)]
struct Plan {
    version: Version,
    archive: String,
    sums_url: Option<String>,
}

/// What is downloaded.
pub struct PlanView {
    pub version: Version,
    /// The name of the archive.
    pub archive: Seq<char>,
    /// Where the list of checksums is, if there is one.
    pub sums_url: Option<Seq<char>>,
}

impl Plan {
    closed spec fn view(&self) -> PlanView {
        PlanView {
            version: self.version,
            archive: self.archive@,
            sums_url: match self.sums_url {
                Some(url) => Some(url@),
                None => None,
            },
        }
    }
}

/// What is downloaded for a system and a processor, and where the archive is.
pub open spec fn plan_for(
    version: Version,
    release: Release,
    os: Seq<char>,
    arch: Seq<char>,
) -> Result<(PlanView, Seq<char>), UpdateFailure> {
    match update::target_for(os, arch) {
        None => Err(UpdateFailure::NoTarget),
        Some(target) => {
            let archive = update::archive_text(target);
            match url_of(release.assets@, archive) {
                None => Err(UpdateFailure::NoBuild),
                Some(url) => Ok(
                    (
                        PlanView {
                            version,
                            archive,
                            sums_url: url_of(release.assets@, "SHA256SUMS"@),
                        },
                        url,
                    ),
                ),
            }
        },
    }
}

fn make_plan(version: Version, release: &Release, os: &str, arch: &str) -> (r: Result<
    (Plan, String),
    UpdateFailure,
>)
    ensures
        match r {
            Ok((plan, url)) => plan_for(version, *release, os@, arch@) == Ok::<
                (PlanView, Seq<char>),
                UpdateFailure,
            >((plan.view(), url@)),
            Err(e) => plan_for(version, *release, os@, arch@) == Err::<
                (PlanView, Seq<char>),
                UpdateFailure,
            >(e),
        },
{
    let target = match rustc_target(os, arch) {
        Some(target) => target,
        None => {
            return Err(UpdateFailure::NoTarget);
        },
    };
    let archive = archive_name(target);
    let url = match find_asset(release, archive.as_str()) {
        Some(asset) => asset.browser_download_url.clone(),
        None => {
            return Err(UpdateFailure::NoBuild);
        },
    };
    let sums_url = match find_asset(release, "SHA256SUMS") {
        Some(asset) => Some(asset.browser_download_url.clone()),
        None => None,
    };
    Ok((Plan { version, archive, sums_url }, url))
}

// ---- the course of an update ----

/// What became of extracting an archive.
#[derive(Debug, Clone, Copy, PartialEq, Eq, Structural)]
pub enum Extraction {
    Failed,
    /// The archive was extracted, but does not hold the program.
    NoProgram,
    Ready,
}

/// What happens in the course of an update.
#[derive(Debug)]
pub enum UpdateEvent {
    /// The releases were fetched.
    Releases(Vec<Release>),
    /// The line that was typed; empty where nobody was asked.
    Answered(String),
    /// The archive was downloaded.
    Downloaded,
    /// The list of checksums was fetched.
    Sums(Vec<u8>),
    /// The archive was read.
    ArchiveRead(Vec<u8>),
    Extracted(Extraction),
    /// The program was replaced.
    Replaced,
    /// Whether the daemon runs.
    Daemon(bool),
    Restarted,
    /// What was to be done could not be.
    Failed,
}

/// What happens in the course of an update.
pub enum UpdateEventView {
    Releases(Seq<Release>),
    Answered(Seq<char>),
    Downloaded,
    Sums(Seq<u8>),
    ArchiveRead(Seq<u8>),
    Extracted(Extraction),
    Replaced,
    Daemon(bool),
    Restarted,
    Failed,
}

/// What is to be done in the course of an update.
#[derive(Debug)]
pub enum UpdateAction {
    /// Fetch the list of releases from here.
    FetchReleases(String),
    /// Say that this program is up to date. That is all.
    UpToDate,
    /// Show the version to update to, and ask whether to, if so said.
    Show { version: Version, ask: bool },
    /// The update was declined. That is all.
    Declined,
    /// Download the archive with this name from here.
    Download { url: String, archive: String },
    /// Fetch the list of checksums from here.
    FetchSums(String),
    /// Read the archive with this name.
    ReadArchive(String),
    /// Extract the archive with this name.
    Extract(String),
    /// Put the extracted program in the place of this one.
    Replace,
    /// Find out whether the daemon runs.
    LookForDaemon,
    /// Restart the daemon.
    Restart,
    /// Say that this version was installed. That is all.
    Installed(Version),
    Fail(UpdateFailure),
}

/// What is to be done in the course of an update.
pub enum UpdateActionView {
    FetchReleases(Seq<char>),
    UpToDate,
    Show { version: Version, ask: bool },
    Declined,
    Download { url: Seq<char>, archive: Seq<char> },
    FetchSums(Seq<char>),
    ReadArchive(Seq<char>),
    Extract(Seq<char>),
    Replace,
    LookForDaemon,
    Restart,
    Installed(Version),
    Fail(UpdateFailure),
}

impl UpdateEvent {
    pub open spec fn view(&self) -> UpdateEventView {
        match *self {
            UpdateEvent::Releases(releases) => UpdateEventView::Releases(releases@),
            UpdateEvent::Answered(line) => UpdateEventView::Answered(line@),
            UpdateEvent::Downloaded => UpdateEventView::Downloaded,
            UpdateEvent::Sums(bytes) => UpdateEventView::Sums(bytes@),
            UpdateEvent::ArchiveRead(bytes) => UpdateEventView::ArchiveRead(bytes@),
            UpdateEvent::Extracted(e) => UpdateEventView::Extracted(e),
            UpdateEvent::Replaced => UpdateEventView::Replaced,
            UpdateEvent::Daemon(running) => UpdateEventView::Daemon(running),
            UpdateEvent::Restarted => UpdateEventView::Restarted,
            UpdateEvent::Failed => UpdateEventView::Failed,
        }
    }
}

impl UpdateAction {
    pub open spec fn view(&self) -> UpdateActionView {
        match *self {
            UpdateAction::FetchReleases(url) => UpdateActionView::FetchReleases(url@),
            UpdateAction::UpToDate => UpdateActionView::UpToDate,
            UpdateAction::Show { version, ask } => UpdateActionView::Show { version, ask },
            UpdateAction::Declined => UpdateActionView::Declined,
            UpdateAction::Download { url, archive } => UpdateActionView::Download {
                url: url@,
                archive: archive@,
            },
            UpdateAction::FetchSums(url) => UpdateActionView::FetchSums(url@),
            UpdateAction::ReadArchive(archive) => UpdateActionView::ReadArchive(archive@),
            UpdateAction::Extract(archive) => UpdateActionView::Extract(archive@),
            UpdateAction::Replace => UpdateActionView::Replace,
            UpdateAction::LookForDaemon => UpdateActionView::LookForDaemon,
            UpdateAction::Restart => UpdateActionView::Restart,
            UpdateAction::Installed(version) => UpdateActionView::Installed(version),
            UpdateAction::Fail(failure) => UpdateActionView::Fail(failure),
        }
    }
}

/// How far an update has come.
#[derive(Debug)]
enum UpdateStage {
    Checking,
    Asking(Version, Release),
    Downloading(Plan),
    Summing(Plan),
    Reading(Plan, Vec<u8>),
    Extracting(Plan),
    Replacing(Version),
    Looking(Version),
    Restarting(Version),
    Over,
}

/// How far an update has come.
pub enum UpdateStageView {
    /// The releases are being fetched.
    Checking,
    /// It is asked whether to update to this version, which this release has.
    Asking(Version, Release),
    /// The archive is being downloaded.
    Downloading(PlanView),
    /// The list of checksums is being fetched.
    Summing(PlanView),
    /// The archive is being read, to check it against this list.
    Reading(PlanView, Seq<u8>),
    Extracting(PlanView),
    Replacing(Version),
    /// It is being found out whether the daemon runs.
    Looking(Version),
    Restarting(Version),
    Over,
}

impl UpdateStage {
    closed spec fn view(&self) -> UpdateStageView {
        match *self {
            UpdateStage::Checking => UpdateStageView::Checking,
            UpdateStage::Asking(version, release) => UpdateStageView::Asking(version, release),
            UpdateStage::Downloading(plan) => UpdateStageView::Downloading(plan.view()),
            UpdateStage::Summing(plan) => UpdateStageView::Summing(plan.view()),
            UpdateStage::Reading(plan, sums) => UpdateStageView::Reading(plan.view(), sums@),
            UpdateStage::Extracting(plan) => UpdateStageView::Extracting(plan.view()),
            UpdateStage::Replacing(version) => UpdateStageView::Replacing(version),
            UpdateStage::Looking(version) => UpdateStageView::Looking(version),
            UpdateStage::Restarting(version) => UpdateStageView::Restarting(version),
            UpdateStage::Over => UpdateStageView::Over,
        }
    }
}

/// An update of this program.
#[derive(Debug)]
pub struct Updating {
    current: String,
    os: String,
    arch: String,
    yes: bool,
    terminal: bool,
    stage: UpdateStage,
}

/// An update of this program.
pub struct UpdatingView {
    /// The version of this program.
    pub current: Seq<char>,
    pub os: Seq<char>,
    pub arch: Seq<char>,
    /// Whether the command line agrees to the update.
    pub yes: bool,
    /// Whether there is somebody to ask.
    pub terminal: bool,
    pub stage: UpdateStageView,
}

impl UpdatingView {
    /// The update goes on at another stage.
    pub open spec fn at(self, stage: UpdateStageView, action: UpdateActionView) -> (
        UpdatingView,
        UpdateActionView,
    ) {
        (UpdatingView { stage, ..self }, action)
    }

    /// The update ends.
    pub open spec fn ended(self, action: UpdateActionView) -> (UpdatingView, UpdateActionView) {
        self.at(UpdateStageView::Over, action)
    }

    /// The update fails.
    pub open spec fn failed(self, failure: UpdateFailure) -> (UpdatingView, UpdateActionView) {
        self.ended(UpdateActionView::Fail(failure))
    }

    /// The archive is extracted.
    pub open spec fn extracting(self, plan: PlanView) -> (UpdatingView, UpdateActionView) {
        self.at(UpdateStageView::Extracting(plan), UpdateActionView::Extract(plan.archive))
    }

    /// How the update goes on once the releases are known.
    pub open spec fn with_releases(self, releases: Seq<Release>) -> (
        UpdatingView,
        UpdateActionView,
    ) {
        match offered(self.current, releases) {
            Err(failure) => self.failed(failure),
            Ok(None) => self.ended(UpdateActionView::UpToDate),
            Ok(Some((version, at))) => self.at(
                UpdateStageView::Asking(version, releases[at]),
                UpdateActionView::Show { version, ask: !self.yes && self.terminal },
            ),
        }
    }

    /// How the update goes on with an answer.
    pub open spec fn with_answer(self, version: Version, release: Release, line: Seq<char>) -> (
        UpdatingView,
        UpdateActionView,
    ) {
        match update::consent_to(self.yes, self.terminal, line) {
            Consent::NotTerminal => self.failed(UpdateFailure::NotTerminal),
            Consent::Refused => self.ended(UpdateActionView::Declined),
            Consent::Given => match plan_for(version, release, self.os, self.arch) {
                Err(failure) => self.failed(failure),
                Ok((plan, url)) => self.at(
                    UpdateStageView::Downloading(plan),
                    UpdateActionView::Download { url, archive: plan.archive },
                ),
            },
        }
    }

    /// How the update goes on.
    pub open spec fn next(self, event: UpdateEventView) -> (UpdatingView, UpdateActionView) {
        match (self.stage, event) {
            (UpdateStageView::Checking, UpdateEventView::Releases(releases)) =>
                self.with_releases(releases),
            (UpdateStageView::Asking(version, release), UpdateEventView::Answered(line)) =>
                self.with_answer(version, release, line),
            (UpdateStageView::Downloading(plan), UpdateEventView::Downloaded) => match plan.sums_url {
                Some(url) => self.at(
                    UpdateStageView::Summing(plan),
                    UpdateActionView::FetchSums(url),
                ),
                None => self.extracting(plan),
            },
            (UpdateStageView::Summing(plan), UpdateEventView::Sums(sums)) => if is_listed(
                sums,
                plan.archive,
            ) {
                self.at(
                    UpdateStageView::Reading(plan, sums),
                    UpdateActionView::ReadArchive(plan.archive),
                )
            } else {
                self.extracting(plan)
            },
            (UpdateStageView::Reading(plan, sums), UpdateEventView::ArchiveRead(archive)) =>
                if update::may_be_installed(Some(sums), plan.archive, archive) {
                self.extracting(plan)
            } else {
                self.failed(UpdateFailure::ChecksumMismatch)
            },
            (UpdateStageView::Extracting(plan), UpdateEventView::Extracted(e)) => match e {
                Extraction::Failed => self.failed(UpdateFailure::NotExtracted),
                Extraction::NoProgram => self.failed(UpdateFailure::NoProgram),
                Extraction::Ready => self.at(
                    UpdateStageView::Replacing(plan.version),
                    UpdateActionView::Replace,
                ),
            },
            (UpdateStageView::Replacing(version), UpdateEventView::Replaced) => self.at(
                UpdateStageView::Looking(version),
                UpdateActionView::LookForDaemon,
            ),
            (UpdateStageView::Looking(version), UpdateEventView::Daemon(running)) => if running {
                self.at(UpdateStageView::Restarting(version), UpdateActionView::Restart)
            } else {
                self.ended(UpdateActionView::Installed(version))
            },
            (UpdateStageView::Restarting(version), UpdateEventView::Restarted) => self.ended(
                UpdateActionView::Installed(version),
            ),
            (UpdateStageView::Restarting(version), UpdateEventView::Failed) => self.ended(
                UpdateActionView::Installed(version),
            ),
            (UpdateStageView::Over, _) => self.failed(UpdateFailure::OutOfTurn),
            (_, UpdateEventView::Failed) => self.failed(UpdateFailure::StepFailed),
            _ => self.failed(UpdateFailure::OutOfTurn),
        }
    }
}

/// Whether a downloaded list has a checksum for an archive.
pub open spec fn is_listed(sums: Seq<u8>, archive: Seq<char>) -> bool {
    update::checksum_in(text::lines(update::list_text(sums)), archive) is Some
}

fn listed(sums: &Vec<u8>, archive: &str) -> (r: bool)
    ensures
        r == is_listed(sums@, archive@),
{
    let list = list_of(copy_bytes(sums.as_slice()));
    checksum_for(list.as_str(), archive).is_some()
}

impl Updating {
    pub closed spec fn view(&self) -> UpdatingView {
        UpdatingView {
            current: self.current@,
            os: self.os@,
            arch: self.arch@,
            yes: self.yes,
            terminal: self.terminal,
            stage: self.stage.view(),
        }
    }

    /// Starts an update of a program with this version, on this system and
    /// processor: first the list of releases is fetched.
    pub fn start(current: &str, os: &str, arch: &str, yes: bool, terminal: bool) -> (r: (
        Self,
        UpdateAction,
    ))
        ensures
            r.0.view() == (UpdatingView {
                current: current@,
                os: os@,
                arch: arch@,
                yes,
                terminal,
                stage: UpdateStageView::Checking,
            }),
            r.1.view() == UpdateActionView::FetchReleases(update::releases_text()),
    {
        let updating = Updating {
            current: current.to_string(),
            os: os.to_string(),
            arch: arch.to_string(),
            yes,
            terminal,
            stage: UpdateStage::Checking,
        };
        (updating, UpdateAction::FetchReleases(releases_url()))
    }

    fn extract(&mut self, plan: Plan) -> (r: UpdateAction)
        ensures
            (final(self).view(), r.view()) == old(self).view().extracting(plan.view()),
    {
        let archive = plan.archive.clone();
        self.stage = UpdateStage::Extracting(plan);
        UpdateAction::Extract(archive)
    }

    fn take_releases(&mut self, releases: Vec<Release>) -> (r: UpdateAction)
        requires
            old(self).view().stage is Over,
        ensures
            (final(self).view(), r.view()) == old(self).view().with_releases(releases@),
    {
        match offer(self.current.as_str(), &releases) {
            Err(failure) => UpdateAction::Fail(failure),
            Ok(None) => UpdateAction::UpToDate,
            Ok(Some((version, at))) => {
                let mut releases = releases;
                let release = releases.remove(at);
                self.stage = UpdateStage::Asking(version, release);
                UpdateAction::Show { version, ask: !self.yes && self.terminal }
            },
        }
    }

    fn take_answer(&mut self, version: Version, release: Release, line: String) -> (r: UpdateAction)
        requires
            old(self).view().stage is Over,
        ensures
            (final(self).view(), r.view()) == old(self).view().with_answer(
                version,
                release,
                line@,
            ),
    {
        match should_update(self.yes, self.terminal, line.as_str()) {
            Consent::NotTerminal => UpdateAction::Fail(UpdateFailure::NotTerminal),
            Consent::Refused => UpdateAction::Declined,
            Consent::Given => match make_plan(
                version,
                &release,
                self.os.as_str(),
                self.arch.as_str(),
            ) {
                Err(failure) => UpdateAction::Fail(failure),
                Ok((plan, url)) => {
                    let archive = plan.archive.clone();
                    self.stage = UpdateStage::Downloading(plan);
                    UpdateAction::Download { url, archive }
                },
            },
        }
    }

    /// Decides how the update goes on.
    pub fn next(&mut self, event: UpdateEvent) -> (r: UpdateAction)
        ensures
            (final(self).view(), r.view()) == old(self).view().next(event.view()),
    {
        let mut stage = UpdateStage::Over;
        std::mem::swap(&mut stage, &mut self.stage);
        match (stage, event) {
            (UpdateStage::Checking, UpdateEvent::Releases(releases)) => self.take_releases(
                releases,
            ),
            (UpdateStage::Asking(version, release), UpdateEvent::Answered(line)) =>
                self.take_answer(version, release, line),
            (UpdateStage::Downloading(plan), UpdateEvent::Downloaded) => {
                let sums_url = match &plan.sums_url {
                    Some(url) => Some(url.clone()),
                    None => None,
                };
                match sums_url {
                    Some(url) => {
                        self.stage = UpdateStage::Summing(plan);
                        UpdateAction::FetchSums(url)
                    },
                    None => self.extract(plan),
                }
            },
            (UpdateStage::Summing(plan), UpdateEvent::Sums(sums)) => {
                if listed(&sums, plan.archive.as_str()) {
                    let archive = plan.archive.clone();
                    self.stage = UpdateStage::Reading(plan, sums);
                    UpdateAction::ReadArchive(archive)
                } else {
                    self.extract(plan)
                }
            },
            (UpdateStage::Reading(plan, sums), UpdateEvent::ArchiveRead(archive)) => {
                if archive_is_sound(Some(sums), plan.archive.as_str(), archive.as_slice()) {
                    self.extract(plan)
                } else {
                    UpdateAction::Fail(UpdateFailure::ChecksumMismatch)
                }
            },
            (UpdateStage::Extracting(plan), UpdateEvent::Extracted(e)) => match e {
                Extraction::Failed => UpdateAction::Fail(UpdateFailure::NotExtracted),
                Extraction::NoProgram => UpdateAction::Fail(UpdateFailure::NoProgram),
                Extraction::Ready => {
                    self.stage = UpdateStage::Replacing(plan.version);
                    UpdateAction::Replace
                },
            },
            (UpdateStage::Replacing(version), UpdateEvent::Replaced) => {
                self.stage = UpdateStage::Looking(version);
                UpdateAction::LookForDaemon
            },
            (UpdateStage::Looking(version), UpdateEvent::Daemon(running)) => {
                if running {
                    self.stage = UpdateStage::Restarting(version);
                    UpdateAction::Restart
                } else {
                    UpdateAction::Installed(version)
                }
            },
            (UpdateStage::Restarting(version), UpdateEvent::Restarted) => UpdateAction::Installed(
                version,
            ),
            (UpdateStage::Restarting(version), UpdateEvent::Failed) => UpdateAction::Installed(
                version,
            ),
            (UpdateStage::Over, _) => UpdateAction::Fail(UpdateFailure::OutOfTurn),
            (_, UpdateEvent::Failed) => UpdateAction::Fail(UpdateFailure::StepFailed),
            _ => UpdateAction::Fail(UpdateFailure::OutOfTurn),
        }
    }
}

// ---- what replacing the program takes ----

/// What is to be done after the last of these events. There is at least one.
pub open spec fn last_action(state: UpdatingView, events: Seq<UpdateEventView>) -> UpdateActionView
    decreases events.len(),
{
    if events.len() <= 1 {
        state.next(events[0]).1
    } else {
        last_action(state.next(events[0]).0, events.drop_first())
    }
}

/// The extracted archive holds the program.
pub open spec fn extracted(events: Seq<UpdateEventView>) -> bool {
    events.len() == 1 && events[0] == UpdateEventView::Extracted(Extraction::Ready)
}

/// The archive was read and has the checksum that the list gives for it, and
/// was then extracted.
pub open spec fn archive_cleared(
    plan: PlanView,
    sums: Seq<u8>,
    events: Seq<UpdateEventView>,
) -> bool {
    &&& events.len() > 0
    &&& events[0] matches UpdateEventView::ArchiveRead(archive)
    &&& update::may_be_installed(Some(sums), plan.archive, archive)
    &&& extracted(events.drop_first())
}

/// The list of checksums was fetched, the archive was checked where the list has
/// a checksum for it, and was then extracted.
pub open spec fn sums_cleared(plan: PlanView, events: Seq<UpdateEventView>) -> bool {
    &&& events.len() > 0
    &&& events[0] matches UpdateEventView::Sums(sums)
    &&& if is_listed(sums, plan.archive) {
        archive_cleared(plan, sums, events.drop_first())
    } else {
        extracted(events.drop_first())
    }
}

/// The archive was downloaded, checked where the release has a list of
/// checksums, and extracted.
pub open spec fn download_cleared(plan: PlanView, events: Seq<UpdateEventView>) -> bool {
    &&& events.len() > 0
    &&& events[0] is Downloaded
    &&& if plan.sums_url is Some {
        sums_cleared(plan, events.drop_first())
    } else {
        extracted(events.drop_first())
    }
}

/// It was agreed to update to a version, there is a build of it, and that was
/// downloaded and checked.
pub open spec fn answer_cleared(
    state: UpdatingView,
    version: Version,
    release: Release,
    events: Seq<UpdateEventView>,
) -> bool {
    &&& events.len() > 0
    &&& events[0] matches UpdateEventView::Answered(line)
    &&& update::consent_to(state.yes, state.terminal, line) == Consent::Given
    &&& plan_for(version, release, state.os, state.arch) matches Ok((plan, _))
    &&& download_cleared(plan, events.drop_first())
}

/// There is a newer release, it was agreed to, and it was downloaded and
/// checked.
pub open spec fn update_cleared(state: UpdatingView, events: Seq<UpdateEventView>) -> bool {
    &&& events.len() > 0
    &&& events[0] matches UpdateEventView::Releases(releases)
    &&& offered(state.current, releases) matches Ok(Some((version, at)))
    &&& answer_cleared(state, version, releases[at], events.drop_first())
}

/// Once the program is to be replaced, or nothing is to be done any more, it is
/// not to be replaced again.
proof fn lemma_no_replacing(state: UpdatingView, events: Seq<UpdateEventView>)
    requires
        events.len() > 0,
        state.stage is Replacing || state.stage is Looking || state.stage is Restarting
            || state.stage is Over,
    ensures
        !(last_action(state, events) is Replace),
    decreases events.len(),
{
    if events.len() > 1 {
        lemma_no_replacing(state.next(events[0]).0, events.drop_first());
    }
}

proof fn lemma_extracting(state: UpdatingView, plan: PlanView, events: Seq<UpdateEventView>)
    requires
        events.len() > 0,
        state.stage == UpdateStageView::Extracting(plan),
    ensures
        last_action(state, events) is Replace <==> extracted(events),
{
    if events.len() > 1 {
        lemma_no_replacing(state.next(events[0]).0, events.drop_first());
    }
}

proof fn lemma_reading(
    state: UpdatingView,
    plan: PlanView,
    sums: Seq<u8>,
    events: Seq<UpdateEventView>,
)
    requires
        events.len() > 0,
        state.stage == UpdateStageView::Reading(plan, sums),
    ensures
        last_action(state, events) is Replace <==> archive_cleared(plan, sums, events),
{
    if events.len() > 1 {
        let next = state.next(events[0]).0;
        if next.stage is Over {
            lemma_no_replacing(next, events.drop_first());
        } else {
            lemma_extracting(next, plan, events.drop_first());
        }
    }
}

proof fn lemma_summing(state: UpdatingView, plan: PlanView, events: Seq<UpdateEventView>)
    requires
        events.len() > 0,
        state.stage == UpdateStageView::Summing(plan),
    ensures
        last_action(state, events) is Replace <==> sums_cleared(plan, events),
{
    if events.len() > 1 {
        let next = state.next(events[0]).0;
        match next.stage {
            UpdateStageView::Reading(_, sums) => lemma_reading(
                next,
                plan,
                sums,
                events.drop_first(),
            ),
            UpdateStageView::Extracting(_) => lemma_extracting(next, plan, events.drop_first()),
            _ => lemma_no_replacing(next, events.drop_first()),
        }
    }
}

proof fn lemma_downloading(state: UpdatingView, plan: PlanView, events: Seq<UpdateEventView>)
    requires
        events.len() > 0,
        state.stage == UpdateStageView::Downloading(plan),
    ensures
        last_action(state, events) is Replace <==> download_cleared(plan, events),
{
    if events.len() > 1 {
        let next = state.next(events[0]).0;
        match next.stage {
            UpdateStageView::Summing(_) => lemma_summing(next, plan, events.drop_first()),
            UpdateStageView::Extracting(_) => lemma_extracting(next, plan, events.drop_first()),
            _ => lemma_no_replacing(next, events.drop_first()),
        }
    }
}

proof fn lemma_asking(
    state: UpdatingView,
    version: Version,
    release: Release,
    events: Seq<UpdateEventView>,
)
    requires
        events.len() > 0,
        state.stage == UpdateStageView::Asking(version, release),
    ensures
        last_action(state, events) is Replace <==> answer_cleared(state, version, release, events),
{
    if events.len() > 1 {
        let next = state.next(events[0]).0;
        match next.stage {
            UpdateStageView::Downloading(plan) => lemma_downloading(
                next,
                plan,
                events.drop_first(),
            ),
            _ => lemma_no_replacing(next, events.drop_first()),
        }
    }
}

/// The program is replaced exactly where there is a newer release, the update to
/// it was agreed to, and its archive was downloaded, has the checksum that is
/// listed for it, if one is, and holds the program. All of that comes first, in
/// this order.
pub proof fn replacing_comes_after_all_checks(
    start: UpdatingView,
    events: Seq<UpdateEventView>,
)
    requires
        events.len() > 0,
        start.stage is Checking,
    ensures
        last_action(start, events) is Replace <==> update_cleared(start, events),
{
    if events.len() > 1 {
        let next = start.next(events[0]).0;
        match next.stage {
            UpdateStageView::Asking(version, release) => lemma_asking(
                next,
                version,
                release,
                events.drop_first(),
            ),
            _ => lemma_no_replacing(next, events.drop_first()),
        }
    }
}

/// The program is replaced once at most: once it is to be replaced, no event
/// makes it so again.
pub proof fn program_is_replaced_once(
    state: UpdatingView,
    event: UpdateEventView,
    later: Seq<UpdateEventView>,
)
    requires
        state.next(event).1 is Replace,
        later.len() > 0,
    ensures
        !(last_action(state.next(event).0, later) is Replace),
{
    lemma_no_replacing(state.next(event).0, later);
}

/// An update that was not agreed to, by the command line or by somebody at a
/// terminal, ends without a download.
pub proof fn update_needs_consent(
    state: UpdatingView,
    version: Version,
    release: Release,
    line: Seq<char>,
)
    requires
        state.stage == UpdateStageView::Asking(version, release),
        !state.yes,
        !state.terminal || !crate::ui::says_yes(line),
    ensures
        state.next(UpdateEventView::Answered(line)).0.stage is Over,
        !(state.next(UpdateEventView::Answered(line)).1 is Download),
{
}

proof fn lemma_numbers_fit(s: Seq<char>)
    ensures
        update::version_in(s) matches Some(n) ==> n.0 <= u32::MAX && n.1 <= u32::MAX && n.2
            <= u32::MAX && update::numbers(version_of(n)) == n,
{
}

/// The newest release that is out is offered where it is newer than this
/// program, wherever it stands in the list. Drafts and previews are not.
pub proof fn newest_release_is_offered(
    current: Seq<char>,
    releases: Seq<Release>,
    at: int,
    here: (nat, nat, nat),
    newest: (nat, nat, nat),
)
    requires
        0 <= at < releases.len(),
        !releases[at].draft,
        !releases[at].prerelease,
        update::version_in(current) == Some(here),
        update::version_in(releases[at].tag_name@) == Some(newest),
        forall|i: int|
            0 <= i < releases.len() && i != at && !(#[trigger] releases[i]).draft
                && !releases[i].prerelease && update::version_in(releases[i].tag_name@) is Some
                ==> update::older_numbers(
                update::version_in(releases[i].tag_name@)->0,
                newest,
            ),
    ensures
        update::older_numbers(here, newest) ==> (offered(current, releases) matches Ok(Some(found))
            && found.1 == at && update::numbers(found.0) == newest),
        !update::older_numbers(here, newest) ==> offered(current, releases) == Ok::<
            Option<(Version, int)>,
            UpdateFailure,
        >(None),
{
    update::newest_release_is_the_latest(releases, at);
    assert(update::is_candidate(releases[at]));
    assert forall|i: int| #[trigger] update::is_latest(releases, i) implies i == at by {
        update::latest_release_is_unique(releases, i, at);
    }
    assert(update::is_latest(releases, latest_place(releases)));
    lemma_numbers_fit(releases[at].tag_name@);
}

/// What is offered is out, is newer than this program, and no other release that
/// is out is newer.
pub proof fn offered_release_is_newer(
    current: Seq<char>,
    releases: Seq<Release>,
    version: Version,
    at: int,
    i: int,
)
    requires
        offered(current, releases) == Ok::<Option<(Version, int)>, UpdateFailure>(
            Some((version, at)),
        ),
    ensures
        0 <= at < releases.len(),
        !releases[at].draft && !releases[at].prerelease,
        update::version_in(releases[at].tag_name@) == Some(update::numbers(version)),
        update::version_in(current) matches Some(here) && update::older_numbers(
            here,
            update::numbers(version),
        ),
        0 <= i < releases.len() && !releases[i].draft && !releases[i].prerelease ==> (
        update::version_in(releases[i].tag_name@) matches Some(n) ==> !update::older_numbers(
            update::numbers(version),
            n,
        )),
{
    lemma_some_latest(releases);
    assert(update::is_latest(releases, at));
    assert(update::is_candidate(releases[at]));
    lemma_numbers_fit(releases[at].tag_name@);
    if 0 <= i < releases.len() && update::is_candidate(releases[i]) {
        update::nothing_is_newer_than_the_latest(releases, at, i);
    }
}

proof fn lemma_latest_of(releases: Seq<Release>, n: int) -> (at: int)
    requires
        0 <= n <= releases.len(),
        exists|i: int| 0 <= i < n && update::is_candidate(#[trigger] releases[i]),
    ensures
        update::is_latest_of(releases, n, at),
    decreases n,
{
    if exists|i: int| 0 <= i < n - 1 && update::is_candidate(#[trigger] releases[i]) {
        let before = lemma_latest_of(releases, n - 1);
        if update::is_candidate(releases[n - 1]) {
            lemma_later_release(releases, n, before);
            if update::older_numbers(
                update::version_in(releases[n - 1].tag_name@)->0,
                update::version_in(releases[before].tag_name@)->0,
            ) {
                before
            } else {
                n - 1
            }
        } else {
            before
        }
    } else {
        let k = choose|i: int| 0 <= i < n && update::is_candidate(#[trigger] releases[i]);
        assert(k == n - 1);
        n - 1
    }
}

proof fn lemma_later_release(releases: Seq<Release>, n: int, before: int)
    requires
        0 < n <= releases.len(),
        update::is_latest_of(releases, n - 1, before),
        update::is_candidate(releases[n - 1]),
    ensures
        ({
            let last = update::version_in(releases[n - 1].tag_name@)->0;
            let best = update::version_in(releases[before].tag_name@)->0;
            if update::older_numbers(last, best) {
                update::is_latest_of(releases, n, before)
            } else {
                update::is_latest_of(releases, n, n - 1)
            }
        }),
{
    let last = update::version_in(releases[n - 1].tag_name@)->0;
    let best = update::version_in(releases[before].tag_name@)->0;
    if !update::older_numbers(last, best) {
        assert forall|i: int| 0 <= i < n && update::is_candidate(#[trigger] releases[i]) implies
            update::older_numbers(update::version_in(releases[i].tag_name@)->0, last) || (
        update::version_in(releases[i].tag_name@) == update::version_in(
            releases[n - 1].tag_name@,
        ) && i <= n - 1) by {
            if i < n - 1 {
                let here = update::version_in(releases[i].tag_name@)->0;
                assert(update::older_numbers(here, best) || here == best);
                lemma_older_chain(here, best, last);
                assert(update::version_in(releases[i].tag_name@) == Some(here));
                assert(update::version_in(releases[n - 1].tag_name@) == Some(last));
            }
        }
    }
}

proof fn lemma_older_chain(a: (nat, nat, nat), b: (nat, nat, nat), c: (nat, nat, nat))
    requires
        update::older_numbers(a, b) || a == b,
        !update::older_numbers(c, b),
    ensures
        update::older_numbers(a, c) || a == c,
{
}

proof fn lemma_some_latest(releases: Seq<Release>)
    ensures
        (exists|i: int| 0 <= i < releases.len() && update::is_candidate(#[trigger] releases[i]))
            ==> update::is_latest(releases, latest_place(releases)),
{
    if exists|i: int| 0 <= i < releases.len() && update::is_candidate(#[trigger] releases[i]) {
        let at = lemma_latest_of(releases, releases.len() as int);
        assert(update::is_latest(releases, at));
    }
}

/// Where no release is out with a version, or this program has none, that is
/// said.
pub proof fn missing_versions_are_told(current: Seq<char>, releases: Seq<Release>, i: int)
    ensures
        (forall|j: int|
            0 <= j < releases.len() ==> (#[trigger] releases[j]).draft || releases[j].prerelease
                || update::version_in(releases[j].tag_name@) is None) ==> offered(current, releases)
            == Err::<Option<(Version, int)>, UpdateFailure>(UpdateFailure::NoRelease),
        0 <= i < releases.len() && !releases[i].draft && !releases[i].prerelease
            && update::version_in(releases[i].tag_name@) is Some && update::version_in(current)
            is None ==> offered(current, releases) == Err::<Option<(Version, int)>, UpdateFailure>(
            UpdateFailure::CurrentVersion,
        ),
{
    if 0 <= i < releases.len() && !releases[i].draft && !releases[i].prerelease
        && update::version_in(releases[i].tag_name@) is Some {
        assert(update::is_candidate(releases[i]));
    }
}

/// The archive that is downloaded is the file of the release that is named after
/// the build for this system and processor, and the list of checksums is the
/// file `SHA256SUMS`, where there is one.
pub proof fn plans_take_the_build_of_this_system(
    version: Version,
    release: Release,
    os: Seq<char>,
    arch: Seq<char>,
    i: int,
)
    ensures
        plan_for(version, release, os, arch) matches Ok((plan, url)) ==> {
            &&& update::target_for(os, arch) matches Some(target) && plan.archive
                == "pastebridge-"@ + target + ".tar.gz"@
            &&& exists|j: int|
                0 <= j < release.assets@.len() && (#[trigger] release.assets@[j]).name@
                    == plan.archive && release.assets@[j].browser_download_url@ == url
            &&& plan.version == version
            &&& plan.sums_url matches Some(sums) ==> exists|j: int|
                0 <= j < release.assets@.len() && (#[trigger] release.assets@[j]).name@
                    == "SHA256SUMS"@ && release.assets@[j].browser_download_url@ == sums
            &&& 0 <= i < release.assets@.len() && release.assets@[i].name@ == "SHA256SUMS"@
                ==> plan.sums_url is Some
        },
        update::target_for(os, arch) is None ==> plan_for(version, release, os, arch) == Err::<
            (PlanView, Seq<char>),
            UpdateFailure,
        >(UpdateFailure::NoTarget),
        update::target_for(os, arch) matches Some(target) ==> {
            let archive = "pastebridge-"@ + target + ".tar.gz"@;
            &&& 0 <= i < release.assets@.len() && release.assets@[i].name@ == archive ==> plan_for(
                version,
                release,
                os,
                arch,
            ) is Ok
            &&& (forall|j: int|
                0 <= j < release.assets@.len() ==> (#[trigger] release.assets@[j]).name@ != archive)
                ==> plan_for(version, release, os, arch) == Err::<
                (PlanView, Seq<char>),
                UpdateFailure,
            >(UpdateFailure::NoBuild)
        },
{
    let assets = release.assets@;
    if let Some(target) = update::target_for(os, arch) {
        let archive = update::archive_text(target);
        lemma_urls(assets, archive, i);
        lemma_urls(assets, "SHA256SUMS"@, i);
    }
}

proof fn lemma_urls(assets: Seq<Asset>, name: Seq<char>, i: int)
    ensures
        url_of(assets, name) matches Some(url) ==> exists|j: int|
            0 <= j < assets.len() && (#[trigger] assets[j]).name@ == name
                && assets[j].browser_download_url@ == url,
        0 <= i < assets.len() && assets[i].name@ == name ==> url_of(assets, name) is Some,
        url_of(assets, name) is None ==> forall|j: int|
            0 <= j < assets.len() ==> (#[trigger] assets[j]).name@ != name,
{
    if assets.len() > 0 {
        assert forall|j: int|
            0 <= j < assets.len() && (#[trigger] assets[j]).name@ == name implies
            update::asset_place(assets, name) <= j by {
            update::first_file_of_a_name_is_found(assets, name, j);
        }
        update::first_file_of_a_name_is_found(assets, name, 0);
        let place = update::asset_place(assets, name) as int;
        if place < assets.len() {
            assert(assets[place].name@ == name);
        }
    }
}

/// The list of releases is fetched from where the releases are.
pub proof fn releases_are_fetched_from_their_place()
    ensures
        update::releases_text()
            == "https://api.github.com/repos/hapwi/pastebridge/releases?per_page=20"@,
{
    reveal_strlit("https://api.github.com/repos/");
    reveal_strlit("hapwi/pastebridge");
    reveal_strlit("/releases?per_page=20");
    reveal_strlit("https://api.github.com/repos/hapwi/pastebridge/releases?per_page=20");
    assert(update::releases_text()
        =~= "https://api.github.com/repos/hapwi/pastebridge/releases?per_page=20"@);
}

/// Each step of an update is followed by the next: the version is shown, the
/// archive is downloaded, the checksums are fetched where there are some, the
/// archive is checked and extracted, the program is replaced, and a daemon that
/// runs is restarted. The version that is told at the end is the one that was
/// shown, also where the daemon could not be restarted.
pub proof fn updates_go_step_by_step(
    state: UpdatingView,
    version: Version,
    release: Release,
    plan: PlanView,
    url: Seq<char>,
    sums: Seq<u8>,
    line: Seq<char>,
)
    ensures
        state.stage == UpdateStageView::Asking(version, release) && update::consent_to(
            state.yes,
            state.terminal,
            line,
        ) == Consent::Given && plan_for(version, release, state.os, state.arch) == Ok::<
            (PlanView, Seq<char>),
            UpdateFailure,
        >((plan, url)) ==> state.next(UpdateEventView::Answered(line)).1 == (
        UpdateActionView::Download { url, archive: plan.archive }),
        state.stage == UpdateStageView::Downloading(plan) ==> state.next(
            UpdateEventView::Downloaded,
        ).1 == (match plan.sums_url {
            Some(u) => UpdateActionView::FetchSums(u),
            None => UpdateActionView::Extract(plan.archive),
        }),
        state.stage == UpdateStageView::Summing(plan) ==> state.next(UpdateEventView::Sums(sums)).1
            == (if update::checksum_in(
            text::lines(update::list_text(sums)),
            plan.archive,
        ) is Some {
            UpdateActionView::ReadArchive(plan.archive)
        } else {
            UpdateActionView::Extract(plan.archive)
        }),
        state.stage == UpdateStageView::Extracting(plan) ==> {
            let replacing = state.next(UpdateEventView::Extracted(Extraction::Ready));
            let looking = replacing.0.next(UpdateEventView::Replaced);
            let restarting = looking.0.next(UpdateEventView::Daemon(true));
            &&& replacing.1 is Replace
            &&& looking.1 is LookForDaemon
            &&& restarting.1 is Restart
            &&& looking.0.next(UpdateEventView::Daemon(false)).1 == UpdateActionView::Installed(
                plan.version,
            )
            &&& restarting.0.next(UpdateEventView::Restarted).1 == UpdateActionView::Installed(
                plan.version,
            )
            &&& restarting.0.next(UpdateEventView::Failed).1 == UpdateActionView::Installed(
                plan.version,
            )
        },
{
}

/// An archive that was read is extracted exactly where its checksum is the
/// listed one.
pub proof fn wrong_checksums_stop_an_update(
    state: UpdatingView,
    plan: PlanView,
    list: Seq<char>,
    archive: Seq<u8>,
    expected: Seq<char>,
)
    requires
        state.stage == UpdateStageView::Reading(plan, vstd::utf8::encode_utf8(list)),
        update::checksum_in(text::lines(list), plan.archive) == Some(expected),
    ensures
        state.next(UpdateEventView::ArchiveRead(archive)).1 == (if crate::codec::hex_text(
            crate::crypto::sha256_digest(archive),
        ) == expected {
            UpdateActionView::Extract(plan.archive)
        } else {
            UpdateActionView::Fail(UpdateFailure::ChecksumMismatch)
        }),
{
    update::listed_checksum_decides(list, plan.archive, expected, update::sha256_text(archive));
}

/// Where the releases are known, the offered version is shown, or it is said
/// that there is none. A person is asked only at a terminal, and only where the
/// command line does not agree.
pub proof fn offered_version_is_shown(state: UpdatingView, releases: Seq<Release>)
    requires
        state.stage is Checking,
    ensures
        match offered(state.current, releases) {
            Ok(Some((version, at))) => state.next(UpdateEventView::Releases(releases)).1 == (
            UpdateActionView::Show { version, ask: state.terminal && !state.yes })
                && state.next(UpdateEventView::Releases(releases)).0.stage
                == UpdateStageView::Asking(version, releases[at]),
            Ok(None) => state.next(UpdateEventView::Releases(releases)).1 is UpToDate,
            Err(failure) => state.next(UpdateEventView::Releases(releases)).1
                == UpdateActionView::Fail(failure),
        },
{
}

/// What could not be done ends an update, but for restarting the daemon. What an
/// update is of never changes.
pub proof fn failed_steps_end_an_update(state: UpdatingView, event: UpdateEventView)
    ensures
        !(state.stage is Restarting) && !(state.stage is Over) ==> state.next(
            UpdateEventView::Failed,
        ).1 == UpdateActionView::Fail(UpdateFailure::StepFailed),
        state.stage is Over ==> state.next(event).1 == UpdateActionView::Fail(
            UpdateFailure::OutOfTurn,
        ),
        state.next(event).1 is Fail || state.next(event).1 is Declined || state.next(event).1
            is UpToDate || state.next(event).1 is Installed ==> state.next(event).0.stage is Over,
        state.next(event).0.current == state.current,
        state.next(event).0.os == state.os,
        state.next(event).0.arch == state.arch,
        state.next(event).0.yes == state.yes,
        state.next(event).0.terminal == state.terminal,
        state.stage is Extracting ==> state.next(UpdateEventView::Extracted(Extraction::Failed)).1
            == UpdateActionView::Fail(UpdateFailure::NotExtracted) && state.next(
            UpdateEventView::Extracted(Extraction::NoProgram),
        ).1 == UpdateActionView::Fail(UpdateFailure::NoProgram),
{
}

/// An update that is not agreed to ends by saying so: it was declined, or there
/// was nobody to ask.
pub proof fn refused_updates_are_told_apart(
    state: UpdatingView,
    version: Version,
    release: Release,
    line: Seq<char>,
)
    requires
        state.stage == UpdateStageView::Asking(version, release),
        !state.yes,
    ensures
        !state.terminal ==> state.next(UpdateEventView::Answered(line)).1 == UpdateActionView::Fail(
            UpdateFailure::NotTerminal,
        ),
        state.terminal && !crate::ui::says_yes(line) ==> state.next(
            UpdateEventView::Answered(line),
        ).1 is Declined,
{
}

} // verus!
