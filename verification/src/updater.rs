//! Updating the program: how a later release is found and installed.
//!
//! Network and files belong to the caller. [`Update`] says what to do next and is told what
//! came of it.
use crate::text::{join, same_text, split_words, strip_leading, to_hex};
use crate::version::version_greater;
use sha2::Digest;
use vstd::prelude::*;

verus! {

broadcast use vstd::string::group_string_axioms;

/// The version of this program.
pub const VERSION: &'static str = "0.5.5";

/// Where releases are published.
pub const GITHUB_REPO: &'static str = "eralpkaraduman/lego-radio";

/// Where a release is downloaded to.
pub const TMP_PATH: &'static str = "/tmp/lego-radio-update";

// ---------------------------------------------------------------------------
// Releases
// ---------------------------------------------------------------------------

/// The version that a release tag names: the tag without any `v` at its start.
pub fn release_version<'a>(tag_name: &'a str) -> (version: &'a str)
    ensures
        version@ == crate::text::without_leading(tag_name@, 'v'),
{
    strip_leading(tag_name, 'v')
}

/// The version to update to, given the tag of the latest release; `None` where that could not
/// be had, or is no later than this program.
pub open spec fn newer_version(tag_name: Option<Seq<char>>) -> Option<Seq<char>> {
    match tag_name {
        Some(tag) => {
            let version = crate::text::without_leading(tag, 'v');
            if crate::version::is_later(
                crate::version::version_of(version),
                crate::version::version_of(VERSION@),
            ) {
                Some(version)
            } else {
                None
            }
        },
        None => None,
    }
}

/// Whether there is a version to update to, given the tag of the latest release where it could
/// be had.
pub fn check_for_update(tag_name: Option<&str>) -> (version: Option<String>)
    ensures
        match tag_name {
            Some(tag) => newer_version(Some(tag@)),
            None => newer_version(None),
        } == match version {
            Some(v) => Some(v@),
            None => None,
        },
{
    match tag_name {
        Some(tag) => {
            let latest = release_version(tag);
            if version_greater(latest, VERSION) {
                Some(latest.to_string())
            } else {
                None
            }
        },
        None => None,
    }
}

// ---------------------------------------------------------------------------
// Addresses
// ---------------------------------------------------------------------------

/// Where the latest release is described.
pub open spec fn api_url() -> Seq<char> {
    "https://api.github.com/repos/"@ + GITHUB_REPO@ + "/releases/latest"@
}

pub fn latest_release_url() -> (url: String)
    ensures
        url@ == api_url(),
{
    let head = join("https://api.github.com/repos/", GITHUB_REPO);
    join(head.as_str(), "/releases/latest")
}

/// Where a file of the latest release is downloaded from.
pub open spec fn release_file_url(name: Seq<char>) -> Seq<char> {
    "https://github.com/"@ + GITHUB_REPO@ + "/releases/latest/download/"@ + name
}

pub fn download_url(binary_name: &str) -> (url: String)
    ensures
        url@ == release_file_url(binary_name@),
{
    let head = join("https://github.com/", GITHUB_REPO);
    let dir = join(head.as_str(), "/releases/latest/download/");
    join(dir.as_str(), binary_name)
}

/// The only binary that is published.
pub const ARM64_BINARY: &'static str = "lego-radio-arm64";

/// Whether binaries are published for a platform.
pub open spec fn is_supported(os: Seq<char>, arch: Seq<char>) -> bool {
    os == "linux"@ && arch == "aarch64"@
}

/// Name of the binary for a platform.
pub fn get_binary_name(os: &str, arch: &str) -> (name: Option<&'static str>)
    ensures
        name == if is_supported(os@, arch@) {
            Some(ARM64_BINARY)
        } else {
            None
        },
{
    if same_text(os, "linux") && same_text(arch, "aarch64") {
        Some(ARM64_BINARY)
    } else {
        None
    }
}

// ---------------------------------------------------------------------------
// Checksums
// ---------------------------------------------------------------------------

/// The SHA-256 digest of some bytes, as `sha2::Sha256::digest` computes it.
pub uninterp spec fn sha256_digest(data: Seq<u8>) -> Seq<u8>;

/// Calls `sha2::Sha256::digest`. Trusted: the digest is a function of the bytes alone, named
/// [`sha256_digest`], and has 32 bytes.
#[verifier::external_body]
fn sha256(data: &[u8]) -> (digest: Vec<u8>)
    ensures
        digest@ == sha256_digest(data@),
        digest@.len() == 32,
{
    sha2::Sha256::digest(data).to_vec()
}

/// The digest as it stands in a checksum file.
pub open spec fn checksum_of(data: Seq<u8>) -> Seq<char> {
    crate::text::hex_text(sha256_digest(data))
}

/// The SHA-256 digest of some bytes in lower-case hexadecimal digits.
pub fn checksum(data: &[u8]) -> (text: String)
    ensures
        text@ == checksum_of(data@),
        text@.len() == 64,
{
    let digest = sha256(data);
    proof {
        crate::text::hex_text_len(digest@);
    }
    to_hex(digest.as_slice())
}

/// The checksum that a checksum file names: its first word, or nothing.
pub open spec fn named_checksum(body: Seq<char>) -> Seq<char> {
    let words = crate::text::words(body);
    if words.len() > 0 {
        words[0]
    } else {
        Seq::empty()
    }
}

pub fn expected_checksum<'a>(body: &'a str) -> (expected: &'a str)
    ensures
        expected@ == named_checksum(body@),
{
    let words = split_words(body);
    if words.len() > 0 {
        assert(crate::text::views(words@)[0] == words@[0]@);
        words[0]
    } else {
        proof {
            reveal_strlit("");
            assert(""@ =~= Seq::empty());
        }
        ""
    }
}

// ---------------------------------------------------------------------------
// Installing
// ---------------------------------------------------------------------------

/// Why an update did not take place.
#[derive(Debug)]
pub enum UpdateError {
    /// There is no later release.
    UpToDate,
    /// No binary is published for this platform.
    UnsupportedPlatform { os: String, arch: String },
    /// The download did not start; the text says why.
    DownloadFailed(String),
    /// It is not known whether there is a checksum file, or what it says; the text says why.
    ChecksumUnavailable(String),
    /// The checksum file could not be read; the text says why.
    ChecksumUnreadable(String),
    /// The download is not what the checksum file names.
    ChecksumMismatch { expected: String, actual: String },
    /// A file operation failed; the text says why.
    Io(String),
}

/// The contents of an [`UpdateError`].
pub enum UpdateErrorView {
    UpToDate,
    UnsupportedPlatform { os: Seq<char>, arch: Seq<char> },
    DownloadFailed(Seq<char>),
    ChecksumUnavailable(Seq<char>),
    ChecksumUnreadable(Seq<char>),
    ChecksumMismatch { expected: Seq<char>, actual: Seq<char> },
    Io(Seq<char>),
}

impl View for UpdateError {
    type V = UpdateErrorView;

    open spec fn view(&self) -> UpdateErrorView {
        match *self {
            UpdateError::UpToDate => UpdateErrorView::UpToDate,
            UpdateError::UnsupportedPlatform { os, arch } => UpdateErrorView::UnsupportedPlatform {
                os: os@,
                arch: arch@,
            },
            UpdateError::DownloadFailed(e) => UpdateErrorView::DownloadFailed(e@),
            UpdateError::ChecksumUnavailable(e) => UpdateErrorView::ChecksumUnavailable(e@),
            UpdateError::ChecksumUnreadable(e) => UpdateErrorView::ChecksumUnreadable(e@),
            UpdateError::ChecksumMismatch { expected, actual } => {
                UpdateErrorView::ChecksumMismatch { expected: expected@, actual: actual@ }
            },
            UpdateError::Io(e) => UpdateErrorView::Io(e@),
        }
    }
}

/// An error in words.
pub open spec fn error_text(e: UpdateErrorView) -> Seq<char> {
    match e {
        UpdateErrorView::UpToDate => "Already up to date (v"@ + VERSION@ + ")"@,
        UpdateErrorView::UnsupportedPlatform { os, arch } => "Unsupported platform: "@ + os + "-"@
            + arch,
        UpdateErrorView::DownloadFailed(e) => "Download failed: "@ + e,
        UpdateErrorView::ChecksumUnavailable(e) => "Failed to fetch checksum: "@ + e,
        UpdateErrorView::ChecksumUnreadable(e) => "Failed to read checksum: "@ + e,
        UpdateErrorView::ChecksumMismatch { expected, actual } => "Checksum mismatch: expected "@
            + expected + " got "@ + actual,
        UpdateErrorView::Io(e) => e,
    }
}

impl UpdateError {
    /// The error in words.
    pub fn message(&self) -> (text: String)
        ensures
            text@ == error_text(self@),
    {
        match self {
            UpdateError::UpToDate => {
                let head = join("Already up to date (v", VERSION);
                join(head.as_str(), ")")
            },
            UpdateError::UnsupportedPlatform { os, arch } => {
                let head = join("Unsupported platform: ", os.as_str());
                let dash = join(head.as_str(), "-");
                join(dash.as_str(), arch.as_str())
            },
            UpdateError::DownloadFailed(e) => join("Download failed: ", e.as_str()),
            UpdateError::ChecksumUnavailable(e) => join("Failed to fetch checksum: ", e.as_str()),
            UpdateError::ChecksumUnreadable(e) => join("Failed to read checksum: ", e.as_str()),
            UpdateError::ChecksumMismatch { expected, actual } => {
                let head = join("Checksum mismatch: expected ", expected.as_str());
                let got = join(head.as_str(), " got ");
                join(got.as_str(), actual.as_str())
            },
            UpdateError::Io(e) => e.clone(),
        }
    }
}

/// What has to be done next.
#[derive(Debug, Clone, Copy, PartialEq, Eq, Structural)]
pub enum UpdatePhase {
    /// Look for a later release.
    Checking,
    /// Download the binary to [`TMP_PATH`].
    Downloading,
    /// Fetch the checksum file.
    FetchingChecksum,
    /// Read the downloaded binary back.
    ReadingDownload,
    /// Remove the download, which is not what it should be.
    Discarding,
    /// Make the download executable.
    MarkingDownload,
    /// Find out where the running program lies.
    Locating,
    /// Remove an old backup; it may be missing.
    DroppingOldBackup,
    /// Rename the running program to its backup.
    BackingUp,
    /// Copy the download to where the running program lay.
    Copying,
    /// Make the copy executable.
    MarkingCurrent,
    /// Remove the download; failing is no harm.
    DroppingDownload,
    /// Remove the backup; failing is no harm.
    DroppingBackup,
    /// Nothing: the new version is installed.
    Installed,
    /// Nothing: the update has failed.
    Failed,
}

/// What came of it.
pub enum UpdateReply {
    /// The tag of the latest release, where it could be had.
    LatestTag(Option<String>),
    /// It was done.
    Done,
    /// It failed; the text says why.
    Failed(String),
    /// The server gave no answer, or a refusal; the text says why.
    NoAnswer(String),
    /// The server says that there is no such file; the text says how.
    Missing(String),
    /// The text of the checksum file.
    Checksum(String),
    /// The downloaded binary.
    Data(Vec<u8>),
    /// Where the running program lies.
    Located(String),
}

/// The contents of an [`UpdateReply`].
pub enum UpdateReplyView {
    LatestTag(Option<Seq<char>>),
    Done,
    Failed(Seq<char>),
    NoAnswer(Seq<char>),
    Missing(Seq<char>),
    Checksum(Seq<char>),
    Data(Seq<u8>),
    Located(Seq<char>),
}

impl View for UpdateReply {
    type V = UpdateReplyView;

    open spec fn view(&self) -> UpdateReplyView {
        match *self {
            UpdateReply::LatestTag(Some(tag)) => UpdateReplyView::LatestTag(Some(tag@)),
            UpdateReply::LatestTag(None) => UpdateReplyView::LatestTag(None),
            UpdateReply::Done => UpdateReplyView::Done,
            UpdateReply::Failed(e) => UpdateReplyView::Failed(e@),
            UpdateReply::NoAnswer(e) => UpdateReplyView::NoAnswer(e@),
            UpdateReply::Missing(e) => UpdateReplyView::Missing(e@),
            UpdateReply::Checksum(body) => UpdateReplyView::Checksum(body@),
            UpdateReply::Data(data) => UpdateReplyView::Data(data@),
            UpdateReply::Located(path) => UpdateReplyView::Located(path@),
        }
    }
}

/// An update under way.
pub struct Update {
    phase: UpdatePhase,
    os: String,
    arch: String,
    version: String,
    url: String,
    expected: String,
    current_exe: String,
    error: Option<UpdateError>,
}

/// The contents of an [`Update`].
#[verifier::ext_equal]
pub struct UpdateView {
    pub phase: UpdatePhase,
    pub os: Seq<char>,
    pub arch: Seq<char>,
    /// The version that is installed.
    pub version: Seq<char>,
    /// Where its binary is downloaded from.
    pub url: Seq<char>,
    /// The checksum that the binary must have.
    pub expected: Seq<char>,
    /// Where the running program lies.
    pub current_exe: Seq<char>,
    /// Why the update has failed, or is about to.
    pub error: Option<UpdateErrorView>,
}

pub open spec fn error_view(error: Option<UpdateError>) -> Option<UpdateErrorView> {
    match error {
        Some(e) => Some(e@),
        None => None,
    }
}

impl View for Update {
    type V = UpdateView;

    closed spec fn view(&self) -> UpdateView {
        UpdateView {
            phase: self.phase,
            os: self.os@,
            arch: self.arch@,
            version: self.version@,
            url: self.url@,
            expected: self.expected@,
            current_exe: self.current_exe@,
            error: error_view(self.error),
        }
    }
}

impl UpdateView {
    pub open spec fn at(self, phase: UpdatePhase) -> UpdateView {
        UpdateView { phase, ..self }
    }

    pub open spec fn failed(self, error: UpdateErrorView) -> UpdateView {
        UpdateView { phase: UpdatePhase::Failed, error: Some(error), ..self }
    }

    /// The update to a version: it is downloaded, where there is a binary for the platform.
    pub open spec fn to_version(self, version: Seq<char>) -> UpdateView {
        let update = UpdateView { version, ..self };
        if is_supported(self.os, self.arch) {
            UpdateView {
                phase: UpdatePhase::Downloading,
                url: release_file_url(ARM64_BINARY@),
                ..update
            }
        } else {
            update.failed(UpdateErrorView::UnsupportedPlatform { os: self.os, arch: self.arch })
        }
    }

    /// The update behind the search for a later release.
    pub open spec fn checked(self, version: Option<Seq<char>>) -> UpdateView {
        match version {
            Some(v) => self.to_version(v),
            None => self.failed(UpdateErrorView::UpToDate),
        }
    }

    /// The update behind the comparison of the download's checksum with the one it must have.
    pub open spec fn judged(self, actual: Seq<char>) -> UpdateView {
        if actual == self.expected {
            self.at(UpdatePhase::MarkingDownload)
        } else {
            UpdateView {
                phase: UpdatePhase::Discarding,
                error: Some(
                    UpdateErrorView::ChecksumMismatch { expected: self.expected, actual },
                ),
                ..self
            }
        }
    }

    /// The update behind a reply. A reply that does not fit the phase changes nothing.
    pub open spec fn next(self, reply: UpdateReplyView) -> UpdateView {
        match self.phase {
            UpdatePhase::Checking => match reply {
                UpdateReplyView::LatestTag(tag) => self.checked(newer_version(tag)),
                _ => self,
            },
            UpdatePhase::Downloading => match reply {
                UpdateReplyView::Done => self.at(UpdatePhase::FetchingChecksum),
                UpdateReplyView::NoAnswer(e) => self.failed(UpdateErrorView::DownloadFailed(e)),
                UpdateReplyView::Missing(e) => self.failed(UpdateErrorView::DownloadFailed(e)),
                UpdateReplyView::Failed(e) => self.failed(UpdateErrorView::Io(e)),
                _ => self,
            },
            UpdatePhase::FetchingChecksum => match reply {
                UpdateReplyView::Checksum(body) => UpdateView {
                    phase: UpdatePhase::ReadingDownload,
                    expected: named_checksum(body),
                    ..self
                },
                // No checksum is published: there is nothing to hold the download to.
                UpdateReplyView::Missing(_) => self.at(UpdatePhase::MarkingDownload),
                // One may be published: the download must not pass unchecked.
                UpdateReplyView::NoAnswer(e) => self.failed(
                    UpdateErrorView::ChecksumUnavailable(e),
                ),
                UpdateReplyView::Failed(e) => self.failed(UpdateErrorView::ChecksumUnreadable(e)),
                _ => self,
            },
            UpdatePhase::ReadingDownload => match reply {
                UpdateReplyView::Data(data) => self.judged(checksum_of(data)),
                UpdateReplyView::Failed(e) => self.failed(UpdateErrorView::Io(e)),
                _ => self,
            },
            UpdatePhase::Discarding => match reply {
                UpdateReplyView::Done => self.at(UpdatePhase::Failed),
                UpdateReplyView::Failed(e) => self.failed(UpdateErrorView::Io(e)),
                _ => self,
            },
            UpdatePhase::Locating => match reply {
                UpdateReplyView::Located(path) => UpdateView {
                    phase: UpdatePhase::DroppingOldBackup,
                    current_exe: path,
                    ..self
                },
                UpdateReplyView::Failed(e) => self.failed(UpdateErrorView::Io(e)),
                _ => self,
            },
            UpdatePhase::MarkingDownload => self.done_or_failed(reply, UpdatePhase::Locating),
            UpdatePhase::BackingUp => self.done_or_failed(reply, UpdatePhase::Copying),
            UpdatePhase::Copying => self.done_or_failed(reply, UpdatePhase::MarkingCurrent),
            UpdatePhase::MarkingCurrent => self.done_or_failed(
                reply,
                UpdatePhase::DroppingDownload,
            ),
            UpdatePhase::DroppingOldBackup => self.done_anyway(reply, UpdatePhase::BackingUp),
            UpdatePhase::DroppingDownload => self.done_anyway(reply, UpdatePhase::DroppingBackup),
            UpdatePhase::DroppingBackup => self.done_anyway(reply, UpdatePhase::Installed),
            UpdatePhase::Installed => self,
            UpdatePhase::Failed => self,
        }
    }

    pub open spec fn done_or_failed(
        self,
        reply: UpdateReplyView,
        phase: UpdatePhase,
    ) -> UpdateView {
        match reply {
            UpdateReplyView::Done => self.at(phase),
            UpdateReplyView::Failed(e) => self.failed(UpdateErrorView::Io(e)),
            _ => self,
        }
    }

    pub open spec fn done_anyway(self, reply: UpdateReplyView, phase: UpdatePhase) -> UpdateView {
        match reply {
            UpdateReplyView::Done => self.at(phase),
            UpdateReplyView::Failed(_) => self.at(phase),
            _ => self,
        }
    }
}

/// An update that has not begun.
pub open spec fn fresh_update(os: Seq<char>, arch: Seq<char>) -> UpdateView {
    UpdateView {
        phase: UpdatePhase::Checking,
        os,
        arch,
        version: Seq::empty(),
        url: Seq::empty(),
        expected: Seq::empty(),
        current_exe: Seq::empty(),
        error: None,
    }
}

/// Begins an update to `version`, or, where none is given, to the latest release if that is
/// later than this program.
pub fn do_update_to(version: Option<&str>, os: &str, arch: &str) -> (update: Update)
    ensures
        update@ == match version {
            Some(v) => fresh_update(os@, arch@).to_version(v@),
            None => fresh_update(os@, arch@),
        },
{
    let mut update = Update {
        phase: UpdatePhase::Checking,
        os: os.to_string(),
        arch: arch.to_string(),
        version: String::new(),
        url: String::new(),
        expected: String::new(),
        current_exe: String::new(),
        error: None,
    };
    assert(update@ =~= fresh_update(os@, arch@));
    if let Some(v) = version {
        update.begin_download(v.to_string());
    }
    update
}

/// Begins an update to the latest release, if that is later than this program.
pub fn do_update(os: &str, arch: &str) -> (update: Update)
    ensures
        update@ == fresh_update(os@, arch@),
{
    do_update_to(None, os, arch)
}

impl Update {
    /// What has to be done next.
    pub fn phase(&self) -> (phase: UpdatePhase)
        ensures
            phase == self@.phase,
    {
        self.phase
    }

    /// The version that is installed.
    pub fn version(&self) -> (version: &str)
        ensures
            version@ == self@.version,
    {
        self.version.as_str()
    }

    /// Where the binary is downloaded from.
    pub fn binary_url(&self) -> (url: &str)
        ensures
            url@ == self@.url,
    {
        self.url.as_str()
    }

    /// Where the checksum file is fetched from.
    pub fn checksum_url(&self) -> (url: String)
        ensures
            url@ == self@.url + ".sha256"@,
    {
        join(self.url.as_str(), ".sha256")
    }

    /// Where the running program lies.
    pub fn current_exe(&self) -> (path: &str)
        ensures
            path@ == self@.current_exe,
    {
        self.current_exe.as_str()
    }

    /// Where the running program is moved to.
    pub fn backup_path(&self) -> (path: String)
        ensures
            path@ == self@.current_exe + ".backup"@,
    {
        join(self.current_exe.as_str(), ".backup")
    }

    /// Why the update has failed, or is about to.
    pub fn error(&self) -> (error: Option<&UpdateError>)
        ensures
            match error {
                Some(e) => self@.error == Some(e@),
                None => self@.error is None,
            },
    {
        match &self.error {
            Some(e) => Some(e),
            None => None,
        }
    }

    fn begin_download(&mut self, version: String)
        ensures
            final(self)@ == old(self)@.to_version(version@),
    {
        self.version = version;
        match get_binary_name(self.os.as_str(), self.arch.as_str()) {
            Some(name) => {
                self.url = download_url(name);
                self.phase = UpdatePhase::Downloading;
            },
            None => {
                self.error = Some(
                    UpdateError::UnsupportedPlatform {
                        os: self.os.clone(),
                        arch: self.arch.clone(),
                    },
                );
                self.phase = UpdatePhase::Failed;
            },
        }
        assert(self@ =~= old(self)@.to_version(version@));
    }

    /// Goes on with the latest release, given its tag, if it is later than this program.
    fn check_release(&mut self, tag_name: Option<&str>)
        ensures
            final(self)@ == old(self)@.checked(
                newer_version(
                    match tag_name {
                        Some(tag) => Some(tag@),
                        None => None,
                    },
                ),
            ),
    {
        match check_for_update(tag_name) {
            Some(version) => self.begin_download(version),
            None => self.fail(UpdateError::UpToDate),
        }
    }

    fn fail(&mut self, error: UpdateError)
        ensures
            final(self)@ == old(self)@.failed(error@),
    {
        self.error = Some(error);
        self.phase = UpdatePhase::Failed;
        assert(self@ =~= old(self)@.failed(error@));
    }

    fn go(&mut self, phase: UpdatePhase)
        ensures
            final(self)@ == old(self)@.at(phase),
    {
        self.phase = phase;
        assert(self@ =~= old(self)@.at(phase));
    }

    /// Holds the checksum of the download to the one that was named for it. Anything but the
    /// same text has the download discarded.
    pub fn judge_download(&mut self, actual: String)
        requires
            old(self)@.phase == UpdatePhase::ReadingDownload,
        ensures
            final(self)@ == old(self)@.judged(actual@),
    {
        if same_text(actual.as_str(), self.expected.as_str()) {
            self.go(UpdatePhase::MarkingDownload);
        } else {
            self.error = Some(
                UpdateError::ChecksumMismatch { expected: self.expected.clone(), actual },
            );
            self.phase = UpdatePhase::Discarding;
            assert(self@ =~= old(self)@.judged(actual@));
        }
    }

    fn advance_or_fail(&mut self, reply: UpdateReply, phase: UpdatePhase)
        ensures
            final(self)@ == old(self)@.done_or_failed(reply@, phase),
    {
        match reply {
            UpdateReply::Done => self.go(phase),
            UpdateReply::Failed(e) => self.fail(UpdateError::Io(e)),
            _ => {},
        }
    }

    fn advance_anyway(&mut self, reply: UpdateReply, phase: UpdatePhase)
        ensures
            final(self)@ == old(self)@.done_anyway(reply@, phase),
    {
        match reply {
            UpdateReply::Done | UpdateReply::Failed(_) => self.go(phase),
            _ => {},
        }
    }

    /// Takes what came of the last action.
    pub fn step(&mut self, reply: UpdateReply)
        ensures
            final(self)@ == old(self)@.next(reply@),
    {
        match self.phase {
            UpdatePhase::Checking => match reply {
                UpdateReply::LatestTag(Some(tag)) => self.check_release(Some(tag.as_str())),
                UpdateReply::LatestTag(None) => self.check_release(None),
                _ => {},
            },
            UpdatePhase::Downloading => match reply {
                UpdateReply::Done => self.go(UpdatePhase::FetchingChecksum),
                UpdateReply::NoAnswer(e) => self.fail(UpdateError::DownloadFailed(e)),
                UpdateReply::Missing(e) => self.fail(UpdateError::DownloadFailed(e)),
                UpdateReply::Failed(e) => self.fail(UpdateError::Io(e)),
                _ => {},
            },
            UpdatePhase::FetchingChecksum => match reply {
                UpdateReply::Checksum(body) => {
                    self.expected = expected_checksum(body.as_str()).to_string();
                    self.phase = UpdatePhase::ReadingDownload;
                    assert(self@ =~= old(self)@.next(UpdateReplyView::Checksum(body@)));
                },
                UpdateReply::Missing(_) => self.go(UpdatePhase::MarkingDownload),
                UpdateReply::NoAnswer(e) => self.fail(UpdateError::ChecksumUnavailable(e)),
                UpdateReply::Failed(e) => self.fail(UpdateError::ChecksumUnreadable(e)),
                _ => {},
            },
            UpdatePhase::ReadingDownload => match reply {
                UpdateReply::Data(data) => self.judge_download(checksum(data.as_slice())),
                UpdateReply::Failed(e) => self.fail(UpdateError::Io(e)),
                _ => {},
            },
            UpdatePhase::Discarding => match reply {
                UpdateReply::Done => self.go(UpdatePhase::Failed),
                UpdateReply::Failed(e) => self.fail(UpdateError::Io(e)),
                _ => {},
            },
            UpdatePhase::Locating => match reply {
                UpdateReply::Located(path) => {
                    self.current_exe = path;
                    self.phase = UpdatePhase::DroppingOldBackup;
                    assert(self@ =~= old(self)@.next(UpdateReplyView::Located(path@)));
                },
                UpdateReply::Failed(e) => self.fail(UpdateError::Io(e)),
                _ => {},
            },
            UpdatePhase::MarkingDownload => self.advance_or_fail(reply, UpdatePhase::Locating),
            UpdatePhase::BackingUp => self.advance_or_fail(reply, UpdatePhase::Copying),
            UpdatePhase::Copying => self.advance_or_fail(reply, UpdatePhase::MarkingCurrent),
            UpdatePhase::MarkingCurrent => self.advance_or_fail(
                reply,
                UpdatePhase::DroppingDownload,
            ),
            UpdatePhase::DroppingOldBackup => self.advance_anyway(reply, UpdatePhase::BackingUp),
            UpdatePhase::DroppingDownload => self.advance_anyway(
                reply,
                UpdatePhase::DroppingBackup,
            ),
            UpdatePhase::DroppingBackup => self.advance_anyway(reply, UpdatePhase::Installed),
            UpdatePhase::Installed => {},
            UpdatePhase::Failed => {},
        }
    }
}

// ---------------------------------------------------------------------------
// Laws
// ---------------------------------------------------------------------------

/// An update is never found to a version that this program is later than, or that has the same
/// precedence.
pub proof fn update_is_never_a_downgrade(tag: Seq<char>, version: Seq<char>)
    requires
        newer_version(Some(tag)) == Some(version),
    ensures
        crate::version::precedence(
            crate::version::version_of(VERSION@),
            crate::version::version_of(version),
        ) == crate::version::Order::Less,
{
    crate::version::precedence_is_an_order();
    let order = |x: crate::version::Version, y: crate::version::Version|
        crate::version::precedence(x, y);
    let this = crate::version::version_of(VERSION@);
    let latest = crate::version::version_of(version);
    assert(order(this, latest) == order(latest, this).mirrored());
}

/// The update behind a series of replies.
pub open spec fn after_replies(update: UpdateView, replies: Seq<UpdateReplyView>) -> UpdateView {
    replies.fold_left(update, |u: UpdateView, r: UpdateReplyView| u.next(r))
}

/// The phases from which the running program may be replaced.
pub open spec fn is_accepted(phase: UpdatePhase) -> bool {
    match phase {
        UpdatePhase::MarkingDownload => true,
        UpdatePhase::Locating => true,
        UpdatePhase::DroppingOldBackup => true,
        UpdatePhase::BackingUp => true,
        UpdatePhase::Copying => true,
        UpdatePhase::MarkingCurrent => true,
        UpdatePhase::DroppingDownload => true,
        UpdatePhase::DroppingBackup => true,
        UpdatePhase::Installed => true,
        _ => false,
    }
}

/// At reply `i` the download was accepted: its checksum was the one that was published for it,
/// or the server said that none is published.
pub open spec fn accepted_at(
    update: UpdateView,
    replies: Seq<UpdateReplyView>,
    i: int,
) -> bool {
    let before = after_replies(update, replies.take(i));
    match replies[i] {
        UpdateReplyView::Data(data) => before.phase == UpdatePhase::ReadingDownload && checksum_of(
            data,
        ) == before.expected,
        UpdateReplyView::Missing(_) => before.phase == UpdatePhase::FetchingChecksum,
        _ => false,
    }
}

/// Nothing is installed unless its checksum was the one that was published for it, or the server
/// said that none is published.
pub proof fn nothing_is_installed_unverified(update: UpdateView, replies: Seq<UpdateReplyView>)
    requires
        !is_accepted(update.phase),
        is_accepted(after_replies(update, replies).phase),
    ensures
        exists|i: int| 0 <= i < replies.len() && #[trigger] accepted_at(update, replies, i),
    decreases replies.len(),
{
    let n = replies.len() as int;
    if n == 0 {
        assert(after_replies(update, replies) == update);
    } else {
        let rest = replies.drop_last();
        assert(rest =~= replies.take(n - 1));
        if is_accepted(after_replies(update, rest).phase) {
            nothing_is_installed_unverified(update, rest);
            let i = choose|i: int| 0 <= i < rest.len() && #[trigger] accepted_at(update, rest, i);
            assert(rest.take(i) =~= replies.take(i));
            assert(accepted_at(update, replies, i));
        } else {
            assert(accepted_at(update, replies, n - 1));
        }
    }
}

/// Where it is not known whether a checksum is published, the update fails.
pub proof fn unanswered_checksum_request_fails(update: UpdateView, reason: Seq<char>)
    requires
        update.phase == UpdatePhase::FetchingChecksum,
    ensures
        update.next(UpdateReplyView::NoAnswer(reason)) == update.failed(
            UpdateErrorView::ChecksumUnavailable(reason),
        ),
{
}

/// An update that looks for a release first never goes back behind this program: the version
/// that it downloads is later.
pub proof fn checked_update_goes_forward(
    os: Seq<char>,
    arch: Seq<char>,
    tag: Option<Seq<char>>,
)
    ensures
        ({
            let next = fresh_update(os, arch).next(UpdateReplyView::LatestTag(tag));
            next.phase == UpdatePhase::Downloading ==> crate::version::is_later(
                crate::version::version_of(next.version),
                crate::version::version_of(VERSION@),
            )
        }),
{
}

/// A download whose checksum differs from the one named for it is never installed, whatever
/// comes after: the update fails.
pub proof fn mismatch_is_never_installed(
    update: UpdateView,
    data: Seq<u8>,
    replies: Seq<UpdateReplyView>,
)
    requires
        update.phase == UpdatePhase::ReadingDownload,
        checksum_of(data) != update.expected,
    ensures
        ({
            let end = after_replies(update.next(UpdateReplyView::Data(data)), replies);
            end.phase == UpdatePhase::Discarding || end.phase == UpdatePhase::Failed
        }),
    decreases replies.len(),
{
    if replies.len() > 0 {
        mismatch_is_never_installed(update, data, replies.drop_last());
    }
}

/// The running program is overwritten only after it has been renamed to its backup.
pub proof fn backup_precedes_copy(update: UpdateView, reply: UpdateReplyView)
    requires
        update.phase != UpdatePhase::Copying,
        update.next(reply).phase == UpdatePhase::Copying,
    ensures
        update.phase == UpdatePhase::BackingUp,
        reply == UpdateReplyView::Done,
{
}

/// An update that is over stays as it is.
pub proof fn update_stays_over(update: UpdateView, reply: UpdateReplyView)
    requires
        update.phase == UpdatePhase::Installed || update.phase == UpdatePhase::Failed,
    ensures
        update.next(reply) == update,
{
}

/// Whether a reason is at hand where the update has failed, or is about to.
pub open spec fn has_reason(update: UpdateView) -> bool {
    update.phase == UpdatePhase::Failed || update.phase == UpdatePhase::Discarding
        ==> update.error is Some
}

/// An update that fails has a reason.
pub proof fn failure_has_a_reason(update: UpdateView, reply: UpdateReplyView)
    requires
        has_reason(update),
    ensures
        has_reason(update.next(reply)),
{
}

/// A release is found exactly if it is later than this program: then the update is to the
/// version that its tag names, whatever that is, and else there is none. How many `v` the tag
/// begins with does not matter.
pub proof fn later_release_is_found(tag: Seq<char>)
    ensures
        ({
            let version = crate::text::without_leading(tag, 'v');
            let later = crate::version::is_later(
                crate::version::version_of(version),
                crate::version::version_of(VERSION@),
            );
            &&& later ==> newer_version(Some(tag)) == Some(version)
            &&& !later ==> newer_version(Some(tag)) is None
        }),
        newer_version(Some(seq!['v'] + tag)) == newer_version(Some(tag)),
        newer_version(None) is None,
{
    assert((seq!['v'] + tag).drop_first() =~= tag);
}

/// Releases are compared by their numbers, the first of which counts most: `0.10.0` is later than
/// `0.5.5` and is found, although its text would be sorted before.
pub proof fn releases_are_compared_by_their_numbers(major: nat, minor: nat, patch: nat)
    ensures
        ({
            let version = crate::version::dotted(seq![major, minor, patch]);
            let later = major > 0 || minor > 5 || minor == 5 && patch > 5;
            &&& newer_version(Some(seq!['v'] + version)) == newer_version(Some(version))
            &&& newer_version(Some(version)) == if later {
                Some(version)
            } else {
                None
            }
        }),
{
    let numbers = seq![major, minor, patch];
    let version = crate::version::dotted(numbers);
    let this = seq![0nat, 5, 5];
    later_release_is_found(version);
    crate::version::versions_are_read_as_written(numbers, Seq::empty());
    crate::version::versions_are_read_as_written(this, Seq::empty());
    this_version_is_dotted();
    let texts = numbers.map_values(|n: nat| crate::text::decimal_text(n));
    crate::text::numbers_are_written_without_leading_zeros(major);
    assert(crate::text::is_digit(texts[0][0]));
    assert(version[0] == texts[0][0]);
    assert(crate::text::without_leading(version, 'v') == version);
    reveal_with_fuel(crate::version::lexicographic, 4);
}

proof fn this_version_is_dotted()
    ensures
        VERSION@ == crate::version::dotted(seq![0nat, 5, 5]),
{
    reveal_strlit("0.5.5");
    let texts = seq![0nat, 5, 5].map_values(|n: nat| crate::text::decimal_text(n));
    reveal_with_fuel(crate::text::separated, 4);
    assert(texts =~= seq![seq!['0'], seq!['5'], seq!['5']]);
    assert(texts.drop_first() =~= seq![seq!['5'], seq!['5']]);
    assert(texts.drop_first().drop_first() =~= seq![seq!['5']]);
    assert(VERSION@ =~= crate::version::dotted(seq![0nat, 5, 5]));
}

/// Releases are looked for, and downloaded from, where they are published.
pub proof fn releases_come_from_where_they_are_published(name: Seq<char>)
    ensures
        api_url() == "https://api.github.com/repos/eralpkaraduman/lego-radio/releases/latest"@,
        release_file_url(name)
            == "https://github.com/eralpkaraduman/lego-radio/releases/latest/download/"@ + name,
{
    reveal_strlit("https://api.github.com/repos/");
    reveal_strlit("eralpkaraduman/lego-radio");
    reveal_strlit("/releases/latest");
    reveal_strlit("https://api.github.com/repos/eralpkaraduman/lego-radio/releases/latest");
    assert(api_url()
        =~= "https://api.github.com/repos/eralpkaraduman/lego-radio/releases/latest"@);
    reveal_strlit("https://github.com/");
    reveal_strlit("/releases/latest/download/");
    reveal_strlit("https://github.com/eralpkaraduman/lego-radio/releases/latest/download/");
    assert("https://github.com/"@ + GITHUB_REPO@ + "/releases/latest/download/"@
        =~= "https://github.com/eralpkaraduman/lego-radio/releases/latest/download/"@);
    assert(release_file_url(name)
        =~= "https://github.com/eralpkaraduman/lego-radio/releases/latest/download/"@ + name);
}

/// A binary is published for Linux on 64-bit ARM, and for nothing else.
pub proof fn one_platform_is_supported(os: Seq<char>, arch: Seq<char>)
    ensures
        is_supported("linux"@, "aarch64"@),
        is_supported(os, arch) ==> os == "linux"@ && arch == "aarch64"@,
        ARM64_BINARY@ == "lego-radio-arm64"@,
{
}

/// A checksum stands for a digest: it is written in hexadecimal digits, and downloads have the
/// same checksum exactly if they have the same digest.
pub proof fn checksum_stands_for_the_digest(a: Seq<u8>, b: Seq<u8>)
    ensures
        checksum_of(a) == crate::text::hex_text(sha256_digest(a)),
        checksum_of(a) == checksum_of(b) <==> sha256_digest(a) == sha256_digest(b),
{
    if checksum_of(a) == checksum_of(b) {
        crate::text::writing_bytes_loses_nothing(sha256_digest(a), sha256_digest(b));
    }
}

/// A checksum file names the checksum by its first word, whatever follows, such as the name of
/// the file. A file of white space names nothing.
pub proof fn first_word_is_the_checksum(pad: Seq<char>, word: Seq<char>, tail: Seq<char>)
    requires
        forall|i: int| 0 <= i < pad.len() ==> crate::text::is_space(#[trigger] pad[i]),
        forall|i: int| 0 <= i < word.len() ==> !crate::text::is_space(#[trigger] word[i]),
        word.len() > 0,
        tail.len() > 0 ==> crate::text::is_space(tail[0]),
    ensures
        named_checksum(pad + word + tail) == word,
        named_checksum(pad) == Seq::<char>::empty(),
{
    let none = Seq::<char>::empty();
    crate::text::leading_white_space_adds_no_word(pad, word + tail);
    assert(pad + word + tail =~= pad + (word + tail));
    crate::text::words_end_at_white_space(word, ' ', none);
    if tail.len() > 0 {
        crate::text::words_end_at_white_space(word, tail[0], tail.drop_first());
        assert(word.push(tail[0]) + tail.drop_first() =~= word + tail);
        assert((seq![word] + crate::text::words(tail.drop_first()))[0] == word);
    } else {
        assert(word + tail =~= word);
    }
    crate::text::leading_white_space_adds_no_word(pad, none);
    assert(pad + none =~= pad);
}

/// An error says in words what it holds.
pub proof fn errors_are_put_in_words(a: Seq<char>, b: Seq<char>)
    ensures
        error_text(UpdateErrorView::UpToDate) == "Already up to date (v"@ + VERSION@ + ")"@,
        error_text(UpdateErrorView::UnsupportedPlatform { os: a, arch: b })
            == "Unsupported platform: "@ + a + "-"@ + b,
        error_text(UpdateErrorView::DownloadFailed(a)) == "Download failed: "@ + a,
        error_text(UpdateErrorView::ChecksumUnavailable(a)) == "Failed to fetch checksum: "@ + a,
        error_text(UpdateErrorView::ChecksumUnreadable(a)) == "Failed to read checksum: "@ + a,
        error_text(UpdateErrorView::ChecksumMismatch { expected: a, actual: b })
            == "Checksum mismatch: expected "@ + a + " got "@ + b,
        error_text(UpdateErrorView::Io(a)) == a,
{
}

/// Replies and errors are taken as what they are.
pub proof fn replies_and_errors_are_taken_as_they_are(reply: UpdateReply, error: UpdateError)
    ensures
        reply is LatestTag <==> reply@ is LatestTag,
        reply matches UpdateReply::LatestTag(Some(tag)) ==> reply@ == UpdateReplyView::LatestTag(
            Some(tag@),
        ),
        reply matches UpdateReply::LatestTag(None) ==> reply@ == UpdateReplyView::LatestTag(None),
        reply is Done <==> reply@ is Done,
        reply matches UpdateReply::Failed(e) ==> reply@ == UpdateReplyView::Failed(e@),
        reply matches UpdateReply::NoAnswer(e) ==> reply@ == UpdateReplyView::NoAnswer(e@),
        reply matches UpdateReply::Missing(e) ==> reply@ == UpdateReplyView::Missing(e@),
        reply matches UpdateReply::Checksum(body) ==> reply@ == UpdateReplyView::Checksum(body@),
        reply matches UpdateReply::Data(data) ==> reply@ == UpdateReplyView::Data(data@),
        reply matches UpdateReply::Located(path) ==> reply@ == UpdateReplyView::Located(path@),
        error is UpToDate <==> error@ is UpToDate,
        error matches UpdateError::UnsupportedPlatform { os, arch } ==> error@ == (
        UpdateErrorView::UnsupportedPlatform { os: os@, arch: arch@ }),
        error matches UpdateError::DownloadFailed(e) ==> error@
            == UpdateErrorView::DownloadFailed(e@),
        error matches UpdateError::ChecksumUnavailable(e) ==> error@
            == UpdateErrorView::ChecksumUnavailable(e@),
        error matches UpdateError::ChecksumUnreadable(e) ==> error@
            == UpdateErrorView::ChecksumUnreadable(e@),
        error matches UpdateError::ChecksumMismatch { expected, actual } ==> error@ == (
        UpdateErrorView::ChecksumMismatch { expected: expected@, actual: actual@ }),
        error matches UpdateError::Io(e) ==> error@ == UpdateErrorView::Io(e@),
        error_view(Some(error)) == Some(error@),
        error_view(None) is None,
{
}

/// An update begins with the search for a release, with nothing known of it.
pub proof fn update_begins_with_the_search(os: Seq<char>, arch: Seq<char>)
    ensures
        fresh_update(os, arch).phase == UpdatePhase::Checking,
        fresh_update(os, arch).os == os,
        fresh_update(os, arch).arch == arch,
        fresh_update(os, arch).error is None,
{
}

/// A version is downloaded where there is a binary for the platform; else the update fails and
/// names the platform.
pub proof fn version_is_downloaded_for_the_platform(update: UpdateView, version: Seq<char>)
    ensures
        update.os == "linux"@ && update.arch == "aarch64"@ ==> update.to_version(version) == (
        UpdateView {
            phase: UpdatePhase::Downloading,
            version,
            url: release_file_url("lego-radio-arm64"@),
            ..update
        }),
        update.os != "linux"@ || update.arch != "aarch64"@ ==> update.to_version(version) == (
        UpdateView {
            phase: UpdatePhase::Failed,
            version,
            error: Some(
                UpdateErrorView::UnsupportedPlatform { os: update.os, arch: update.arch },
            ),
            ..update
        }),
{
}

/// A release that is found is the version of the update from then on. Where none is found, all
/// is up to date.
pub proof fn found_release_is_downloaded(update: UpdateView, tag: Option<Seq<char>>)
    requires
        update.phase == UpdatePhase::Checking,
    ensures
        ({
            let next = update.next(UpdateReplyView::LatestTag(tag));
            match newer_version(tag) {
                Some(version) => next == update.to_version(version) && next.version == version,
                None => next == (UpdateView {
                    phase: UpdatePhase::Failed,
                    error: Some(UpdateErrorView::UpToDate),
                    ..update
                }),
            }
        }),
{
}

/// What is done leads to what comes next: the download, its checksum, the download made
/// executable, the running program put aside, the download in its place, made executable, and
/// both the download and the backup removed. Nothing else of the update changes.
pub proof fn update_goes_step_by_step(update: UpdateView, path: Seq<char>)
    ensures
        ({
            let done = update.next(UpdateReplyView::Done);
            &&& update.phase == UpdatePhase::Downloading ==> done == (UpdateView {
                phase: UpdatePhase::FetchingChecksum,
                ..update
            })
            &&& update.phase == UpdatePhase::MarkingDownload ==> done == (UpdateView {
                phase: UpdatePhase::Locating,
                ..update
            })
            &&& update.phase == UpdatePhase::Locating ==> update.next(
                UpdateReplyView::Located(path),
            ) == (UpdateView {
                phase: UpdatePhase::DroppingOldBackup,
                current_exe: path,
                ..update
            })
            &&& update.phase == UpdatePhase::DroppingOldBackup ==> done == (UpdateView {
                phase: UpdatePhase::BackingUp,
                ..update
            })
            &&& update.phase == UpdatePhase::BackingUp ==> done == (UpdateView {
                phase: UpdatePhase::Copying,
                ..update
            })
            &&& update.phase == UpdatePhase::Copying ==> done == (UpdateView {
                phase: UpdatePhase::MarkingCurrent,
                ..update
            })
            &&& update.phase == UpdatePhase::MarkingCurrent ==> done == (UpdateView {
                phase: UpdatePhase::DroppingDownload,
                ..update
            })
            &&& update.phase == UpdatePhase::DroppingDownload ==> done == (UpdateView {
                phase: UpdatePhase::DroppingBackup,
                ..update
            })
            &&& update.phase == UpdatePhase::DroppingBackup ==> done == (UpdateView {
                phase: UpdatePhase::Installed,
                ..update
            })
            &&& update.phase == UpdatePhase::Discarding ==> done == (UpdateView {
                phase: UpdatePhase::Failed,
                ..update
            })
        }),
{
}

/// The download passes exactly if it has the checksum that was published, or if the server says
/// that none is; else it is discarded, and the error names both checksums.
pub proof fn download_is_held_to_its_checksum(
    update: UpdateView,
    body: Seq<char>,
    data: Seq<u8>,
    reason: Seq<char>,
)
    requires
        update.phase == UpdatePhase::FetchingChecksum,
    ensures
        ({
            let named = update.next(UpdateReplyView::Checksum(body));
            let judged = named.next(UpdateReplyView::Data(data));
            &&& named == (UpdateView {
                phase: UpdatePhase::ReadingDownload,
                expected: named_checksum(body),
                ..update
            })
            &&& checksum_of(data) == named_checksum(body) ==> judged == (UpdateView {
                phase: UpdatePhase::MarkingDownload,
                ..named
            })
            &&& checksum_of(data) != named_checksum(body) ==> judged == (UpdateView {
                phase: UpdatePhase::Discarding,
                error: Some(
                    UpdateErrorView::ChecksumMismatch {
                        expected: named_checksum(body),
                        actual: checksum_of(data),
                    },
                ),
                ..named
            })
            &&& update.next(UpdateReplyView::Missing(reason)) == (UpdateView {
                phase: UpdatePhase::MarkingDownload,
                ..update
            })
        }),
{
}

/// Whatever text the checksum of a download is, it is held to the one that was named.
pub proof fn judging_compares_the_texts(update: UpdateView, actual: Seq<char>)
    ensures
        actual == update.expected ==> update.judged(actual) == (UpdateView {
            phase: UpdatePhase::MarkingDownload,
            ..update
        }),
        actual != update.expected ==> update.judged(actual) == (UpdateView {
            phase: UpdatePhase::Discarding,
            error: Some(UpdateErrorView::ChecksumMismatch { expected: update.expected, actual }),
            ..update
        }),
{
}

/// What fails ends the update with its reason, except for removing what need not be there.
pub proof fn failures_end_the_update(update: UpdateView, reason: Seq<char>)
    ensures
        ({
            let failed = update.next(UpdateReplyView::Failed(reason));
            let unanswered = update.next(UpdateReplyView::NoAnswer(reason));
            let missing = update.next(UpdateReplyView::Missing(reason));
            let io = UpdateView {
                phase: UpdatePhase::Failed,
                error: Some(UpdateErrorView::Io(reason)),
                ..update
            };
            &&& update.phase == UpdatePhase::Downloading ==> failed == io
            &&& update.phase == UpdatePhase::Downloading ==> unanswered == missing && missing == (
            UpdateView {
                phase: UpdatePhase::Failed,
                error: Some(UpdateErrorView::DownloadFailed(reason)),
                ..update
            })
            &&& update.phase == UpdatePhase::FetchingChecksum ==> failed == (UpdateView {
                phase: UpdatePhase::Failed,
                error: Some(UpdateErrorView::ChecksumUnreadable(reason)),
                ..update
            })
            &&& update.phase == UpdatePhase::FetchingChecksum ==> unanswered == (UpdateView {
                phase: UpdatePhase::Failed,
                error: Some(UpdateErrorView::ChecksumUnavailable(reason)),
                ..update
            })
            &&& update.phase == UpdatePhase::ReadingDownload ==> failed == io
            &&& update.phase == UpdatePhase::Discarding ==> failed == io
            &&& update.phase == UpdatePhase::MarkingDownload ==> failed == io
            &&& update.phase == UpdatePhase::Locating ==> failed == io
            &&& update.phase == UpdatePhase::BackingUp ==> failed == io
            &&& update.phase == UpdatePhase::Copying ==> failed == io
            &&& update.phase == UpdatePhase::MarkingCurrent ==> failed == io
            &&& update.phase == UpdatePhase::DroppingOldBackup ==> failed == update.next(
                UpdateReplyView::Done,
            )
            &&& update.phase == UpdatePhase::DroppingDownload ==> failed == update.next(
                UpdateReplyView::Done,
            )
            &&& update.phase == UpdatePhase::DroppingBackup ==> failed == update.next(
                UpdateReplyView::Done,
            )
        }),
{
}

/// A reply that is not the answer to what had to be done changes nothing.
pub proof fn unasked_reply_changes_nothing(update: UpdateView, reply: UpdateReplyView)
    requires
        reply is LatestTag ==> update.phase != UpdatePhase::Checking,
        reply is Checksum ==> update.phase != UpdatePhase::FetchingChecksum,
        reply is Data ==> update.phase != UpdatePhase::ReadingDownload,
        reply is Located ==> update.phase != UpdatePhase::Locating,
        reply is NoAnswer || reply is Missing ==> update.phase != UpdatePhase::Downloading
            && update.phase != UpdatePhase::FetchingChecksum,
        reply is Done ==> update.phase == UpdatePhase::Checking || update.phase
            == UpdatePhase::FetchingChecksum || update.phase == UpdatePhase::ReadingDownload
            || update.phase == UpdatePhase::Locating || update.phase == UpdatePhase::Installed
            || update.phase == UpdatePhase::Failed,
        reply is Failed ==> update.phase == UpdatePhase::Checking || update.phase
            == UpdatePhase::Installed || update.phase == UpdatePhase::Failed,
    ensures
        update.next(reply) == update,
{
}

} // verus!
