//! Keeping a local copy of a remote extract current.
//!
//! The caller looks at the disk and talks to the network; the machine decides.
//! A local file that is absent is downloaded. One that is there is checked
//! against the remote checksum manifest first: the manifest must have its two
//! fields and name the local file, and only then is the file read and its
//! digest compared. Equal digests leave the file as it is; unequal ones lead
//! to a download. Nothing is tried twice.

use crate::digest::{md5_hex, md5_hex_of, same_digest};
use crate::manifest::{
    base_name, digest_field, file_name_of, has_two_fields, name_field, parse_manifest,
};
use crate::text::same_ignoring_case;
use vstd::prelude::*;

verus! {

/// Why a local copy could not be made current.
#[derive(Debug, Clone, Copy, PartialEq, Eq, Structural)]
pub enum FetchError {
    /// The remote side could not be reached or broke off.
    Network,
    /// The checksum manifest lacks one of its two fields.
    ChecksumFormat,
    /// The checksum manifest is for a file of another name.
    FileNameMismatch,
    /// The local file could not be read or written.
    Io,
}

/// Where the check of a local copy stands.
#[derive(Debug, Clone, Copy, PartialEq, Eq, Structural)]
pub enum FetchState {
    /// It is not yet known whether the local file exists.
    Probing,
    /// The local file exists; the manifest has been asked for.
    AwaitingManifest,
    /// The manifest is in order; the local file's contents have been asked for.
    AwaitingContents,
    /// The download is under way.
    Downloading,
    /// Done: the local file was current and nothing was downloaded.
    UpToDate,
    /// Done: the file was downloaded.
    Downloaded,
    /// Given up.
    Failed(FetchError),
}

/// What the caller reports.
#[derive(Debug)]
pub enum FetchEvent {
    /// Whether the local file exists.
    Local(bool),
    /// The text of the checksum manifest.
    Manifest(String),
    /// The full contents of the local file.
    Contents(Vec<u8>),
    /// The download is complete and the file is in place.
    Downloaded,
    /// A request to the remote side failed.
    NetworkFailed,
    /// Reading or writing the local file failed.
    IoFailed,
}

/// What a [`FetchEvent`] holds.
pub enum FetchEventView {
    Local(bool),
    Manifest(Seq<char>),
    Contents(Seq<u8>),
    Downloaded,
    NetworkFailed,
    IoFailed,
}

impl View for FetchEvent {
    type V = FetchEventView;

    open spec fn view(&self) -> FetchEventView {
        match self {
            FetchEvent::Local(there) => FetchEventView::Local(*there),
            FetchEvent::Manifest(text) => FetchEventView::Manifest(text@),
            FetchEvent::Contents(bytes) => FetchEventView::Contents(bytes@),
            FetchEvent::Downloaded => FetchEventView::Downloaded,
            FetchEvent::NetworkFailed => FetchEventView::NetworkFailed,
            FetchEvent::IoFailed => FetchEventView::IoFailed,
        }
    }
}

/// What the caller is to do next.
#[derive(Debug, Clone, Copy, PartialEq, Eq, Structural)]
pub enum FetchAction {
    /// Get the checksum manifest and hand its text over.
    FetchManifest,
    /// Read the local file and hand its contents over.
    ReadLocal,
    /// Download the remote file to the local path and report it.
    Download,
    /// Nothing more: the local copy is current.
    Finish,
    /// Nothing more: the check has failed.
    Fail(FetchError),
    /// The event was not expected in this state, and nothing has changed.
    Refuse,
}

/// What a [`Fetcher`] holds.
pub struct FetcherView {
    pub state: FetchState,
    /// The name of the local file in its directory.
    pub local_name: Seq<char>,
    /// The digest that the manifest gave, once it is known.
    pub digest: Seq<char>,
}

/// The machine before the first event, for the file at `local_path`.
pub open spec fn initial(local_path: Seq<char>) -> FetcherView {
    FetcherView {
        state: FetchState::Probing,
        local_name: base_name(local_path),
        digest: Seq::empty(),
    }
}

/// Whether a run is still under way in `state`.
pub open spec fn is_active(state: FetchState) -> bool {
    state == FetchState::Probing || state == FetchState::AwaitingManifest || state
        == FetchState::AwaitingContents || state == FetchState::Downloading
}

/// The machine after the local file's digest was found to be `local`, and
/// what the caller is to do: a file with the digest of the manifest is current,
/// any other is downloaded. The digests are compared as hexadecimal text,
/// without regard to case.
pub open spec fn compared(m: FetcherView, local: Seq<char>) -> (FetcherView, FetchAction) {
    if m.state != FetchState::AwaitingContents {
        (m, FetchAction::Refuse)
    } else if same_ignoring_case(m.digest, local) {
        (FetcherView { state: FetchState::UpToDate, ..m }, FetchAction::Finish)
    } else {
        (FetcherView { state: FetchState::Downloading, ..m }, FetchAction::Download)
    }
}

/// The machine after `event`, and what the caller is to do.
pub open spec fn step_of(m: FetcherView, event: FetchEventView) -> (FetcherView, FetchAction) {
    match (m.state, event) {
        (FetchState::Probing, FetchEventView::Local(there)) => if there {
            (FetcherView { state: FetchState::AwaitingManifest, ..m }, FetchAction::FetchManifest)
        } else {
            (FetcherView { state: FetchState::Downloading, ..m }, FetchAction::Download)
        },
        (FetchState::AwaitingManifest, FetchEventView::Manifest(text)) => if !has_two_fields(
            text,
        ) {
            (
                FetcherView { state: FetchState::Failed(FetchError::ChecksumFormat), ..m },
                FetchAction::Fail(FetchError::ChecksumFormat),
            )
        } else if name_field(text) != m.local_name {
            (
                FetcherView { state: FetchState::Failed(FetchError::FileNameMismatch), ..m },
                FetchAction::Fail(FetchError::FileNameMismatch),
            )
        } else {
            (
                FetcherView {
                    state: FetchState::AwaitingContents,
                    digest: digest_field(text),
                    ..m
                },
                FetchAction::ReadLocal,
            )
        },
        (FetchState::AwaitingContents, FetchEventView::Contents(bytes)) => compared(
            m,
            md5_hex(bytes),
        ),
        (FetchState::Downloading, FetchEventView::Downloaded) => (
            FetcherView { state: FetchState::Downloaded, ..m },
            FetchAction::Finish,
        ),
        (_, FetchEventView::NetworkFailed) => if is_active(m.state) {
            (
                FetcherView { state: FetchState::Failed(FetchError::Network), ..m },
                FetchAction::Fail(FetchError::Network),
            )
        } else {
            (m, FetchAction::Refuse)
        },
        (_, FetchEventView::IoFailed) => if is_active(m.state) {
            (
                FetcherView { state: FetchState::Failed(FetchError::Io), ..m },
                FetchAction::Fail(FetchError::Io),
            )
        } else {
            (m, FetchAction::Refuse)
        },
        _ => (m, FetchAction::Refuse),
    }
}

/// A machine that decides how a local copy is made current.
pub struct Fetcher {
    state: FetchState,
    local_name: String,
    digest: String,
}

impl View for Fetcher {
    type V = FetcherView;

    closed spec fn view(&self) -> FetcherView {
        FetcherView { state: self.state, local_name: self.local_name@, digest: self.digest@ }
    }
}

impl Fetcher {
    /// A machine for the local file at `local_path`.
    pub fn new(local_path: &str) -> (m: Fetcher)
        ensures
            m@ == initial(local_path@),
    {
        Fetcher {
            state: FetchState::Probing,
            local_name: file_name_of(local_path),
            digest: String::new(),
        }
    }

    /// Where the check stands.
    pub fn state(&self) -> (s: FetchState)
        ensures
            s == self@.state,
    {
        self.state
    }

    /// What has come of the check: nothing yet, success, or the failure.
    pub fn outcome(&self) -> (r: Option<Result<(), FetchError>>)
        ensures
            r == match self@.state {
                FetchState::UpToDate | FetchState::Downloaded => Some(Ok::<(), FetchError>(())),
                FetchState::Failed(e) => Some(Err::<(), FetchError>(e)),
                _ => None::<Result<(), FetchError>>,
            },
    {
        match self.state {
            FetchState::UpToDate | FetchState::Downloaded => Some(Ok(())),
            FetchState::Failed(e) => Some(Err(e)),
            _ => None,
        }
    }

    fn fail(&mut self, error: FetchError) -> (action: FetchAction)
        ensures
            final(self)@ == (FetcherView { state: FetchState::Failed(error), ..old(self)@ }),
            action == FetchAction::Fail(error),
    {
        self.state = FetchState::Failed(error);
        FetchAction::Fail(error)
    }

    /// Takes the digest of the local file's contents, in hexadecimal, and says
    /// what to do next. It is refused where the contents were not asked for.
    pub fn compare(&mut self, local_digest: &str) -> (action: FetchAction)
        ensures
            (final(self)@, action) == compared(old(self)@, local_digest@),
    {
        match self.state {
            FetchState::AwaitingContents => {
                if same_digest(self.digest.as_str(), local_digest) {
                    self.state = FetchState::UpToDate;
                    FetchAction::Finish
                } else {
                    self.state = FetchState::Downloading;
                    FetchAction::Download
                }
            },
            _ => FetchAction::Refuse,
        }
    }

    /// Takes what the caller reports and says what to do next.
    pub fn step(&mut self, event: FetchEvent) -> (action: FetchAction)
        ensures
            (final(self)@, action) == step_of(old(self)@, event@),
    {
        let active = match self.state {
            FetchState::Probing
            | FetchState::AwaitingManifest
            | FetchState::AwaitingContents
            | FetchState::Downloading => true,
            _ => false,
        };
        match (self.state, event) {
            (FetchState::Probing, FetchEvent::Local(there)) => {
                if there {
                    self.state = FetchState::AwaitingManifest;
                    FetchAction::FetchManifest
                } else {
                    self.state = FetchState::Downloading;
                    FetchAction::Download
                }
            },
            (FetchState::AwaitingManifest, FetchEvent::Manifest(text)) => {
                match parse_manifest(text.as_str()) {
                    None => self.fail(FetchError::ChecksumFormat),
                    Some(manifest) => {
                        if manifest.file_name != self.local_name {
                            self.fail(FetchError::FileNameMismatch)
                        } else {
                            self.digest = manifest.digest;
                            self.state = FetchState::AwaitingContents;
                            FetchAction::ReadLocal
                        }
                    },
                }
            },
            (FetchState::AwaitingContents, FetchEvent::Contents(bytes)) => {
                let local = md5_hex_of(bytes.as_slice());
                self.compare(local.as_str())
            },
            (FetchState::Downloading, FetchEvent::Downloaded) => {
                self.state = FetchState::Downloaded;
                FetchAction::Finish
            },
            (_, FetchEvent::NetworkFailed) => {
                if active {
                    self.fail(FetchError::Network)
                } else {
                    FetchAction::Refuse
                }
            },
            (_, FetchEvent::IoFailed) => {
                if active {
                    self.fail(FetchError::Io)
                } else {
                    FetchAction::Refuse
                }
            },
            _ => FetchAction::Refuse,
        }
    }
}

/// The checksum gate. For a local file that is there, with a manifest that is
/// in order and names it: a file whose digest is the manifest's is left alone,
/// and the run ends without a download; any other file is downloaded.
pub proof fn lemma_checksum_gate(local_path: Seq<char>, text: Seq<char>, contents: Seq<u8>)
    requires
        has_two_fields(text),
        name_field(text) == base_name(local_path),
    ensures
        ({
            let probed = step_of(initial(local_path), FetchEventView::Local(true));
            let checked = step_of(probed.0, FetchEventView::Manifest(text));
            let compared = step_of(checked.0, FetchEventView::Contents(contents));
            &&& probed.1 == FetchAction::FetchManifest
            &&& checked.1 == FetchAction::ReadLocal
            &&& same_ignoring_case(digest_field(text), md5_hex(contents)) ==> compared.1
                == FetchAction::Finish && compared.0.state == FetchState::UpToDate
            &&& !same_ignoring_case(digest_field(text), md5_hex(contents)) ==> compared.1
                == FetchAction::Download && compared.0.state == FetchState::Downloading
        }),
{
}

/// A manifest that lacks a field ends the run with `ChecksumFormat` at once:
/// the local file is not asked for, and whatever is reported afterwards is
/// refused, so no digest is ever compared.
pub proof fn lemma_bad_manifest_stops(local_path: Seq<char>, text: Seq<char>, later: FetchEventView)
    requires
        !has_two_fields(text),
    ensures
        ({
            let probed = step_of(initial(local_path), FetchEventView::Local(true));
            let checked = step_of(probed.0, FetchEventView::Manifest(text));
            &&& checked.1 == FetchAction::Fail(FetchError::ChecksumFormat)
            &&& checked.0.state == FetchState::Failed(FetchError::ChecksumFormat)
            &&& step_of(checked.0, later) == (checked.0, FetchAction::Refuse)
        }),
{
}

/// A download is asked for in two cases only: the local file is absent, or its
/// digest is not the manifest's.
pub proof fn lemma_download_only_when_needed(m: FetcherView, event: FetchEventView)
    requires
        step_of(m, event).1 == FetchAction::Download,
    ensures
        (m.state == FetchState::Probing && event == FetchEventView::Local(false)) || (m.state
            == FetchState::AwaitingContents && event is Contents && !same_ignoring_case(
            m.digest,
            md5_hex(event->Contents_0),
        )),
{
}

/// A run that has ended stays as it is: every further event is refused.
pub proof fn lemma_ended_run_is_final(m: FetcherView, event: FetchEventView)
    requires
        !is_active(m.state),
    ensures
        step_of(m, event) == (m, FetchAction::Refuse),
{
}

/// How far a download has come: the bytes received so far, and the length of
/// the whole where the remote side has told it.
#[derive(Debug, Clone, Copy, PartialEq, Eq, Structural)]
pub struct Progress {
    pub transferred: u64,
    pub total: Option<u64>,
}

impl Progress {
    /// The progress before the first chunk.
    pub fn new(total: Option<u64>) -> (p: Progress)
        ensures
            p.transferred == 0,
            p.total == total,
    {
        Progress { transferred: 0, total }
    }

    /// Counts a chunk of `len` bytes. The count stops at the largest number
    /// that it can hold.
    pub fn record(&mut self, len: u64)
        ensures
            final(self).total == old(self).total,
            final(self).transferred == if old(self).transferred + len <= u64::MAX {
                (old(self).transferred + len) as u64
            } else {
                u64::MAX
            },
    {
        if len <= u64::MAX - self.transferred {
            self.transferred = self.transferred + len;
        } else {
            self.transferred = u64::MAX;
        }
    }

    /// Whether as many bytes were received as the remote side announced;
    /// nothing where it announced no length.
    pub fn is_complete(&self) -> (r: Option<bool>)
        ensures
            r == match self.total {
                Some(total) => Some(self.transferred == total),
                None => None::<bool>,
            },
    {
        match self.total {
            Some(total) => Some(self.transferred == total),
            None => None,
        }
    }
}

} // verus!
