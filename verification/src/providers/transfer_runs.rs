//! Whole uploads and downloads: what is asked, in which order, and what is told of it.
use crate::operations::ensure_not_cancelled;
use crate::paths::{asked_path, remote_path};
use crate::providers::files::{is_directory, is_directory_mode};
use crate::providers::transfers::{
    cleanup_of, download_cleanup, download_verdict, failed_progress, no_totals, occupied_text,
    progress_of, upload_destination, upload_target, upload_verdict, CleanupStep, Totals, Transfer, TransferView, UploadConflicts,
};
use crate::app_error::conflict_text;
use crate::identifiers::is_uuid;
use crate::models::{TransferProgress, TransferProgressView};
use crate::ssh::{join_path, joined_path, text_result, OPERATION_CANCELLED};
use crate::text::{chars_of, copy, glue2, glue3, opt_view};
use vstd::prelude::*;

verus! {

broadcast use vstd::string::group_string_axioms;

// ---------------------------------------------------------------------------
// Uploads
// ---------------------------------------------------------------------------

/// How far an upload has come.
#[derive(Clone, Copy, Debug, PartialEq, Eq, Structural)]
pub enum UploadStage {
    /// The source is looked at.
    Inspecting,
    /// The server is connected.
    Connecting,
    /// What would be overwritten is searched for.
    Searching,
    Sending,
    Ended,
}

/// An upload.
#[derive(Debug, PartialEq, Eq)]
pub struct UploadPath {
    pub local_path: String,
    pub remote_path: String,
    pub overwrite: bool,
    pub directory: bool,
    /// The name of the source, where it has one.
    pub name: Option<String>,
    pub transfer: Transfer,
    pub stage: UploadStage,
}

#[verifier::ext_equal]
pub struct UploadPathView {
    pub local_path: Seq<char>,
    pub remote_path: Seq<char>,
    pub overwrite: bool,
    pub directory: bool,
    pub name: Option<Seq<char>>,
    pub transfer: TransferView,
    pub stage: UploadStage,
}

impl View for UploadPath {
    type V = UploadPathView;

    open spec fn view(&self) -> UploadPathView {
        UploadPathView {
            local_path: self.local_path@,
            remote_path: self.remote_path@,
            overwrite: self.overwrite,
            directory: self.directory,
            name: opt_view(self.name),
            transfer: self.transfer@,
            stage: self.stage,
        }
    }
}

/// What came of the last step.
#[derive(Debug, PartialEq, Eq)]
pub enum UploadEvent {
    /// The source is not there.
    Missing,
    /// The source cannot be looked at.
    Unreadable(String),
    Found { directory: bool, total: Totals, name: Option<String> },
    Connected { cancelled: bool },
    Searched(UploadConflicts),
    Sent,
    Failed(String),
}

/// What is done next.
#[derive(Debug, PartialEq, Eq)]
pub enum UploadAction {
    /// The upload is told of, and the server connected.
    Connect(TransferProgress),
    /// Search for what would be overwritten.
    Search(String),
    Send(String),
    /// The upload is told of, and over.
    Done(TransferProgress),
    Fail { progress: TransferProgress, error: String },
    /// The upload never began, and nothing is told of it.
    Refuse(String),
    /// There is nothing to do at this stage.
    Nothing,
}

#[verifier::ext_equal]
pub enum UploadActionView {
    Connect(TransferProgressView),
    Search(Seq<char>),
    Send(Seq<char>),
    Done(TransferProgressView),
    Fail { progress: TransferProgressView, error: Seq<char> },
    Refuse(Seq<char>),
    Nothing,
}

impl View for UploadAction {
    type V = UploadActionView;

    open spec fn view(&self) -> UploadActionView {
        match *self {
            UploadAction::Connect(progress) => UploadActionView::Connect(progress@),
            UploadAction::Search(destination) => UploadActionView::Search(destination@),
            UploadAction::Send(destination) => UploadActionView::Send(destination@),
            UploadAction::Done(progress) => UploadActionView::Done(progress@),
            UploadAction::Fail { progress, error } => UploadActionView::Fail {
                progress: progress@,
                error: error@,
            },
            UploadAction::Refuse(error) => UploadActionView::Refuse(error@),
            UploadAction::Nothing => UploadActionView::Nothing,
        }
    }
}

/// Where an upload goes.
pub open spec fn upload_place(run: UploadPathView) -> Result<Seq<char>, Seq<char>> {
    upload_target(asked_path(run.remote_path), run.directory, run.name)
}

/// An upload that moves on to a stage.
pub open spec fn at_stage(run: UploadPathView, stage: UploadStage) -> UploadPathView {
    UploadPathView { stage, ..run }
}

/// An upload that failed.
pub open spec fn upload_failed(run: UploadPathView, error: Seq<char>) -> (
    UploadPathView,
    UploadActionView,
) {
    (
        at_stage(run, UploadStage::Ended),
        UploadActionView::Fail {
            progress: failed_progress(run.transfer, run.local_path, error),
            error,
        },
    )
}

/// The upload after a step, and what is done next.
pub open spec fn upload_step(run: UploadPathView, event: UploadEvent) -> (
    UploadPathView,
    UploadActionView,
) {
    match (run.stage, event) {
        (UploadStage::Inspecting, UploadEvent::Missing) => (
            at_stage(run, UploadStage::Ended),
            UploadActionView::Refuse("The local upload source does not exist"@),
        ),
        (UploadStage::Inspecting, UploadEvent::Unreadable(detail)) => (
            at_stage(run, UploadStage::Ended),
            UploadActionView::Refuse("Could not inspect upload source: "@ + detail@),
        ),
        (UploadStage::Inspecting, UploadEvent::Found { directory, total, name }) => {
            let found = UploadPathView {
                directory,
                name: opt_view(name),
                transfer: TransferView { total, ..run.transfer },
                stage: UploadStage::Connecting,
                ..run
            };
            (
                found,
                UploadActionView::Connect(progress_of(found.transfer, run.local_path, false)),
            )
        },
        (UploadStage::Connecting, UploadEvent::Connected { cancelled }) => if cancelled {
            upload_failed(run, OPERATION_CANCELLED@)
        } else {
            match upload_place(run) {
                Err(error) => upload_failed(run, error),
                Ok(place) => if run.overwrite {
                    (at_stage(run, UploadStage::Sending), UploadActionView::Send(place))
                } else {
                    (at_stage(run, UploadStage::Searching), UploadActionView::Search(place))
                },
            }
        },
        (UploadStage::Searching, UploadEvent::Searched(conflicts)) => if conflicts@.count > 0 {
            upload_failed(run, conflict_text(conflicts@.paths, conflicts@.count))
        } else {
            match upload_place(run) {
                Err(error) => upload_failed(run, error),
                Ok(place) => (
                    at_stage(run, UploadStage::Sending),
                    UploadActionView::Send(place),
                ),
            }
        },
        (UploadStage::Sending, UploadEvent::Sent) => (
            at_stage(run, UploadStage::Ended),
            UploadActionView::Done(progress_of(run.transfer, run.local_path, true)),
        ),
        (UploadStage::Connecting, UploadEvent::Failed(error))
        | (UploadStage::Searching, UploadEvent::Failed(error))
        | (UploadStage::Sending, UploadEvent::Failed(error)) => upload_failed(run, error@),
        _ => (run, UploadActionView::Nothing),
    }
}

impl UploadPath {
    /// An upload that has not begun. It has a random id.
    pub fn new(local_path: &str, remote_path: &str, overwrite: bool) -> (res: Self)
        ensures
            res@.local_path == local_path@,
            res@.remote_path == remote_path@,
            res@.overwrite == overwrite,
            res@.stage == UploadStage::Inspecting,
            res@.transfer.direction == "upload"@,
            is_uuid(res@.transfer.id),
            res@.transfer.total == no_totals(),
            res@.transfer.completed == no_totals(),
    {
        UploadPath {
            local_path: copy(local_path),
            remote_path: copy(remote_path),
            overwrite,
            directory: false,
            name: None,
            transfer: Transfer::start("upload"),
            stage: UploadStage::Inspecting,
        }
    }

    fn place(&self) -> (res: Result<String, String>)
        ensures
            text_result(res) == upload_place(self@),
    {
        upload_destination(
            remote_path(self.remote_path.as_str()).as_str(),
            self.directory,
            match &self.name {
                Some(name) => Some(name.as_str()),
                None => None,
            },
        )
    }

    fn fail(&mut self, error: String) -> (res: UploadAction)
        ensures
            (final(self)@, res@) == upload_failed(old(self)@, error@),
    {
        self.stage = UploadStage::Ended;
        let progress = self.transfer.failed(self.local_path.as_str(), error.as_str());
        UploadAction::Fail { progress, error }
    }

    /// Takes what came of the last step, and says what is done next.
    pub fn upload_path(&mut self, event: UploadEvent) -> (res: UploadAction)
        ensures
            (final(self)@, res@) == upload_step(old(self)@, event),
    {
        match (self.stage, event) {
            (UploadStage::Inspecting, UploadEvent::Missing) => {
                self.stage = UploadStage::Ended;
                UploadAction::Refuse(copy("The local upload source does not exist"))
            },
            (UploadStage::Inspecting, UploadEvent::Unreadable(detail)) => {
                self.stage = UploadStage::Ended;
                UploadAction::Refuse(glue2("Could not inspect upload source: ", detail.as_str()))
            },
            (UploadStage::Inspecting, UploadEvent::Found { directory, total, name }) => {
                self.directory = directory;
                self.name = name;
                self.transfer.set_total(total);
                self.stage = UploadStage::Connecting;
                UploadAction::Connect(self.transfer.progress(self.local_path.as_str(), false))
            },
            (UploadStage::Connecting, UploadEvent::Connected { cancelled }) => {
                match ensure_not_cancelled(cancelled) {
                    Ok(()) => {},
                    Err(error) => return self.fail(error),
                }
                match self.place() {
                    Err(error) => self.fail(error),
                    Ok(place) => if self.overwrite {
                        self.stage = UploadStage::Sending;
                        UploadAction::Send(place)
                    } else {
                        self.stage = UploadStage::Searching;
                        UploadAction::Search(place)
                    },
                }
            },
            (UploadStage::Searching, UploadEvent::Searched(conflicts)) => {
                match upload_verdict(&conflicts, false) {
                    Ok(()) => {},
                    Err(error) => return self.fail(error),
                }
                match self.place() {
                    Err(error) => self.fail(error),
                    Ok(place) => {
                        self.stage = UploadStage::Sending;
                        UploadAction::Send(place)
                    },
                }
            },
            (UploadStage::Sending, UploadEvent::Sent) => {
                self.stage = UploadStage::Ended;
                UploadAction::Done(self.transfer.progress(self.local_path.as_str(), true))
            },
            (UploadStage::Connecting, UploadEvent::Failed(error))
            | (UploadStage::Searching, UploadEvent::Failed(error))
            | (UploadStage::Sending, UploadEvent::Failed(error)) => self.fail(error),
            _ => UploadAction::Nothing,
        }
    }
}

/// Nothing is sent that could overwrite a file, unless that was asked for: without that,
/// sending begins only behind a search that found nothing.
pub proof fn nothing_is_overwritten_unasked(run: UploadPathView, event: UploadEvent)
    requires
        upload_step(run, event).1 is Send,
    ensures
        run.overwrite || (event matches UploadEvent::Searched(conflicts) && conflicts@.count == 0),
{
}

/// An upload that was told of is told of again when it ends, whichever way it ends; and one
/// that never began is not told of at all.
pub proof fn ends_are_told(run: UploadPathView, event: UploadEvent)
    ensures
        ({
            let (after, action) = upload_step(run, event);
            &&& run.stage != UploadStage::Inspecting && run.stage != UploadStage::Ended
                && after.stage == UploadStage::Ended ==> (action is Done && action->Done_0.done)
                || (action is Fail && action->progress.done && action->progress.error == Some(
                action->error,
            ))
            &&& run.stage == UploadStage::Inspecting && after.stage == UploadStage::Ended
                ==> action is Refuse
            &&& run.stage == UploadStage::Ended ==> after == run && action is Nothing
        }),
{
}

// ---------------------------------------------------------------------------
// Downloads
// ---------------------------------------------------------------------------

/// How far a download has come.
#[derive(Clone, Copy, Debug, PartialEq, Eq, Structural)]
pub enum DownloadStage {
    /// The server is connected.
    Connecting,
    /// The remote source is looked at.
    Inspecting,
    /// What it comes to is counted.
    Counting,
    /// It is looked whether the destination is free.
    Looking,
    /// The local directory is made, with those above it.
    Preparing,
    /// The staging directory is made.
    Staging,
    Receiving,
    /// What was received takes its name.
    Finishing,
    /// The connection is given back.
    Settling,
    Ended,
}

/// A download.
#[derive(Debug, PartialEq, Eq)]
pub struct DownloadPath {
    /// The remote source.
    pub source: String,
    pub directory: bool,
    pub transfer: Transfer,
    /// The local directories that were made, by handles, in the order in which they were
    /// made.
    pub created: Vec<u64>,
    pub file_staging: bool,
    pub directory_staging: bool,
    pub stage: DownloadStage,
}

#[verifier::ext_equal]
pub struct DownloadPathView {
    pub source: Seq<char>,
    pub directory: bool,
    pub transfer: TransferView,
    pub created: Seq<u64>,
    pub file_staging: bool,
    pub directory_staging: bool,
    pub stage: DownloadStage,
}

impl View for DownloadPath {
    type V = DownloadPathView;

    open spec fn view(&self) -> DownloadPathView {
        DownloadPathView {
            source: self.source@,
            directory: self.directory,
            transfer: self.transfer@,
            created: self.created@,
            file_staging: self.file_staging,
            directory_staging: self.directory_staging,
            stage: self.stage,
        }
    }
}

/// What came of the last step.
#[derive(Debug, PartialEq, Eq)]
pub enum DownloadEvent {
    Connected { cancelled: bool },
    /// The source has this mode.
    Inspected(Option<u32>),
    Counted(Totals),
    /// Whether something is at the destination.
    Looked { occupied: bool, destination: String },
    /// A local directory was made.
    Made(u64),
    /// The local directory is there.
    Prepared,
    /// The destination has no parent.
    NoParent,
    Staged,
    Received,
    Renamed,
    Settled,
    Failed(String),
}

/// What is done next.
#[derive(Debug, PartialEq, Eq)]
pub enum DownloadAction {
    Inspect,
    Count { directory: bool },
    /// The download is told of, and the destination looked at.
    Look(TransferProgress),
    Prepare { directory: bool },
    MakeStaging,
    Receive { directory: bool },
    Rename { directory: bool },
    Settle,
    /// The download is told of, and over.
    Done(TransferProgress),
    /// What was made is undone, the download is told of, and over.
    Undo { steps: Vec<CleanupStep>, progress: TransferProgress, error: String },
    /// There is nothing to do at this stage.
    Nothing,
}

#[verifier::ext_equal]
pub enum DownloadActionView {
    Inspect,
    Count { directory: bool },
    Look(TransferProgressView),
    Prepare { directory: bool },
    MakeStaging,
    Receive { directory: bool },
    Rename { directory: bool },
    Settle,
    Done(TransferProgressView),
    Undo { steps: Seq<CleanupStep>, progress: TransferProgressView, error: Seq<char> },
    Nothing,
}

impl View for DownloadAction {
    type V = DownloadActionView;

    open spec fn view(&self) -> DownloadActionView {
        match *self {
            DownloadAction::Inspect => DownloadActionView::Inspect,
            DownloadAction::Count { directory } => DownloadActionView::Count { directory },
            DownloadAction::Look(progress) => DownloadActionView::Look(progress@),
            DownloadAction::Prepare { directory } => DownloadActionView::Prepare { directory },
            DownloadAction::MakeStaging => DownloadActionView::MakeStaging,
            DownloadAction::Receive { directory } => DownloadActionView::Receive { directory },
            DownloadAction::Rename { directory } => DownloadActionView::Rename { directory },
            DownloadAction::Settle => DownloadActionView::Settle,
            DownloadAction::Done(progress) => DownloadActionView::Done(progress@),
            DownloadAction::Undo { steps, progress, error } => DownloadActionView::Undo {
                steps: steps@,
                progress: progress@,
                error: error@,
            },
            DownloadAction::Nothing => DownloadActionView::Nothing,
        }
    }
}

/// Why a step failed.
pub open spec fn download_error(stage: DownloadStage, detail: Seq<char>) -> Seq<char> {
    match stage {
        DownloadStage::Inspecting => "Could not inspect remote source: "@ + detail,
        DownloadStage::Staging => "Could not create download staging directory: "@ + detail,
        DownloadStage::Finishing => "Could not finish download: "@ + detail,
        _ => detail,
    }
}

/// A download that moves on to a stage.
pub open spec fn down_at(run: DownloadPathView, stage: DownloadStage) -> DownloadPathView {
    DownloadPathView { stage, ..run }
}

/// A download that failed.
pub open spec fn download_failed(run: DownloadPathView, error: Seq<char>) -> (
    DownloadPathView,
    DownloadActionView,
) {
    (
        down_at(run, DownloadStage::Ended),
        DownloadActionView::Undo {
            steps: cleanup_of(run.created, run.file_staging, run.directory_staging),
            progress: failed_progress(run.transfer, run.source, error),
            error,
        },
    )
}

/// The download after a step, and what is done next.
pub open spec fn download_step(run: DownloadPathView, event: DownloadEvent) -> (
    DownloadPathView,
    DownloadActionView,
) {
    match (run.stage, event) {
        (DownloadStage::Ended, _) => (run, DownloadActionView::Nothing),
        (stage, DownloadEvent::Failed(detail)) => download_failed(
            run,
            download_error(stage, detail@),
        ),
        (DownloadStage::Connecting, DownloadEvent::Connected { cancelled }) => if cancelled {
            download_failed(run, OPERATION_CANCELLED@)
        } else {
            (down_at(run, DownloadStage::Inspecting), DownloadActionView::Inspect)
        },
        (DownloadStage::Inspecting, DownloadEvent::Inspected(mode)) => (
            DownloadPathView {
                directory: is_directory_mode(mode),
                stage: DownloadStage::Counting,
                ..run
            },
            DownloadActionView::Count { directory: is_directory_mode(mode) },
        ),
        (DownloadStage::Counting, DownloadEvent::Counted(total)) => {
            let transfer = TransferView { total, ..run.transfer };
            (
                DownloadPathView { transfer, stage: DownloadStage::Looking, ..run },
                DownloadActionView::Look(progress_of(transfer, run.source, false)),
            )
        },
        (DownloadStage::Looking, DownloadEvent::Looked { occupied, destination }) => if occupied {
            download_failed(run, occupied_text(destination@))
        } else {
            (
                down_at(run, DownloadStage::Preparing),
                DownloadActionView::Prepare { directory: run.directory },
            )
        },
        (DownloadStage::Preparing, DownloadEvent::Made(handle)) => (
            DownloadPathView { created: run.created.push(handle), ..run },
            DownloadActionView::Nothing,
        ),
        (DownloadStage::Preparing, DownloadEvent::NoParent) => download_failed(
            run,
            "The download destination must have a parent folder"@,
        ),
        (DownloadStage::Preparing, DownloadEvent::Prepared) => if run.directory {
            (down_at(run, DownloadStage::Staging), DownloadActionView::MakeStaging)
        } else {
            (
                DownloadPathView { file_staging: true, stage: DownloadStage::Receiving, ..run },
                DownloadActionView::Receive { directory: false },
            )
        },
        (DownloadStage::Staging, DownloadEvent::Staged) => (
            DownloadPathView { directory_staging: true, stage: DownloadStage::Receiving, ..run },
            DownloadActionView::Receive { directory: true },
        ),
        (DownloadStage::Receiving, DownloadEvent::Received) => (
            down_at(run, DownloadStage::Finishing),
            DownloadActionView::Rename { directory: run.directory },
        ),
        (DownloadStage::Finishing, DownloadEvent::Renamed) => (
            down_at(run, DownloadStage::Settling),
            DownloadActionView::Settle,
        ),
        (DownloadStage::Settling, DownloadEvent::Settled) => (
            down_at(run, DownloadStage::Ended),
            DownloadActionView::Done(progress_of(run.transfer, run.source, true)),
        ),
        _ => (run, DownloadActionView::Nothing),
    }
}

fn error_at(stage: DownloadStage, detail: String) -> (res: String)
    ensures
        res@ == download_error(stage, detail@),
{
    match stage {
        DownloadStage::Inspecting => glue2("Could not inspect remote source: ", detail.as_str()),
        DownloadStage::Staging => glue2(
            "Could not create download staging directory: ",
            detail.as_str(),
        ),
        DownloadStage::Finishing => glue2("Could not finish download: ", detail.as_str()),
        _ => detail,
    }
}

impl DownloadPath {
    /// A download that has not begun. It has a random id.
    pub fn new(source: &str) -> (res: Self)
        ensures
            res@.source == asked_path(source@),
            res@.transfer.direction == "download"@,
            is_uuid(res@.transfer.id),
            res@.transfer.total == no_totals(),
            res@.transfer.completed == no_totals(),
            res@.created.len() == 0,
            !res@.file_staging,
            !res@.directory_staging,
            res@.stage == DownloadStage::Connecting,
    {
        DownloadPath {
            source: remote_path(source),
            directory: false,
            transfer: Transfer::start("download"),
            created: Vec::new(),
            file_staging: false,
            directory_staging: false,
            stage: DownloadStage::Connecting,
        }
    }

    fn fail(&mut self, error: String) -> (res: DownloadAction)
        ensures
            (final(self)@, res@) == download_failed(old(self)@, error@),
    {
        proof {
            reveal_strlit("upload");
            reveal_strlit("download");
        }
        self.stage = DownloadStage::Ended;
        let steps = download_cleanup(
            self.created.as_slice(),
            self.file_staging,
            self.directory_staging,
        );
        let progress = self.transfer.failed(self.source.as_str(), error.as_str());
        DownloadAction::Undo { steps, progress, error }
    }

    /// Takes what came of the last step, and says what is done next.
    pub fn download_path(&mut self, event: DownloadEvent) -> (res: DownloadAction)
        ensures
            (final(self)@, res@) == download_step(old(self)@, event),
    {
        match (self.stage, event) {
            (DownloadStage::Ended, _) => DownloadAction::Nothing,
            (stage, DownloadEvent::Failed(detail)) => {
                let error = error_at(stage, detail);
                self.fail(error)
            },
            (DownloadStage::Connecting, DownloadEvent::Connected { cancelled }) => {
                match ensure_not_cancelled(cancelled) {
                    Ok(()) => {
                        self.stage = DownloadStage::Inspecting;
                        DownloadAction::Inspect
                    },
                    Err(error) => self.fail(error),
                }
            },
            (DownloadStage::Inspecting, DownloadEvent::Inspected(mode)) => {
                self.directory = is_directory(mode);
                self.stage = DownloadStage::Counting;
                DownloadAction::Count { directory: self.directory }
            },
            (DownloadStage::Counting, DownloadEvent::Counted(total)) => {
                self.transfer.set_total(total);
                self.stage = DownloadStage::Looking;
                DownloadAction::Look(self.transfer.progress(self.source.as_str(), false))
            },
            (DownloadStage::Looking, DownloadEvent::Looked { occupied, destination }) => {
                match download_verdict(destination.as_str(), occupied) {
                    Ok(()) => {
                        self.stage = DownloadStage::Preparing;
                        DownloadAction::Prepare { directory: self.directory }
                    },
                    Err(error) => self.fail(error),
                }
            },
            (DownloadStage::Preparing, DownloadEvent::Made(handle)) => {
                self.created.push(handle);
                DownloadAction::Nothing
            },
            (DownloadStage::Preparing, DownloadEvent::NoParent) => self.fail(
                copy("The download destination must have a parent folder"),
            ),
            (DownloadStage::Preparing, DownloadEvent::Prepared) => if self.directory {
                self.stage = DownloadStage::Staging;
                DownloadAction::MakeStaging
            } else {
                self.file_staging = true;
                self.stage = DownloadStage::Receiving;
                DownloadAction::Receive { directory: false }
            },
            (DownloadStage::Staging, DownloadEvent::Staged) => {
                self.directory_staging = true;
                self.stage = DownloadStage::Receiving;
                DownloadAction::Receive { directory: true }
            },
            (DownloadStage::Receiving, DownloadEvent::Received) => {
                self.stage = DownloadStage::Finishing;
                DownloadAction::Rename { directory: self.directory }
            },
            (DownloadStage::Finishing, DownloadEvent::Renamed) => {
                self.stage = DownloadStage::Settling;
                DownloadAction::Settle
            },
            (DownloadStage::Settling, DownloadEvent::Settled) => {
                self.stage = DownloadStage::Ended;
                DownloadAction::Done(self.transfer.progress(self.source.as_str(), true))
            },
            _ => DownloadAction::Nothing,
        }
    }
}

/// What a download has made so far fits the stage that it is at: nothing before the
/// destination was found to be free, and no staging before the directories are there.
pub open spec fn nothing_early(run: DownloadPathView) -> bool {
    &&& (run.stage == DownloadStage::Connecting || run.stage == DownloadStage::Inspecting
        || run.stage == DownloadStage::Counting || run.stage == DownloadStage::Looking)
        ==> run.created.len() == 0 && !run.file_staging && !run.directory_staging
    &&& (run.stage == DownloadStage::Preparing || run.stage == DownloadStage::Staging)
        ==> !run.file_staging && !run.directory_staging
}

/// A download makes nothing on this machine before the destination was found to be free,
/// and undoes nothing there where the destination is taken.
pub proof fn taken_destinations_are_left_alone(run: DownloadPathView, event: DownloadEvent)
    requires
        nothing_early(run),
    ensures
        nothing_early(download_step(run, event).0),
        event matches DownloadEvent::Looked { occupied, destination } ==> occupied && run.stage
            == DownloadStage::Looking ==> (download_step(
            run,
            event,
        ).1 matches DownloadActionView::Undo { steps, progress, error } && steps.len() == 0
            && error == occupied_text(destination@)),
        download_step(run, event).1 is Prepare ==> (
        event matches DownloadEvent::Looked { occupied, .. } && !occupied),
{
    if run.stage == DownloadStage::Looking {
        let none: Seq<u64> = Seq::empty();
        assert(run.created =~= none);
        assert(cleanup_of(none, false, false).len() == 0);
    }
}

/// What is received takes its name only when it is whole, and a download that fails undoes
/// all that it made.
pub proof fn parts_do_not_take_the_name(run: DownloadPathView, event: DownloadEvent)
    ensures
        download_step(run, event).1 is Rename ==> run.stage == DownloadStage::Receiving
            && event is Received,
        event is Failed && run.stage != DownloadStage::Ended ==> (download_step(
            run,
            event,
        ).1 matches DownloadActionView::Undo { steps, .. } && steps == cleanup_of(
            run.created,
            run.file_staging,
            run.directory_staging,
        )),
{
}

// ---------------------------------------------------------------------------
// One file of a download
// ---------------------------------------------------------------------------

/// How far the download of a file has come.
#[derive(Debug, PartialEq, Eq)]
pub enum FileState {
    /// The directory of the file is made.
    Placing,
    /// The remote file is opened.
    Opening,
    /// The local file is made, where there must be none.
    Creating,
    /// It is asked whether the download was cancelled, before the next bytes are read.
    Checking,
    Reading,
    /// Bytes that were read are written.
    Writing,
    /// It is asked a last time whether the download was cancelled.
    Confirming,
    Done,
    Failed(String),
}

#[verifier::ext_equal]
pub enum FileStateView {
    Placing,
    Opening,
    Creating,
    Checking,
    Reading,
    Writing,
    Confirming,
    Done,
    Failed(Seq<char>),
}

impl View for FileState {
    type V = FileStateView;

    open spec fn view(&self) -> FileStateView {
        match *self {
            FileState::Placing => FileStateView::Placing,
            FileState::Opening => FileStateView::Opening,
            FileState::Creating => FileStateView::Creating,
            FileState::Checking => FileStateView::Checking,
            FileState::Reading => FileStateView::Reading,
            FileState::Writing => FileStateView::Writing,
            FileState::Confirming => FileStateView::Confirming,
            FileState::Done => FileStateView::Done,
            FileState::Failed(error) => FileStateView::Failed(error@),
        }
    }
}

/// A file that is downloaded.
#[derive(Debug, PartialEq, Eq)]
pub struct FileDownload {
    pub source: String,
    pub destination: String,
    /// The directory of the destination, where it has one.
    pub parent: Option<String>,
    pub state: FileState,
}

#[verifier::ext_equal]
pub struct FileDownloadView {
    pub source: Seq<char>,
    pub destination: Seq<char>,
    pub parent: Option<Seq<char>>,
    pub state: FileStateView,
}

impl View for FileDownload {
    type V = FileDownloadView;

    open spec fn view(&self) -> FileDownloadView {
        FileDownloadView {
            source: self.source@,
            destination: self.destination@,
            parent: opt_view(self.parent),
            state: self.state@,
        }
    }
}

/// What came of the last step.
#[derive(Debug, PartialEq, Eq)]
pub enum FileEvent {
    Succeeded,
    /// The answer to whether the download was cancelled.
    Checked { cancelled: bool },
    /// This many bytes were read; none at the end.
    Read { bytes: usize },
    Failed(String),
}

/// Why a step failed.
pub open spec fn file_error(file: FileDownloadView, detail: Seq<char>) -> Seq<char> {
    match file.state {
        FileStateView::Placing => "Could not create "@ + (match file.parent {
            Some(parent) => parent,
            None => file.destination,
        }) + ": "@ + detail,
        FileStateView::Creating => "Could not create "@ + file.destination + ": "@ + detail,
        FileStateView::Writing => "Could not write "@ + file.destination + ": "@ + detail,
        _ => "Could not read "@ + file.source + ": "@ + detail,
    }
}

/// The state after a step.
pub open spec fn file_step(file: FileDownloadView, event: FileEvent) -> FileStateView {
    match (file.state, event) {
        (FileStateView::Done, _) => FileStateView::Done,
        (FileStateView::Failed(error), _) => FileStateView::Failed(error),
        (_, FileEvent::Failed(detail)) => FileStateView::Failed(file_error(file, detail@)),
        (_, FileEvent::Checked { cancelled: true }) => FileStateView::Failed(OPERATION_CANCELLED@),
        (FileStateView::Placing, FileEvent::Succeeded) => FileStateView::Opening,
        (FileStateView::Opening, FileEvent::Succeeded) => FileStateView::Creating,
        (FileStateView::Creating, FileEvent::Succeeded) => FileStateView::Checking,
        (FileStateView::Checking, FileEvent::Checked { cancelled: false }) => FileStateView::Reading,
        (FileStateView::Reading, FileEvent::Read { bytes }) => if bytes == 0 {
            FileStateView::Confirming
        } else {
            FileStateView::Writing
        },
        (FileStateView::Writing, FileEvent::Succeeded) => FileStateView::Checking,
        (FileStateView::Confirming, FileEvent::Checked { cancelled: false }) => FileStateView::Done,
        (state, _) => state,
    }
}

impl FileDownload {
    /// The download of a file that has not begun, unless it was cancelled before.
    pub fn new(source: &str, destination: &str, parent: Option<String>, cancelled: bool) -> (res:
        Self)
        ensures
            res@ == (FileDownloadView {
                source: source@,
                destination: destination@,
                parent: opt_view(parent),
                state: if cancelled {
                    FileStateView::Failed(OPERATION_CANCELLED@)
                } else if parent is Some {
                    FileStateView::Placing
                } else {
                    FileStateView::Opening
                },
            }),
    {
        let state = if cancelled {
            FileState::Failed(copy(OPERATION_CANCELLED))
        } else if parent.is_some() {
            FileState::Placing
        } else {
            FileState::Opening
        };
        FileDownload { source: copy(source), destination: copy(destination), parent, state }
    }

    fn failure(&self, detail: &str) -> (res: String)
        ensures
            res@ == file_error(self@, detail@),
    {
        let mut out = match &self.state {
            FileState::Placing => glue3(
                "Could not create ",
                match &self.parent {
                    Some(parent) => parent.as_str(),
                    None => self.destination.as_str(),
                },
                ": ",
            ),
            FileState::Creating => glue3("Could not create ", self.destination.as_str(), ": "),
            FileState::Writing => glue3("Could not write ", self.destination.as_str(), ": "),
            _ => glue3("Could not read ", self.source.as_str(), ": "),
        };
        out.append(detail);
        out
    }

    /// Takes what came of the last step.
    pub fn download_file(&mut self, event: FileEvent)
        ensures
            final(self)@ == (FileDownloadView { state: file_step(old(self)@, event), ..old(self)@ }),
    {
        let next = match (&self.state, event) {
            (FileState::Done, _) => None,
            (FileState::Failed(_), _) => None,
            (_, FileEvent::Failed(detail)) => Some(
                FileState::Failed(self.failure(detail.as_str())),
            ),
            (_, FileEvent::Checked { cancelled: true }) => Some(
                FileState::Failed(copy(OPERATION_CANCELLED)),
            ),
            (FileState::Placing, FileEvent::Succeeded) => Some(FileState::Opening),
            (FileState::Opening, FileEvent::Succeeded) => Some(FileState::Creating),
            (FileState::Creating, FileEvent::Succeeded) => Some(FileState::Checking),
            (FileState::Checking, FileEvent::Checked { .. }) => Some(FileState::Reading),
            (FileState::Reading, FileEvent::Read { bytes }) => if bytes == 0 {
                Some(FileState::Confirming)
            } else {
                Some(FileState::Writing)
            },
            (FileState::Writing, FileEvent::Succeeded) => Some(FileState::Checking),
            (FileState::Confirming, FileEvent::Checked { .. }) => Some(FileState::Done),
            _ => None,
        };
        match next {
            Some(state) => {
                self.state = state;
            },
            None => {},
        }
    }
}

/// A file counts as downloaded only when it was read to its end and the download was not
/// cancelled meanwhile.
pub proof fn cancelled_files_are_not_done(file: FileDownloadView, event: FileEvent)
    ensures
        file_step(file, event) is Done && !(file.state is Done) ==> file.state is Confirming
            && event == (FileEvent::Checked { cancelled: false }),
        file_step(file, event) is Confirming && !(file.state is Confirming) ==> file.state is Reading
            && event == (FileEvent::Read { bytes: 0 }),
        file_step(file, event) is Reading && !(file.state is Reading) ==> file.state is Checking
            && event == (FileEvent::Checked { cancelled: false }),
{
}

// ---------------------------------------------------------------------------
// One entry of an upload
// ---------------------------------------------------------------------------

/// What is done with an entry of a directory that is uploaded.
#[derive(Debug, PartialEq, Eq)]
pub enum UploadEntry {
    /// It is the directory itself.
    Skip,
    MakeDirectory(String),
    SendFile(String),
    Fail(String),
}

#[verifier::ext_equal]
pub enum UploadEntryView {
    Skip,
    MakeDirectory(Seq<char>),
    SendFile(Seq<char>),
    Fail(Seq<char>),
}

impl View for UploadEntry {
    type V = UploadEntryView;

    open spec fn view(&self) -> UploadEntryView {
        match *self {
            UploadEntry::Skip => UploadEntryView::Skip,
            UploadEntry::MakeDirectory(path) => UploadEntryView::MakeDirectory(path@),
            UploadEntry::SendFile(path) => UploadEntryView::SendFile(path@),
            UploadEntry::Fail(error) => UploadEntryView::Fail(error@),
        }
    }
}

/// What is done with an entry that stands at `relative` below the directory. Everything that
/// is no directory is sent.
pub open spec fn entry_step(
    root: Seq<char>,
    relative: Seq<char>,
    directory: bool,
    cancelled: bool,
) -> UploadEntryView {
    if cancelled {
        UploadEntryView::Fail(OPERATION_CANCELLED@)
    } else if relative.len() == 0 {
        UploadEntryView::Skip
    } else if directory {
        UploadEntryView::MakeDirectory(joined_path(root, relative))
    } else {
        UploadEntryView::SendFile(joined_path(root, relative))
    }
}

/// What is done with an entry of a directory that is uploaded.
pub fn upload_directory(root: &str, relative: &str, directory: bool, cancelled: bool) -> (res:
    UploadEntry)
    ensures
        res@ == entry_step(root@, relative@, directory, cancelled),
{
    match ensure_not_cancelled(cancelled) {
        Ok(()) => {},
        Err(error) => return UploadEntry::Fail(error),
    }
    if chars_of(relative).len() == 0 {
        return UploadEntry::Skip;
    }
    let place = join_path(root, relative);
    if directory {
        UploadEntry::MakeDirectory(place)
    } else {
        UploadEntry::SendFile(place)
    }
}

/// An upload goes on until it is sent: what is found is counted, the server is reached, it is
/// looked whether anything is in the way unless it may be overwritten, everything is sent to
/// its place, and then it is done.
pub proof fn uploads_go_on(
    run: UploadPathView,
    directory: bool,
    total: Totals,
    name: Option<String>,
    conflicts: UploadConflicts,
    place: Seq<char>,
)
    ensures
        run.stage == UploadStage::Inspecting ==> {
            let (after, action) = upload_step(run, UploadEvent::Found { directory, total, name });
            &&& after == (UploadPathView {
                directory,
                name: opt_view(name),
                transfer: TransferView { total, ..run.transfer },
                stage: UploadStage::Connecting,
                ..run
            })
            &&& action matches UploadActionView::Connect(told) && told.total_bytes == total.bytes
                && !told.done
        },
        run.stage == UploadStage::Connecting && upload_place(run) == Ok::<Seq<char>, Seq<char>>(
            place,
        ) ==> {
            let (after, action) = upload_step(run, UploadEvent::Connected { cancelled: false });
            &&& run.overwrite ==> after.stage == UploadStage::Sending && action
                == UploadActionView::Send(place)
            &&& !run.overwrite ==> after.stage == UploadStage::Searching && action
                == UploadActionView::Search(place)
        },
        run.stage == UploadStage::Connecting ==> upload_step(
            run,
            UploadEvent::Connected { cancelled: true },
        ).1 is Fail,
        run.stage == UploadStage::Searching && upload_place(run) == Ok::<Seq<char>, Seq<char>>(
            place,
        ) ==> {
            let (after, action) = upload_step(run, UploadEvent::Searched(conflicts));
            &&& conflicts@.count == 0 ==> after.stage == UploadStage::Sending && action
                == UploadActionView::Send(place)
            &&& conflicts@.count > 0 ==> action is Fail
        },
        run.stage == UploadStage::Sending ==> upload_step(run, UploadEvent::Sent) == (
            UploadPathView { stage: UploadStage::Ended, ..run },
            UploadActionView::Done(progress_of(run.transfer, run.local_path, true)),
        ),
{
}

/// A download goes on until it has its name: the source is looked at and counted, the
/// destination must be free, what is above it is made, everything is received beside it, and
/// then it takes the name.
pub proof fn downloads_go_on(
    run: DownloadPathView,
    mode: Option<u32>,
    total: Totals,
    destination: String,
    handle: u64,
)
    ensures
        run.stage == DownloadStage::Connecting ==> download_step(
            run,
            DownloadEvent::Connected { cancelled: false },
        ) == (DownloadPathView { stage: DownloadStage::Inspecting, ..run }, DownloadActionView::Inspect)
            && download_step(run, DownloadEvent::Connected { cancelled: true }).1 is Undo,
        run.stage == DownloadStage::Inspecting ==> {
            let (after, action) = download_step(run, DownloadEvent::Inspected(mode));
            &&& after.stage == DownloadStage::Counting
            &&& after.directory == is_directory_mode(mode)
            &&& action == (DownloadActionView::Count { directory: is_directory_mode(mode) })
        },
        run.stage == DownloadStage::Counting ==> {
            let (after, action) = download_step(run, DownloadEvent::Counted(total));
            &&& after.stage == DownloadStage::Looking
            &&& after.transfer.total == total
            &&& action is Look
        },
        run.stage == DownloadStage::Looking ==> {
            let (after, action) = download_step(
                run,
                DownloadEvent::Looked { occupied: false, destination },
            );
            &&& after.stage == DownloadStage::Preparing
            &&& action == (DownloadActionView::Prepare { directory: run.directory })
        },
        run.stage == DownloadStage::Preparing ==> {
            &&& download_step(run, DownloadEvent::Made(handle)).0 == (DownloadPathView {
                created: run.created.push(handle),
                ..run
            })
            &&& run.directory ==> download_step(run, DownloadEvent::Prepared).0.stage
                == DownloadStage::Staging && download_step(run, DownloadEvent::Prepared).1
                is MakeStaging
            &&& !run.directory ==> download_step(run, DownloadEvent::Prepared).0.stage
                == DownloadStage::Receiving && download_step(
                run,
                DownloadEvent::Prepared,
            ).0.file_staging && download_step(run, DownloadEvent::Prepared).1 == (
            DownloadActionView::Receive { directory: false })
        },
        run.stage == DownloadStage::Staging ==> download_step(run, DownloadEvent::Staged) == (
            DownloadPathView { directory_staging: true, stage: DownloadStage::Receiving, ..run },
            DownloadActionView::Receive { directory: true },
        ),
        run.stage == DownloadStage::Receiving ==> download_step(run, DownloadEvent::Received) == (
            DownloadPathView { stage: DownloadStage::Finishing, ..run },
            DownloadActionView::Rename { directory: run.directory },
        ),
        run.stage == DownloadStage::Finishing ==> download_step(run, DownloadEvent::Renamed) == (
            DownloadPathView { stage: DownloadStage::Settling, ..run },
            DownloadActionView::Settle,
        ),
        run.stage == DownloadStage::Settling ==> download_step(run, DownloadEvent::Settled) == (
            DownloadPathView { stage: DownloadStage::Ended, ..run },
            DownloadActionView::Done(progress_of(run.transfer, run.source, true)),
        ),
{
}

/// A file that is downloaded is read until nothing is left, each part is written, and then it
/// is done.
pub proof fn files_are_read_to_the_end(file: FileDownloadView, bytes: usize)
    ensures
        file.state is Placing ==> file_step(file, FileEvent::Succeeded) is Opening,
        file.state is Opening ==> file_step(file, FileEvent::Succeeded) is Creating,
        file.state is Creating ==> file_step(file, FileEvent::Succeeded) is Checking,
        file.state is Checking ==> file_step(file, FileEvent::Checked { cancelled: false })
            is Reading,
        file.state is Reading && bytes > 0 ==> file_step(file, FileEvent::Read { bytes }) is Writing,
        file.state is Reading ==> file_step(file, FileEvent::Read { bytes: 0 }) is Confirming,
        file.state is Writing ==> file_step(file, FileEvent::Succeeded) is Checking,
        file.state is Confirming ==> file_step(file, FileEvent::Checked { cancelled: false })
            is Done,
        file.state !is Done && file.state !is Failed ==> file_step(
            file,
            FileEvent::Checked { cancelled: true },
        ) == FileStateView::Failed("Operation cancelled"@),
{
}

/// Everything below a folder is uploaded to the same place below its destination.
pub proof fn entries_keep_their_places(root: Seq<char>, relative: Seq<char>)
    requires
        relative.len() > 0 && relative[0] != '/',
        root.len() > 0 && root.last() != '/',
    ensures
        entry_step(root, relative, true, false) == UploadEntryView::MakeDirectory(
            root + "/"@ + relative,
        ),
        entry_step(root, relative, false, false) == UploadEntryView::SendFile(
            root + "/"@ + relative,
        ),
        entry_step(root, relative, true, true) is Fail,
        entry_step(root, Seq::empty(), true, false) is Skip,
{
}

} // verus!
