//! Saving, uploading and downloading files: in what order it is done, and what is undone
//! when it fails.
use crate::app_error::{conflict_text, kind_of, upload_conflict, AppErrorView};
use crate::identifiers::{is_uuid, random_uuid};
use crate::models::{TransferProgress, TransferProgressView};
use crate::paths::{
    file_name, file_name_of, joined_directories_are_read_back, joined_names_are_read_back,
    renamed_path, with_file_name,
};
use crate::providers::files::{is_directory, is_directory_mode};
use crate::ssh::{error_result, joined_path, text_result, OPERATION_CANCELLED};
use crate::text::{copy, glue2, glue3, glue5, lemma_views_push, same, views};
use vstd::prelude::*;

verus! {

broadcast use vstd::string::group_string_axioms;

/// The bytes that are copied at a time.
pub const COPY_BUFFER_BYTES: usize = 131072;

// ---------------------------------------------------------------------------
// Staged writes
// ---------------------------------------------------------------------------

/// What is written: a text from the editor, or a file of this machine.
#[derive(Debug, PartialEq, Eq)]
pub enum WritePurpose {
    Save,
    Upload { source: String },
}

/// A file that is written under another name first, and takes its own only when it is
/// whole.
#[derive(Debug, PartialEq, Eq)]
pub struct StagedWrite {
    pub purpose: WritePurpose,
    pub destination: String,
    pub staging: String,
    /// The rights that the file had, where they are kept.
    pub permissions: Option<u32>,
    pub state: WriteState,
}

/// How far a write has come.
#[derive(Debug, PartialEq, Eq)]
pub enum WriteState {
    /// The staging file is made.
    Creating,
    /// It is asked whether the operation was cancelled, before the next bytes.
    Checking,
    /// The next bytes are copied.
    Copying,
    Flushing,
    /// The rights of the file are set on the staging file.
    Keeping(u32),
    /// It is asked a last time whether the operation was cancelled.
    Confirming,
    /// The staging file takes the name of the file.
    Renaming,
    /// The staging file is removed, because of this error.
    Removing(String),
    Done,
    Failed(String),
}

#[verifier::ext_equal]
pub enum WriteStateView {
    Creating,
    Checking,
    Copying,
    Flushing,
    Keeping(u32),
    Confirming,
    Renaming,
    Removing(Seq<char>),
    Done,
    Failed(Seq<char>),
}

impl View for WriteState {
    type V = WriteStateView;

    open spec fn view(&self) -> WriteStateView {
        match *self {
            WriteState::Creating => WriteStateView::Creating,
            WriteState::Checking => WriteStateView::Checking,
            WriteState::Copying => WriteStateView::Copying,
            WriteState::Flushing => WriteStateView::Flushing,
            WriteState::Keeping(bits) => WriteStateView::Keeping(bits),
            WriteState::Confirming => WriteStateView::Confirming,
            WriteState::Renaming => WriteStateView::Renaming,
            WriteState::Removing(error) => WriteStateView::Removing(error@),
            WriteState::Done => WriteStateView::Done,
            WriteState::Failed(error) => WriteStateView::Failed(error@),
        }
    }
}

/// What came of the last step.
#[derive(Debug, PartialEq, Eq)]
pub enum WriteEvent {
    /// It succeeded. `more` tells whether there may be more to copy.
    Succeeded { more: bool },
    /// The answer to whether the operation was cancelled.
    Checked { cancelled: bool },
    /// The source could not be read.
    ReadFailed(String),
    Failed(String),
}

#[verifier::ext_equal]
pub enum WriteEventView {
    Succeeded { more: bool },
    Checked { cancelled: bool },
    ReadFailed(Seq<char>),
    Failed(Seq<char>),
}

impl View for WriteEvent {
    type V = WriteEventView;

    open spec fn view(&self) -> WriteEventView {
        match *self {
            WriteEvent::Succeeded { more } => WriteEventView::Succeeded { more },
            WriteEvent::Checked { cancelled } => WriteEventView::Checked { cancelled },
            WriteEvent::ReadFailed(detail) => WriteEventView::ReadFailed(detail@),
            WriteEvent::Failed(detail) => WriteEventView::Failed(detail@),
        }
    }
}

#[verifier::ext_equal]
pub struct StagedWriteView {
    pub source: Option<Seq<char>>,
    pub destination: Seq<char>,
    pub staging: Seq<char>,
    pub permissions: Option<u32>,
    pub state: WriteStateView,
}

impl View for StagedWrite {
    type V = StagedWriteView;

    open spec fn view(&self) -> StagedWriteView {
        StagedWriteView {
            source: match self.purpose {
                WritePurpose::Save => None,
                WritePurpose::Upload { source } => Some(source@),
            },
            destination: self.destination@,
            staging: self.staging@,
            permissions: self.permissions,
            state: self.state@,
        }
    }
}

/// Why a step failed.
pub open spec fn write_failure(write: StagedWriteView, event: WriteEventView) -> Seq<char> {
    match event {
        WriteEventView::ReadFailed(detail) => "Could not read "@ + (match write.source {
            Some(source) => source,
            None => write.destination,
        }) + ": "@ + detail,
        WriteEventView::Failed(detail) => match write.state {
            WriteStateView::Creating => if write.source is Some {
                "Could not create upload staging file "@ + write.staging + ": "@ + detail
            } else {
                "Could not write "@ + write.staging + ": "@ + detail
            },
            WriteStateView::Flushing => "Could not finish writing "@ + write.staging + ": "@
                + detail,
            WriteStateView::Keeping(_) => "Could not preserve permissions for "@
                + write.destination + ": "@ + detail,
            WriteStateView::Renaming => if write.source is Some {
                "Could not finish uploading "@ + write.destination + ": "@ + detail
            } else {
                "Could not save "@ + write.destination + ": "@ + detail
            },
            _ => "Could not write "@ + write.staging + ": "@ + detail,
        },
        _ => OPERATION_CANCELLED@,
    }
}

/// The state before the next bytes, or behind the last.
pub open spec fn copied_state(more: bool) -> WriteStateView {
    if more {
        WriteStateView::Checking
    } else {
        WriteStateView::Flushing
    }
}

/// The state after a step that succeeded.
pub open spec fn state_after_success(write: StagedWriteView, more: bool) -> WriteStateView {
    match write.state {
        WriteStateView::Creating => copied_state(more),
        WriteStateView::Copying => copied_state(more),
        WriteStateView::Flushing => match write.permissions {
            Some(bits) => WriteStateView::Keeping(bits),
            None => WriteStateView::Confirming,
        },
        WriteStateView::Keeping(_) => WriteStateView::Confirming,
        WriteStateView::Renaming => WriteStateView::Done,
        state => state,
    }
}

/// The state after a step. Whatever fails, the staging file is removed; and whether that
/// works or not, the write has failed.
pub open spec fn write_step(write: StagedWriteView, event: WriteEventView) -> WriteStateView {
    match write.state {
        WriteStateView::Removing(error) => WriteStateView::Failed(error),
        WriteStateView::Done => WriteStateView::Done,
        WriteStateView::Failed(error) => WriteStateView::Failed(error),
        _ => match event {
            WriteEventView::Succeeded { more } => state_after_success(write, more),
            WriteEventView::Checked { cancelled } => if cancelled {
                WriteStateView::Removing(OPERATION_CANCELLED@)
            } else if write.state is Checking {
                WriteStateView::Copying
            } else if write.state is Confirming {
                WriteStateView::Renaming
            } else {
                write.state
            },
            _ => WriteStateView::Removing(write_failure(write, event)),
        },
    }
}

impl StagedWrite {
    /// A write that has not begun.
    pub fn new(
        purpose: WritePurpose,
        destination: &str,
        staging: String,
        permissions: Option<u32>,
    ) -> (res: Self)
        ensures
            res@ == (StagedWriteView {
                source: match purpose {
                    WritePurpose::Save => None,
                    WritePurpose::Upload { source } => Some(source@),
                },
                destination: destination@,
                staging: staging@,
                permissions,
                state: WriteStateView::Creating,
            }),
    {
        StagedWrite {
            purpose,
            destination: copy(destination),
            staging,
            permissions,
            state: WriteState::Creating,
        }
    }

    fn failure(&self, event: &WriteEvent) -> (res: String)
        ensures
            res@ == write_failure(self@, event@),
    {
        let upload = match &self.purpose {
            WritePurpose::Save => false,
            WritePurpose::Upload { .. } => true,
        };
        match event {
            WriteEvent::ReadFailed(detail) => {
                let source = match &self.purpose {
                    WritePurpose::Save => self.destination.as_str(),
                    WritePurpose::Upload { source } => source.as_str(),
                };
                let mut out = glue3("Could not read ", source, ": ");
                out.append(detail.as_str());
                out
            },
            WriteEvent::Failed(detail) => {
                let mut out = match &self.state {
                    WriteState::Creating => if upload {
                        glue3("Could not create upload staging file ", self.staging.as_str(), ": ")
                    } else {
                        glue3("Could not write ", self.staging.as_str(), ": ")
                    },
                    WriteState::Flushing => glue3(
                        "Could not finish writing ",
                        self.staging.as_str(),
                        ": ",
                    ),
                    WriteState::Keeping(_) => glue3(
                        "Could not preserve permissions for ",
                        self.destination.as_str(),
                        ": ",
                    ),
                    WriteState::Renaming => if upload {
                        glue3("Could not finish uploading ", self.destination.as_str(), ": ")
                    } else {
                        glue3("Could not save ", self.destination.as_str(), ": ")
                    },
                    _ => glue3("Could not write ", self.staging.as_str(), ": "),
                };
                out.append(detail.as_str());
                out
            },
            _ => copy(OPERATION_CANCELLED),
        }
    }

    fn success(&self, more: bool) -> (res: WriteState)
        ensures
            !(self@.state is Removing || self@.state is Done || self@.state is Failed) ==> res@
                == state_after_success(self@, more),
    {
        match &self.state {
            WriteState::Creating | WriteState::Copying => if more {
                WriteState::Checking
            } else {
                WriteState::Flushing
            },
            WriteState::Flushing => match self.permissions {
                Some(bits) => WriteState::Keeping(bits),
                None => WriteState::Confirming,
            },
            WriteState::Keeping(_) => WriteState::Confirming,
            WriteState::Renaming => WriteState::Done,
            WriteState::Checking => WriteState::Checking,
            _ => WriteState::Confirming,
        }
    }

    /// Takes what came of the last step.
    pub fn advance(&mut self, event: WriteEvent)
        ensures
            final(self)@ == (StagedWriteView {
                state: write_step(old(self)@, event@),
                ..old(self)@
            }),
    {
        let next = match &self.state {
            WriteState::Removing(error) => WriteState::Failed(error.clone()),
            WriteState::Done => WriteState::Done,
            WriteState::Failed(error) => WriteState::Failed(error.clone()),
            _ => match &event {
                WriteEvent::Succeeded { more } => self.success(*more),
                WriteEvent::Checked { cancelled } => if *cancelled {
                    WriteState::Removing(copy(OPERATION_CANCELLED))
                } else {
                    match &self.state {
                        WriteState::Creating => WriteState::Creating,
                        WriteState::Checking => WriteState::Copying,
                        WriteState::Copying => WriteState::Copying,
                        WriteState::Flushing => WriteState::Flushing,
                        WriteState::Keeping(bits) => WriteState::Keeping(*bits),
                        WriteState::Confirming => WriteState::Renaming,
                        _ => WriteState::Renaming,
                    }
                },
                _ => WriteState::Removing(self.failure(&event)),
            },
        };
        self.state = next;
    }
}

/// A file takes its name only after everything was written and nobody cancelled: the
/// renaming comes from the last question alone, and the end from the renaming alone.
pub proof fn nothing_is_replaced_by_a_part(write: StagedWriteView, event: WriteEventView)
    ensures
        write_step(write, event) is Renaming && write.state !is Renaming ==> write.state
            is Confirming && event == (WriteEventView::Checked { cancelled: false }),
        write_step(write, event) is Done && write.state !is Done ==> write.state is Renaming
            && event is Succeeded,
        write_step(write, event) is Confirming && write.state !is Confirming ==> event is Succeeded
            && (write.state is Keeping || (write.state is Flushing && write.permissions is None)),
{
}

/// A write that fails, or is cancelled, before it is done removes its staging file, and
/// then fails with the error that came first.
pub proof fn failures_leave_nothing_behind(write: StagedWriteView, event: WriteEventView)
    requires
        !(write.state is Removing || write.state is Done || write.state is Failed),
        event is Failed || event is ReadFailed || event == (WriteEventView::Checked {
            cancelled: true,
        }),
    ensures
        write_step(write, event) is Removing,
        forall|later: WriteEventView|
            #[trigger] write_step(
                StagedWriteView { state: write_step(write, event), ..write },
                later,
            ) == WriteStateView::Failed(write_step(write, event)->Removing_0),
{
}

/// The state of a write after the events.
pub open spec fn write_after(write: StagedWriteView, events: Seq<WriteEventView>) -> StagedWriteView
    decreases events.len(),
{
    if events.len() == 0 {
        write
    } else {
        let before = write_after(write, events.drop_last());
        StagedWriteView { state: write_step(before, events.last()), ..before }
    }
}

/// Every step that succeeds, and every answer that nobody cancelled, brings a write to the
/// next step, until it is done: behind the last bytes comes the flush; behind the flush the
/// rights are set where there are some; then it is asked a last time, and then the staging
/// file takes the name.
pub proof fn writes_go_on(write: StagedWriteView, more: bool)
    ensures
        ({
            let done = write_step(write, WriteEventView::Succeeded { more });
            let asked = write_step(write, WriteEventView::Checked { cancelled: false });
            &&& write.state is Creating || write.state is Copying ==> if more {
                done is Checking
            } else {
                done is Flushing
            }
            &&& write.state is Checking ==> asked is Copying
            &&& write.state is Flushing ==> match write.permissions {
                Some(bits) => done == WriteStateView::Keeping(bits),
                None => done is Confirming,
            }
            &&& write.state is Keeping ==> done is Confirming
            &&& write.state is Confirming ==> asked is Renaming
            &&& write.state is Renaming ==> done is Done
        }),
{
}

/// What happens to a write in which every step succeeds and nobody cancels, where the bytes
/// are copied in this many steps.
pub open spec fn smooth_events(copies: nat, kept: bool) -> Seq<WriteEventView> {
    smooth_copies(copies) + (if kept {
        seq![
            WriteEventView::Succeeded { more: false },
            WriteEventView::Succeeded { more: false },
            WriteEventView::Checked { cancelled: false },
            WriteEventView::Succeeded { more: false },
        ]
    } else {
        seq![
            WriteEventView::Succeeded { more: false },
            WriteEventView::Checked { cancelled: false },
            WriteEventView::Succeeded { more: false },
        ]
    })
}

/// The events until the last bytes are copied: the staging file is made, and before each
/// copy it is asked whether to go on. Only behind the last is there no more.
pub open spec fn smooth_copies(copies: nat) -> Seq<WriteEventView> {
    seq![WriteEventView::Succeeded { more: copies > 0 }] + Seq::new(
        2 * copies,
        |i: int|
            if i % 2 == 0 {
                WriteEventView::Checked { cancelled: false }
            } else {
                WriteEventView::Succeeded { more: i + 1 < 2 * copies }
            },
    )
}

proof fn lemma_smooth_copies(write: StagedWriteView, copies: nat, n: int)
    requires
        write.state is Creating,
        1 <= n <= smooth_copies(copies).len(),
    ensures
        write_after(write, smooth_copies(copies).take(n)) == (StagedWriteView {
            state: if n == 2 * copies + 1 {
                WriteStateView::Flushing
            } else if n % 2 == 1 {
                WriteStateView::Checking
            } else {
                WriteStateView::Copying
            },
            ..write
        }),
    decreases n,
{
    let events = smooth_copies(copies);
    assert(events.take(n).drop_last() =~= events.take(n - 1));
    assert(events.take(n).last() == events[n - 1]);
    if n == 1 {
        assert(write_after(write, events.take(0)) == write);
    } else {
        lemma_smooth_copies(write, copies, n - 1);
    }
}

/// A write that nothing disturbs ends: its file has taken the name, whatever rights are to
/// be kept, and nothing else of the write has changed.
pub proof fn undisturbed_writes_are_done(write: StagedWriteView, copies: nat)
    requires
        write.state is Creating,
    ensures
        write_after(write, smooth_events(copies, write.permissions is Some)) == (StagedWriteView {
            state: WriteStateView::Done,
            ..write
        }),
{
    let kept = write.permissions is Some;
    let copying = smooth_copies(copies);
    let events = smooth_events(copies, kept);
    let n = copying.len() as int;
    lemma_smooth_copies(write, copies, n);
    assert(copying.take(n) =~= copying);
    assert(events.take(n) =~= copying);
    assert(events.take(n + 1).drop_last() =~= events.take(n));
    assert(events.take(n + 2).drop_last() =~= events.take(n + 1));
    assert(events.take(n + 3).drop_last() =~= events.take(n + 2));
    assert(events.take(n + 1).last() == events[n]);
    assert(events.take(n + 2).last() == events[n + 1]);
    assert(events.take(n + 3).last() == events[n + 2]);
    let a = write_after(write, events.take(n + 1));
    let b = write_after(write, events.take(n + 2));
    let c = write_after(write, events.take(n + 3));
    if kept {
        assert(events.take(n + 4).drop_last() =~= events.take(n + 3));
        assert(events.take(n + 4).last() == events[n + 3]);
        assert(events.take(n + 4) =~= events);
    } else {
        assert(events.take(n + 3) =~= events);
    }
}

/// Whether one of the events is the answer that the operation was cancelled.
pub open spec fn was_cancelled(events: Seq<WriteEventView>) -> bool {
    exists|i: int|
        0 <= i < events.len() && #[trigger] events[i] == (WriteEventView::Checked {
            cancelled: true,
        })
}

/// A write that was told of the cancellation before it was done is never done.
pub proof fn cancelled_writes_are_not_done(write: StagedWriteView, events: Seq<WriteEventView>)
    requires
        write.state is Creating,
        was_cancelled(events),
        forall|k: int|
            0 <= k < events.len() ==> write_after(write, #[trigger] events.take(k)).state !is Done,
    ensures
        write_after(write, events).state !is Done,
{
    let i = choose|i: int|
        0 <= i < events.len() && #[trigger] events[i] == (WriteEventView::Checked {
            cancelled: true,
        });
    lemma_stays_undone(write, events, i);
}

proof fn lemma_stays_undone(write: StagedWriteView, events: Seq<WriteEventView>, i: int)
    requires
        0 <= i < events.len(),
        events[i] == (WriteEventView::Checked { cancelled: true }),
        forall|k: int|
            0 <= k < events.len() ==> write_after(write, #[trigger] events.take(k)).state !is Done,
    ensures
        ({
            let after = write_after(write, events).state;
            after is Removing || after is Failed
        }),
    decreases events.len(),
{
    let before = events.drop_last();
    assert(events.take(events.len() - 1) =~= before);
    if i == events.len() - 1 {
        assert(write_after(write, events.take(events.len() - 1)).state !is Done);
    } else {
        assert forall|k: int| 0 <= k < before.len() implies write_after(
            write,
            #[trigger] before.take(k),
        ).state !is Done by {
            assert(before.take(k) =~= events.take(k));
        }
        lemma_stays_undone(write, before, i);
    }
}

// ---------------------------------------------------------------------------
// Names
// ---------------------------------------------------------------------------

/// The name that a file of the editor has while it is written.
pub open spec fn save_name(name: Seq<char>, id: Seq<char>) -> Seq<char> {
    "."@ + name + ".serverbox-"@ + id + ".tmp"@
}

/// The name that an upload has while it is written.
pub open spec fn upload_name(name: Seq<char>, id: Seq<char>) -> Seq<char> {
    "."@ + name + ".serverbox-upload-"@ + id + ".part"@
}

/// Where a file is written before it takes the name at `path`.
pub open spec fn save_staging(path: Seq<char>, id: Seq<char>) -> Result<Seq<char>, Seq<char>> {
    match file_name_of(path) {
        Some(name) => Ok(renamed_path(path, save_name(name, id))),
        None => Err("Choose a file to save"@),
    }
}

/// Where a file is written before it takes the name at `path`, with a given id.
pub fn staging_for(path: &str, id: &str) -> (res: Result<String, String>)
    ensures
        text_result(res) == save_staging(path@, id@),
{
    match file_name(path) {
        Some(name) => {
            let staged = glue5(".", name.as_str(), ".serverbox-", id, ".tmp");
            Ok(with_file_name(path, staged.as_str()))
        },
        None => Err(copy("Choose a file to save")),
    }
}

/// The start of a save. The rights that the file has are kept.
pub fn write_file(path: &str, permissions: Option<u32>) -> (res: Result<StagedWrite, String>)
    ensures
        match res {
            Ok(write) => exists|id: Seq<char>|
                is_uuid(id) && #[trigger] save_staging(path@, id) == Ok::<Seq<char>, Seq<char>>(
                    write@.staging,
                ) && write@ == started_save(path@, write@.staging, permissions),
            Err(error) => file_name_of(path@) is None && error@ == "Choose a file to save"@,
        },
{
    let id = random_uuid();
    match staging_for(path, id.as_str()) {
        Ok(staging) => {
            let kept = keep_bits(permissions);
            let write = StagedWrite::new(WritePurpose::Save, path, staging, kept);
            assert(write@ == started_save(path@, write@.staging, permissions));
            Ok(write)
        },
        Err(error) => Err(error),
    }
}

pub open spec fn started_save(path: Seq<char>, staging: Seq<char>, permissions: Option<u32>) -> StagedWriteView {
    StagedWriteView {
        source: None,
        destination: path,
        staging,
        permissions: kept_bits(permissions),
        state: WriteStateView::Creating,
    }
}

/// The bits of a mode that are kept: the rights, and not the kind of the file.
pub open spec fn kept_bits(permissions: Option<u32>) -> Option<u32> {
    match permissions {
        Some(bits) => Some(bits & 0o7777),
        None => None,
    }
}

pub fn keep_bits(permissions: Option<u32>) -> (res: Option<u32>)
    ensures
        res == kept_bits(permissions),
{
    match permissions {
        Some(bits) => Some(bits & 0o7777),
        None => None,
    }
}

/// Where a file is sent before it takes the name at `path`.
pub open spec fn upload_staging(path: Seq<char>, id: Seq<char>) -> Result<Seq<char>, Seq<char>> {
    match file_name_of(path) {
        Some(name) => Ok(renamed_path(path, upload_name(name, id))),
        None => Err("Choose a remote file destination"@),
    }
}

/// Where a file is sent before it takes the name at `path`, with a given id.
pub fn upload_staging_for(path: &str, id: &str) -> (res: Result<String, String>)
    ensures
        text_result(res) == upload_staging(path@, id@),
{
    match file_name(path) {
        Some(name) => {
            let staged = glue5(".", name.as_str(), ".serverbox-upload-", id, ".part");
            Ok(with_file_name(path, staged.as_str()))
        },
        None => Err(copy("Choose a remote file destination")),
    }
}

/// The name of the file that a download is written to.
pub fn download_file_name(transfer_id: &str) -> (res: String)
    ensures
        res@ == ".serverbox-download-"@ + transfer_id@ + ".part"@,
{
    glue3(".serverbox-download-", transfer_id, ".part")
}

/// The name of the directory that a download is written to.
pub fn download_directory_name(transfer_id: &str) -> (res: String)
    ensures
        res@ == ".serverbox-download-"@ + transfer_id@,
{
    glue2(".serverbox-download-", transfer_id)
}

/// While it is written a file has another name than its own, and one that hides it.
pub proof fn staging_names_differ(name: Seq<char>, id: Seq<char>)
    ensures
        save_name(name, id) != name,
        upload_name(name, id) != name,
        save_name(name, id)[0] == '.',
        upload_name(name, id)[0] == '.',
{
    reveal_strlit(".");
    reveal_strlit(".tmp");
    reveal_strlit(".part");
    assert(save_name(name, id).len() > name.len());
    assert(upload_name(name, id).len() > name.len());
}

// ---------------------------------------------------------------------------
// Uploads
// ---------------------------------------------------------------------------

/// The files that an upload would overwrite: how many there are, and the first of them.
#[derive(Debug, PartialEq, Eq)]
pub struct UploadConflicts {
    pub paths: Vec<String>,
    pub count: usize,
}

/// How many of them are named.
pub const MAX_NAMED_CONFLICTS: usize = 5;

#[verifier::ext_equal]
pub struct UploadConflictsView {
    pub paths: Seq<Seq<char>>,
    pub count: usize,
}

impl View for UploadConflicts {
    type V = UploadConflictsView;

    open spec fn view(&self) -> UploadConflictsView {
        UploadConflictsView { paths: views(self.paths@), count: self.count }
    }
}

/// The conflicts with one more destination.
pub open spec fn with_destination(
    conflicts: UploadConflictsView,
    destination: Seq<char>,
    occupied: bool,
) -> UploadConflictsView {
    if occupied {
        UploadConflictsView {
            paths: if conflicts.paths.len() < MAX_NAMED_CONFLICTS {
                conflicts.paths.push(destination)
            } else {
                conflicts.paths
            },
            count: conflicts.count.saturating_add(1),
        }
    } else {
        conflicts
    }
}

impl UploadConflicts {
    pub fn new() -> (res: Self)
        ensures
            res@ == (UploadConflictsView { paths: Seq::empty(), count: 0 }),
    {
        let paths: Vec<String> = Vec::new();
        assert(views(paths@) =~= Seq::empty());
        UploadConflicts { paths, count: 0 }
    }

    /// Takes another destination, and whether something is there.
    pub fn record(&mut self, destination: &str, occupied: bool)
        ensures
            final(self)@ == with_destination(old(self)@, destination@, occupied),
    {
        broadcast use lemma_views_push;

        if occupied {
            self.count = self.count.saturating_add(1);
            if self.paths.len() < MAX_NAMED_CONFLICTS {
                self.paths.push(copy(destination));
            }
        }
    }
}

/// Whether an upload may begin.
pub open spec fn conflict_verdict(conflicts: UploadConflictsView, overwrite: bool) -> Result<
    (),
    Seq<char>,
> {
    if overwrite || conflicts.count == 0 {
        Ok(())
    } else {
        Err(conflict_text(conflicts.paths, conflicts.count))
    }
}

/// An upload goes on where it overwrites nothing, or may.
pub fn upload_verdict(conflicts: &UploadConflicts, overwrite: bool) -> (res: Result<(), String>)
    ensures
        error_result(res) == conflict_verdict(conflicts@, overwrite),
        res matches Err(error) ==> kind_of(error@) == (AppErrorView::UploadConflict {
            paths: conflicts@.paths,
            count: conflicts@.count,
        }),
{
    if overwrite || conflicts.count == 0 {
        Ok(())
    } else {
        Err(upload_conflict(conflicts.paths.as_slice(), conflicts.count))
    }
}

/// Where an upload goes: a directory's entries into the remote directory, and a file into
/// it under its name.
pub open spec fn upload_target(root: Seq<char>, directory: bool, name: Option<Seq<char>>) -> Result<
    Seq<char>,
    Seq<char>,
> {
    if directory {
        Ok(root)
    } else {
        match name {
            Some(name) => Ok(joined_path(root, name)),
            None => Err("Choose a local file to upload"@),
        }
    }
}

pub fn upload_destination(root: &str, directory: bool, name: Option<&str>) -> (res: Result<
    String,
    String,
>)
    ensures
        text_result(res) == upload_target(
            root@,
            directory,
            match name {
                Some(text) => Some(text@),
                None => None,
            },
        ),
{
    if directory {
        return Ok(copy(root));
    }
    match name {
        Some(name) => Ok(crate::ssh::join_path(root, name)),
        None => Err(copy("Choose a local file to upload")),
    }
}

/// The start of the upload of a file. Where it replaces one, the rights of that are kept.
pub open spec fn started_upload(
    source: Seq<char>,
    destination: Seq<char>,
    staging: Seq<char>,
    overwrite: bool,
    permissions: Option<u32>,
) -> StagedWriteView {
    StagedWriteView {
        source: Some(source),
        destination,
        staging,
        permissions: if overwrite {
            kept_bits(permissions)
        } else {
            None
        },
        state: WriteStateView::Creating,
    }
}

/// The start of the upload of a file. `permissions` are those of the file that it replaces.
pub fn upload_file(
    source: &str,
    destination: &str,
    overwrite: bool,
    permissions: Option<u32>,
) -> (res: Result<StagedWrite, String>)
    ensures
        match res {
            Ok(write) => exists|id: Seq<char>|
                is_uuid(id) && #[trigger] upload_staging(destination@, id) == Ok::<Seq<char>, Seq<char>>(
                    write@.staging,
                ) && write@ == started_upload(
                    source@,
                    destination@,
                    write@.staging,
                    overwrite,
                    permissions,
                ),
            Err(error) => file_name_of(destination@) is None && error@
                == "Choose a remote file destination"@,
        },
{
    let id = random_uuid();
    match upload_staging_for(destination, id.as_str()) {
        Ok(staging) => {
            let kept = if overwrite {
                keep_bits(permissions)
            } else {
                None
            };
            let write = StagedWrite::new(
                WritePurpose::Upload { source: copy(source) },
                destination,
                staging,
                kept,
            );
            assert(write@ == started_upload(
                source@,
                destination@,
                write@.staging,
                overwrite,
                permissions,
            ));
            Ok(write)
        },
        Err(error) => Err(error),
    }
}

/// What is at the place of a remote directory that could not be made.
#[derive(Clone, Copy, Debug, PartialEq, Eq, Structural)]
pub enum FolderProbe {
    /// Something with this mode.
    Found(Option<u32>),
    Missing,
}

/// Whether a remote directory is there after the attempt to make it.
pub open spec fn folder_verdict(path: Seq<char>, made: Option<Seq<char>>, probe: FolderProbe) -> Result<
    (),
    Seq<char>,
> {
    match made {
        None => Ok(()),
        Some(error) => match probe {
            FolderProbe::Found(mode) => if is_directory_mode(mode) {
                Ok(())
            } else {
                Err(
                    "Could not create remote folder "@ + path
                        + ": a non-folder entry already exists"@,
                )
            },
            FolderProbe::Missing => Err(
                "Could not create remote folder "@ + path + ": "@ + error,
            ),
        },
    }
}

/// Whether a remote directory is there after the attempt to make it, which failed with
/// `error` or did not.
pub fn ensure_remote_directory(path: &str, error: Option<&str>, probe: FolderProbe) -> (res: Result<
    (),
    String,
>)
    ensures
        error_result(res) == folder_verdict(
            path@,
            match error {
                Some(text) => Some(text@),
                None => None,
            },
            probe,
        ),
{
    match error {
        None => Ok(()),
        Some(error) => match probe {
            FolderProbe::Found(mode) => if is_directory(mode) {
                Ok(())
            } else {
                Err(
                    glue3(
                        "Could not create remote folder ",
                        path,
                        ": a non-folder entry already exists",
                    ),
                )
            },
            FolderProbe::Missing => {
                let mut out = glue3("Could not create remote folder ", path, ": ");
                out.append(error);
                Err(out)
            },
        },
    }
}

// ---------------------------------------------------------------------------
// Totals and progress
// ---------------------------------------------------------------------------

/// Bytes and files, each modulo two to the power of 64.
#[derive(Clone, Copy, Debug, PartialEq, Eq, Structural)]
pub struct Totals {
    pub bytes: u64,
    pub files: u64,
}

pub open spec fn totals_sum(a: Totals, b: Totals) -> Totals {
    Totals { bytes: a.bytes.wrapping_add(b.bytes), files: a.files.wrapping_add(b.files) }
}

/// The totals of two parts together.
pub fn add_totals(a: Totals, b: Totals) -> (res: Totals)
    ensures
        res == totals_sum(a, b),
        a.bytes + b.bytes <= u64::MAX ==> res.bytes == a.bytes + b.bytes,
        a.files + b.files <= u64::MAX ==> res.files == a.files + b.files,
{
    Totals { bytes: a.bytes.wrapping_add(b.bytes), files: a.files.wrapping_add(b.files) }
}

/// A transfer that is under way.
#[derive(Debug, PartialEq, Eq)]
pub struct Transfer {
    pub id: String,
    pub direction: String,
    pub total: Totals,
    pub completed: Totals,
}

#[verifier::ext_equal]
pub struct TransferView {
    pub id: Seq<char>,
    pub direction: Seq<char>,
    pub total: Totals,
    pub completed: Totals,
}

impl View for Transfer {
    type V = TransferView;

    open spec fn view(&self) -> TransferView {
        TransferView {
            id: self.id@,
            direction: self.direction@,
            total: self.total,
            completed: self.completed,
        }
    }
}

/// What is told of a transfer.
pub open spec fn progress_of(transfer: TransferView, path: Seq<char>, done: bool) -> TransferProgressView {
    TransferProgressView {
        transfer_id: transfer.id,
        direction: transfer.direction,
        path,
        completed_bytes: transfer.completed.bytes,
        total_bytes: transfer.total.bytes,
        completed_files: transfer.completed.files,
        total_files: transfer.total.files,
        done,
        error: None,
    }
}

/// What is told of a transfer that failed: nothing counts as completed. A download does
/// not tell what it would have come to.
pub open spec fn failed_progress(
    transfer: TransferView,
    path: Seq<char>,
    error: Seq<char>,
) -> TransferProgressView {
    TransferProgressView {
        completed_bytes: 0,
        completed_files: 0,
        total_bytes: if transfer.direction == "upload"@ {
            transfer.total.bytes
        } else {
            0
        },
        total_files: if transfer.direction == "upload"@ {
            transfer.total.files
        } else {
            0
        },
        error: Some(error),
        ..progress_of(transfer, path, true)
    }
}

pub open spec fn no_totals() -> Totals {
    Totals { bytes: 0, files: 0 }
}

impl Transfer {
    /// A transfer that begins. It has a random id.
    pub fn start(direction: &str) -> (res: Self)
        ensures
            res@.direction == direction@,
            is_uuid(res@.id),
            res@.total == no_totals(),
            res@.completed == no_totals(),
    {
        Transfer {
            id: random_uuid(),
            direction: copy(direction),
            total: Totals { bytes: 0, files: 0 },
            completed: Totals { bytes: 0, files: 0 },
        }
    }

    /// Takes what the transfer comes to in all.
    pub fn set_total(&mut self, total: Totals)
        ensures
            final(self)@ == (TransferView { total, ..old(self)@ }),
    {
        self.total = total;
    }

    /// Takes bytes that were copied.
    pub fn copied(&mut self, bytes: u64)
        ensures
            final(self)@ == (TransferView {
                completed: totals_sum(old(self)@.completed, Totals { bytes, files: 0 }),
                ..old(self)@
            }),
    {
        self.completed = add_totals(self.completed, Totals { bytes, files: 0 });
    }

    /// Takes a file that is whole.
    pub fn finished_file(&mut self)
        ensures
            final(self)@ == (TransferView {
                completed: totals_sum(old(self)@.completed, Totals { bytes: 0, files: 1 }),
                ..old(self)@
            }),
    {
        self.completed = add_totals(self.completed, Totals { bytes: 0, files: 1 });
    }

    /// What is told of the transfer.
    pub fn progress(&self, path: &str, done: bool) -> (res: TransferProgress)
        ensures
            res@ == progress_of(self@, path@, done),
    {
        TransferProgress {
            transfer_id: self.id.clone(),
            direction: self.direction.clone(),
            path: copy(path),
            completed_bytes: self.completed.bytes,
            total_bytes: self.total.bytes,
            completed_files: self.completed.files,
            total_files: self.total.files,
            done,
            error: None,
        }
    }

    /// What is told of the transfer when it failed.
    pub fn failed(&self, path: &str, error: &str) -> (res: TransferProgress)
        ensures
            res@ == failed_progress(self@, path@, error@),
    {
        let upload = same(self.direction.as_str(), "upload");
        TransferProgress {
            transfer_id: self.id.clone(),
            direction: self.direction.clone(),
            path: copy(path),
            completed_bytes: 0,
            total_bytes: if upload {
                self.total.bytes
            } else {
                0
            },
            completed_files: 0,
            total_files: if upload {
                self.total.files
            } else {
                0
            },
            done: true,
            error: Some(copy(error)),
        }
    }
}

// ---------------------------------------------------------------------------
// Downloads
// ---------------------------------------------------------------------------

pub open spec fn occupied_text(destination: Seq<char>) -> Seq<char> {
    "The download destination already exists: "@ + destination
}

/// Whether a download may take its place.
pub open spec fn place_verdict(destination: Seq<char>, occupied: bool) -> Result<(), Seq<char>> {
    if occupied {
        Err(occupied_text(destination))
    } else {
        Ok(())
    }
}

/// A download never replaces anything.
pub fn download_verdict(destination: &str, occupied: bool) -> (res: Result<(), String>)
    ensures
        error_result(res) == place_verdict(destination@, occupied),
{
    if occupied {
        Err(glue2("The download destination already exists: ", destination))
    } else {
        Ok(())
    }
}

/// The name that a directory is downloaded under.
pub fn download_name(path: &str) -> (res: String)
    ensures
        res@ == match file_name_of(path@) {
            Some(name) => name,
            None => "root"@,
        },
{
    match file_name(path) {
        Some(name) => name,
        None => copy("root"),
    }
}

/// What is at a place on the way to a local directory.
#[derive(Debug, PartialEq, Eq)]
pub enum LocalProbe {
    Directory,
    Other,
    /// Nothing is there. `parent` is the handle of the place above, where there is one.
    Missing { parent: Option<u64> },
    Failed(String),
}

/// The search for the part of a path that exists. Places go by handles; `missing` are those
/// that were looked at and are not there, the deepest first.
#[derive(Debug, PartialEq, Eq)]
pub struct DirectorySearch {
    pub missing: Vec<u64>,
}

/// What is done next.
#[derive(Debug, PartialEq, Eq)]
pub enum DirectoryAction {
    /// Look at the place above.
    Look(u64),
    /// Make the directories that are missing, in this order.
    Create(Vec<u64>),
    Fail(String),
}

#[verifier::ext_equal]
pub enum DirectoryActionView {
    Look(u64),
    Create(Seq<u64>),
    Fail(Seq<char>),
}

impl View for DirectoryAction {
    type V = DirectoryActionView;

    open spec fn view(&self) -> DirectoryActionView {
        match *self {
            DirectoryAction::Look(handle) => DirectoryActionView::Look(handle),
            DirectoryAction::Create(handles) => DirectoryActionView::Create(handles@),
            DirectoryAction::Fail(error) => DirectoryActionView::Fail(error@),
        }
    }
}

/// The next step of the search. `path` is the directory that is wanted, and `place` the one
/// that was looked at.
pub open spec fn directory_step(
    missing: Seq<u64>,
    handle: u64,
    path: Seq<char>,
    place: Seq<char>,
    probe: LocalProbe,
) -> DirectoryActionView {
    match probe {
        LocalProbe::Directory => DirectoryActionView::Create(missing.reverse()),
        LocalProbe::Other => DirectoryActionView::Fail(
            "The download parent is not a folder: "@ + place,
        ),
        LocalProbe::Missing { parent } => match parent {
            Some(above) => DirectoryActionView::Look(above),
            None => DirectoryActionView::Fail("Could not find a parent folder for "@ + path),
        },
        LocalProbe::Failed(detail) => DirectoryActionView::Fail(
            "Could not inspect download directory "@ + place + ": "@ + detail@,
        ),
    }
}

fn reversed(items: &Vec<u64>) -> (res: Vec<u64>)
    ensures
        res@ == items@.reverse(),
{
    let mut out: Vec<u64> = Vec::new();
    let mut i: usize = items.len();
    while i > 0
        invariant
            i <= items@.len(),
            out@ == items@.reverse().take(items@.len() - i),
        decreases i,
    {
        i -= 1;
        out.push(items[i]);
        assert(items@.reverse().take(items@.len() - i) =~= items@.reverse().take(
            items@.len() - i - 1,
        ).push(items@[i as int]));
    }
    assert(items@.reverse().take(items@.len() as int) =~= items@.reverse());
    out
}

impl DirectorySearch {
    pub fn new() -> (res: Self)
        ensures
            res.missing@ == Seq::<u64>::empty(),
    {
        DirectorySearch { missing: Vec::new() }
    }

    /// Takes what is at a place, and says what is done next.
    pub fn ensure_local_directory(
        &mut self,
        handle: u64,
        path: &str,
        place: &str,
        probe: LocalProbe,
    ) -> (res: DirectoryAction)
        ensures
            res@ == directory_step(old(self).missing@, handle, path@, place@, probe),
            final(self).missing@ == if probe is Missing {
                old(self).missing@.push(handle)
            } else {
                old(self).missing@
            },
    {
        match probe {
            LocalProbe::Directory => DirectoryAction::Create(reversed(&self.missing)),
            LocalProbe::Other => DirectoryAction::Fail(
                glue2("The download parent is not a folder: ", place),
            ),
            LocalProbe::Missing { parent } => {
                self.missing.push(handle);
                match parent {
                    Some(above) => DirectoryAction::Look(above),
                    None => DirectoryAction::Fail(
                        glue2("Could not find a parent folder for ", path),
                    ),
                }
            },
            LocalProbe::Failed(detail) => {
                let mut out = glue3("Could not inspect download directory ", place, ": ");
                out.append(detail.as_str());
                DirectoryAction::Fail(out)
            },
        }
    }
}

/// A step of undoing a download that failed. Directories go by handles.
#[derive(Clone, Copy, Debug, PartialEq, Eq, Structural)]
pub enum CleanupStep {
    RemoveStagingFile,
    RemoveStagingDirectory,
    RemoveDirectory(u64),
}

/// What undoes a download that failed: its staging goes first, then the directories that
/// were made for it, the deepest first.
pub open spec fn cleanup_of(created: Seq<u64>, file: bool, directory: bool) -> Seq<CleanupStep> {
    (if file {
        seq![CleanupStep::RemoveStagingFile]
    } else {
        Seq::empty()
    }) + (if directory {
        seq![CleanupStep::RemoveStagingDirectory]
    } else {
        Seq::empty()
    }) + created.reverse().map_values(|handle: u64| CleanupStep::RemoveDirectory(handle))
}

/// What undoes a download that failed. `created` are the directories in the order in which
/// they were made.
pub fn download_cleanup(created: &[u64], file: bool, directory: bool) -> (res: Vec<CleanupStep>)
    ensures
        res@ == cleanup_of(created@, file, directory),
{
    let mut out: Vec<CleanupStep> = Vec::new();
    if file {
        out.push(CleanupStep::RemoveStagingFile);
    }
    if directory {
        out.push(CleanupStep::RemoveStagingDirectory);
    }
    let ghost start = out@;
    let ghost all = created@.reverse().map_values(
        |handle: u64| CleanupStep::RemoveDirectory(handle),
    );
    assert(start =~= (if file {
        seq![CleanupStep::RemoveStagingFile]
    } else {
        Seq::empty()
    }) + (if directory {
        seq![CleanupStep::RemoveStagingDirectory]
    } else {
        Seq::empty()
    }));
    let mut i: usize = created.len();
    assert(start + all.take(0) =~= start);
    while i > 0
        invariant
            i <= created@.len(),
            all == created@.reverse().map_values(
                |handle: u64| CleanupStep::RemoveDirectory(handle),
            ),
            out@ == start + all.take(created@.len() - i),
        decreases i,
    {
        let ghost k = created@.len() - i;
        i -= 1;
        out.push(CleanupStep::RemoveDirectory(created[i]));
        assert(all[k] == CleanupStep::RemoveDirectory(created@[i as int]));
        assert(start + all.take(k + 1) =~= (start + all.take(k)).push(all[k]));
    }
    assert(all.take(created@.len() as int) =~= all);
    out
}

/// Every directory that a download made is removed when it fails, and none that was there
/// before. (Directories are made in the order of `missing` reversed, and undone in the
/// order of `missing`.)
pub proof fn made_directories_are_undone(missing: Seq<u64>, file: bool, directory: bool)
    ensures
        ({
            let steps = cleanup_of(missing.reverse(), file, directory);
            &&& steps.len() == missing.len() + (if file {
                1int
            } else {
                0
            }) + (if directory {
                1int
            } else {
                0
            })
            &&& forall|i: int|
                0 <= i < missing.len() ==> steps[steps.len() - missing.len() + i]
                    == CleanupStep::RemoveDirectory(#[trigger] missing[i])
        }),
{
    assert(missing.reverse().reverse() =~= missing);
}

// ---------------------------------------------------------------------------
// Walking a remote directory
// ---------------------------------------------------------------------------

/// An entry of a remote directory. `handle` is what the caller knows it by.
#[derive(Clone, Copy, Debug, PartialEq, Eq, Structural)]
pub struct RemoteEntry {
    pub handle: u64,
    pub directory: bool,
}

/// What is still to be downloaded, the next at the end.
pub struct DownloadWalk {
    pub tasks: Vec<RemoteEntry>,
}

impl View for DownloadWalk {
    type V = Seq<RemoteEntry>;

    open spec fn view(&self) -> Seq<RemoteEntry> {
        self.tasks@
    }
}

impl DownloadWalk {
    /// The download of a directory or a file.
    pub fn new(root: RemoteEntry) -> (res: Self)
        ensures
            res@ == seq![root],
    {
        let mut tasks: Vec<RemoteEntry> = Vec::new();
        tasks.push(root);
        assert(tasks@ =~= seq![root]);
        DownloadWalk { tasks }
    }

    /// What is downloaded next; a cancelled download goes no further.
    pub fn next(&mut self, cancelled: bool) -> (res: Result<Option<RemoteEntry>, String>)
        ensures
            match res {
                Ok(Some(entry)) => !cancelled && old(self)@.len() > 0 && entry == old(self)@.last()
                    && final(self)@ == old(self)@.drop_last(),
                Ok(None) => old(self)@.len() == 0 && final(self)@ == old(self)@,
                Err(error) => cancelled && old(self)@.len() > 0 && error@ == OPERATION_CANCELLED@
                    && final(self)@ == old(self)@,
            },
    {
        if self.tasks.len() == 0 {
            return Ok(None);
        }
        if cancelled {
            return Err(copy(OPERATION_CANCELLED));
        }
        let ghost before = self.tasks@;
        match self.tasks.pop() {
            Some(entry) => {
                assert(self.tasks@ =~= before.drop_last());
                Ok(Some(entry))
            },
            None => Ok(None),
        }
    }

    /// The directory that was taken has these entries: they come next, in this order.
    pub fn listed(&mut self, children: &[RemoteEntry])
        ensures
            final(self)@ == old(self)@ + children@.reverse(),
    {
        let ghost before = self.tasks@;
        let ghost all = children@.reverse();
        let mut i: usize = children.len();
        assert(before + all.take(0) =~= before);
        while i > 0
            invariant
                i <= children@.len(),
                all == children@.reverse(),
                self.tasks@ == before + all.take(children@.len() - i),
            decreases i,
        {
            let ghost k = children@.len() - i;
            i -= 1;
            self.tasks.push(children[i]);
            assert(all[k] == children@[i as int]);
            assert(before + all.take(k + 1) =~= (before + all.take(k)).push(all[k]));
        }
        assert(all.take(children@.len() as int) =~= all);
    }
}

/// The staging file lies beside the file, so that it can take its name: in the same
/// directory, under a hidden name with the file's own in it.
pub proof fn staging_files_lie_beside(dir: Seq<char>, name: Seq<char>, id: Seq<char>)
    requires
        dir.len() > 0,
        dir.last() != '/' && dir.last() != '.',
        name.len() > 0 && !name.contains('/') && name != "."@ && name != ".."@,
        !id.contains('/'),
    ensures
        save_staging(dir + "/"@ + name, id) == Ok::<Seq<char>, Seq<char>>(
            dir + "/"@ + ("."@ + name + ".serverbox-"@ + id + ".tmp"@),
        ),
        upload_staging(dir + "/"@ + name, id) == Ok::<Seq<char>, Seq<char>>(
            dir + "/"@ + ("."@ + name + ".serverbox-upload-"@ + id + ".part"@),
        ),
{
    reveal_strlit("/");
    reveal_strlit(".");
    joined_names_are_read_back(dir, name);
    joined_directories_are_read_back(dir, name, save_name(name, id));
    joined_directories_are_read_back(dir, name, upload_name(name, id));
    assert(save_name(name, id)[0] == '.');
    assert(upload_name(name, id)[0] == '.');
}

/// A save keeps the rights of the file, and so does an upload that replaces one; what is new
/// has none to keep. Only the rights are kept of a mode, not what the file is.
pub proof fn rights_are_kept(
    path: Seq<char>,
    source: Seq<char>,
    staging: Seq<char>,
    permissions: Option<u32>,
)
    ensures
        started_save(path, staging, permissions).destination == path,
        started_save(path, staging, permissions).source is None,
        started_upload(source, path, staging, true, permissions).permissions == started_save(
            path,
            staging,
            permissions,
        ).permissions,
        started_upload(source, path, staging, false, permissions).permissions is None,
        started_upload(source, path, staging, true, permissions).source == Some(source),
        started_upload(source, path, staging, true, permissions).destination == path,
        started_save(path, staging, None).permissions is None,
        permissions matches Some(bits) ==> (started_save(path, staging, permissions).permissions
            matches Some(kept) && kept < 4096 && forall|mask: u32|
            mask < 4096 ==> (#[trigger] (kept & mask)) == bits & mask),
{
    if let Some(bits) = permissions {
        assert(bits & 0o7777 < 4096) by (bit_vector);
        assert forall|mask: u32| mask < 4096 implies (#[trigger] ((bits & 0o7777) & mask)) == bits
            & mask by {
            assert(mask < 4096 ==> (bits & 0o7777) & mask == bits & mask) by (bit_vector);
        }
    }
}

/// Every destination that is taken is counted, and the first five are named.
pub proof fn conflicts_are_counted(conflicts: UploadConflictsView, destination: Seq<char>)
    ensures
        with_destination(conflicts, destination, false) == conflicts,
        conflicts.count < usize::MAX ==> with_destination(conflicts, destination, true).count
            == conflicts.count + 1,
        conflicts.paths.len() < 5 ==> with_destination(conflicts, destination, true).paths
            == conflicts.paths.push(destination),
        conflicts.paths.len() >= 5 ==> with_destination(conflicts, destination, true).paths
            == conflicts.paths,
{
}

/// A file is uploaded under its own name below the folder that was chosen; a folder is
/// uploaded to the place that was chosen for it.
pub proof fn uploads_go_where_they_were_sent(root: Seq<char>, name: Seq<char>)
    requires
        name.len() > 0 && name[0] != '/',
        root.len() > 0 && root.last() != '/',
    ensures
        upload_target(root, false, Some(name)) == Ok::<Seq<char>, Seq<char>>(root + "/"@ + name),
        upload_target(root, true, Some(name)) == Ok::<Seq<char>, Seq<char>>(root),
        upload_target(root, false, None) is Err,
{
}

/// A folder is there where it could be made, or was there before; else the reason is told.
pub proof fn folders_are_made_or_found(path: Seq<char>, error: Seq<char>, mode: Option<u32>)
    ensures
        folder_verdict(path, None, FolderProbe::Missing) is Ok,
        folder_verdict(path, Some(error), FolderProbe::Found(mode)) is Ok <==> is_directory_mode(
            mode,
        ),
        folder_verdict(path, Some(error), FolderProbe::Missing) == Err::<(), Seq<char>>(
            "Could not create remote folder "@ + path + ": "@ + error,
        ),
{
}

/// What is told of a transfer is what it has done and what it has to do; a transfer that
/// failed is over, with its error.
pub proof fn progress_is_told_as_it_is(transfer: TransferView, path: Seq<char>, error: Seq<char>, done: bool)
    ensures
        ({
            let told = progress_of(transfer, path, done);
            &&& told.transfer_id == transfer.id
            &&& told.direction == transfer.direction
            &&& told.path == path
            &&& told.completed_bytes == transfer.completed.bytes
            &&& told.completed_files == transfer.completed.files
            &&& told.total_bytes == transfer.total.bytes
            &&& told.total_files == transfer.total.files
            &&& told.done == done
            &&& told.error is None
        }),
        ({
            let told = failed_progress(transfer, path, error);
            &&& told.transfer_id == transfer.id
            &&& told.direction == transfer.direction
            &&& told.path == path
            &&& told.done
            &&& told.error == Some(error)
        }),
{
}

/// What was copied adds up: bytes to the bytes and files to the files.
pub proof fn totals_add_up(a: Totals, b: Totals)
    requires
        a.bytes + b.bytes <= u64::MAX,
        a.files + b.files <= u64::MAX,
    ensures
        totals_sum(a, b).bytes == a.bytes + b.bytes,
        totals_sum(a, b).files == a.files + b.files,
        totals_sum(a, no_totals()) == a,
{
}

/// A folder that is missing is looked for above, until one is there; then those that were
/// missing are made, the highest first.
pub proof fn missing_folders_are_made(
    missing: Seq<u64>,
    handle: u64,
    path: Seq<char>,
    place: Seq<char>,
    above: u64,
)
    ensures
        directory_step(missing, handle, path, place, LocalProbe::Missing { parent: Some(above) })
            == DirectoryActionView::Look(above),
        directory_step(missing, handle, path, place, LocalProbe::Missing { parent: None }) is Fail,
        directory_step(missing, handle, path, place, LocalProbe::Other) is Fail,
        directory_step(missing, handle, path, place, LocalProbe::Directory) matches
            DirectoryActionView::Create(made) && made.len() == missing.len() && forall|i: int|
            0 <= i < made.len() ==> #[trigger] made[i] == missing[missing.len() - 1 - i],
{
}

/// Nothing that is there is overwritten unless that was asked for: an upload says what is in
/// its way, and a download is refused.
pub proof fn taken_places_are_left_alone(
    conflicts: UploadConflictsView,
    destination: Seq<char>,
)
    ensures
        conflict_verdict(conflicts, true) is Ok,
        conflict_verdict(conflicts, false) is Ok <==> conflicts.count == 0,
        conflicts.count > 0 ==> conflict_verdict(conflicts, false) == Err::<(), Seq<char>>(
            conflict_text(conflicts.paths, conflicts.count),
        ),
        place_verdict(destination, false) is Ok,
        place_verdict(destination, true) == Err::<(), Seq<char>>(
            "The download destination already exists: "@ + destination,
        ),
{
}

/// The error of a write says what could not be done, to which file, and why; and the file that
/// it names is the one that the step was about.
pub proof fn write_errors_name_their_file(write: StagedWriteView, detail: Seq<char>)
    ensures
        write.state is Creating && write.source is Some ==> write_failure(
            write,
            WriteEventView::Failed(detail),
        ) == "Could not create upload staging file "@ + write.staging + ": "@ + detail,
        write.state is Flushing ==> write_failure(write, WriteEventView::Failed(detail))
            == "Could not finish writing "@ + write.staging + ": "@ + detail,
        write.state is Keeping ==> write_failure(write, WriteEventView::Failed(detail))
            == "Could not preserve permissions for "@ + write.destination + ": "@ + detail,
        write.state is Renaming && write.source is None ==> write_failure(
            write,
            WriteEventView::Failed(detail),
        ) == "Could not save "@ + write.destination + ": "@ + detail,
        write.state is Renaming && write.source is Some ==> write_failure(
            write,
            WriteEventView::Failed(detail),
        ) == "Could not finish uploading "@ + write.destination + ": "@ + detail,
        write.state is Copying ==> write_failure(write, WriteEventView::Failed(detail))
            == "Could not write "@ + write.staging + ": "@ + detail,
        write.source matches Some(source) ==> write_failure(
            write,
            WriteEventView::ReadFailed(detail),
        ) == "Could not read "@ + source + ": "@ + detail,
        write_failure(write, WriteEventView::Checked { cancelled: true })
            == "Operation cancelled"@,
{
}

/// Of the mode of a file its permissions are kept, and nothing of its kind.
pub proof fn permissions_are_kept(mode: u32)
    ensures
        kept_bits(None) is None,
        kept_bits(Some(mode)) == Some((mode % 4096) as u32),
{
    assert(mode & 0o7777 == mode % 4096) by (bit_vector);
}

} // verus!
