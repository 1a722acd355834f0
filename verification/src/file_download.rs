//! The order of a download to a file: nothing on disk is touched before the server has said what it
//! sends, and before the handshake if the data is encrypted.

use crate::client::{law_file_holds_the_data, planned, resized, DownloadClient, FilePlan};
use crate::models::DataSrvInfo;
use vstd::prelude::*;

verus! {

/// What a download waits for.
#[derive(Clone, Copy, Debug, PartialEq, Eq, Structural)]
pub enum FilePhase {
    /// The server's info.
    ReadingInfo,
    /// The end of the encryption handshake.
    Handshaking,
    /// That the file is created, or emptied if it is there.
    Creating,
    /// That the data is copied into the file.
    Copying,
    /// That the file is given its length.
    Trimming,
    /// Nothing more.
    Over,
}

/// What can happen to a download.
#[derive(Debug)]
pub enum FileEvent {
    /// The server's info is there, and it is known whether the place that the user gave is a directory.
    InfoRead { info: DataSrvInfo, path_is_dir: bool },
    /// The handshake is done.
    HandshakeDone,
    /// The file is there and empty.
    Created,
    /// The copy has ended, with success or without.
    CopyEnded(bool),
    /// The file has its length.
    LengthSet,
    /// What was asked for failed.
    Failed,
}

/// What to do next.
#[derive(Clone, Copy, Debug, PartialEq, Eq, Structural)]
pub enum FileAction {
    /// Read the server's info.
    ReadInfo,
    /// Do the encryption handshake.
    Handshake,
    /// Create the file where the plan says, or empty it.
    CreateFile,
    /// Copy the data into the file.
    Copy,
    /// Give the file this length.
    SetLength(u64),
    /// The download is complete.
    Finish,
    /// End with the failure that was reported.
    Fail,
}

/// Whether `event` can happen in `phase`.
pub open spec fn possible(phase: FilePhase, event: FileEvent) -> bool {
    match phase {
        FilePhase::ReadingInfo => event is InfoRead || event is Failed,
        FilePhase::Handshaking => event is HandshakeDone || event is Failed,
        FilePhase::Creating => event is Created || event is Failed,
        FilePhase::Copying => event is CopyEnded,
        FilePhase::Trimming => event is LengthSet || event is Failed,
        FilePhase::Over => false,
    }
}

/// The phase after `event`.
pub open spec fn next_phase(phase: FilePhase, event: FileEvent) -> FilePhase {
    match (phase, event) {
        (FilePhase::ReadingInfo, FileEvent::InfoRead { info, .. }) => if info@.encrypted {
            FilePhase::Handshaking
        } else {
            FilePhase::Creating
        },
        (FilePhase::Handshaking, FileEvent::HandshakeDone) => FilePhase::Creating,
        (FilePhase::Creating, FileEvent::Created) => FilePhase::Copying,
        (FilePhase::Copying, FileEvent::CopyEnded(true)) => FilePhase::Trimming,
        _ => FilePhase::Over,
    }
}

/// Whether an event is a failure.
pub open spec fn is_failure(event: FileEvent) -> bool {
    event is Failed || event == FileEvent::CopyEnded(false)
}

/// What is done in a download that has come to `phase` by `event`, when the file is to be
/// `final_length` bytes long.
pub open spec fn action(phase: FilePhase, event: FileEvent, final_length: u64) -> FileAction {
    match phase {
        FilePhase::ReadingInfo => FileAction::ReadInfo,
        FilePhase::Handshaking => FileAction::Handshake,
        FilePhase::Creating => FileAction::CreateFile,
        FilePhase::Copying => FileAction::Copy,
        FilePhase::Trimming => FileAction::SetLength(final_length),
        FilePhase::Over => if is_failure(event) {
            FileAction::Fail
        } else {
            FileAction::Finish
        },
    }
}

/// A download to a file.
pub struct FileDownload {
    phase: FilePhase,
    plan: Option<FilePlan>,
}

impl FileDownload {
    /// There is a plan as soon as there is anything to plan.
    #[verifier::type_invariant]
    spec fn inv(&self) -> bool {
        self.plan is Some || self.phase is ReadingInfo || self.phase is Over
    }

    /// What the download waits for.
    pub closed spec fn phase(&self) -> FilePhase {
        self.phase
    }

    /// How the download goes, once that is known.
    pub closed spec fn planned(&self) -> Option<FilePlan> {
        self.plan
    }

    /// Begins a download, by reading the server's info.
    pub fn new() -> (r: (Self, FileAction))
        ensures
            r.0.phase() is ReadingInfo,
            r.0.planned() is None,
            r.1 is ReadInfo,
    {
        (FileDownload { phase: FilePhase::ReadingInfo, plan: None }, FileAction::ReadInfo)
    }

    /// How the download goes, once that is known.
    pub fn plan(&self) -> (r: Option<&FilePlan>)
        ensures
            match r {
                Some(plan) => self.planned() == Some(*plan),
                None => self.planned() is None,
            },
    {
        self.plan.as_ref()
    }

    /// Takes what has happened and says what to do next.
    pub fn on_event(&mut self, event: FileEvent) -> (r: FileAction)
        requires
            possible(old(self).phase(), event),
        ensures
            final(self).phase() == next_phase(old(self).phase(), event),
            match event {
                FileEvent::InfoRead { info, path_is_dir } => final(self).planned() matches Some(plan)
                    && planned(info@, path_is_dir, plan),
                _ => final(self).planned() == old(self).planned(),
            },
            r == action(
                final(self).phase(),
                event,
                if final(self).planned() is Some {
                    final(self).planned()->0.final_length
                } else {
                    0
                },
            ),
    {
        proof {
            use_type_invariant(&*self);
        }
        match event {
            FileEvent::InfoRead { info, path_is_dir } => {
                let plan = DownloadClient::download_to_file(info, path_is_dir);
                if plan.handshake {
                    *self = FileDownload { phase: FilePhase::Handshaking, plan: Some(plan) };
                    FileAction::Handshake
                } else {
                    *self = FileDownload { phase: FilePhase::Creating, plan: Some(plan) };
                    FileAction::CreateFile
                }
            },
            FileEvent::HandshakeDone => {
                self.phase = FilePhase::Creating;
                FileAction::CreateFile
            },
            FileEvent::Created => {
                self.phase = FilePhase::Copying;
                FileAction::Copy
            },
            FileEvent::CopyEnded(copied) => match &self.plan {
                Some(plan) => match DownloadClient::finish_download(copied, plan) {
                    Ok(final_length) => {
                        self.phase = FilePhase::Trimming;
                        FileAction::SetLength(final_length)
                    },
                    Err(_) => {
                        self.phase = FilePhase::Over;
                        FileAction::Fail
                    },
                },
                None => FileAction::Fail,
            },
            FileEvent::LengthSet => {
                self.phase = FilePhase::Over;
                FileAction::Finish
            },
            FileEvent::Failed => {
                self.phase = FilePhase::Over;
                FileAction::Fail
            },
        }
    }
}

/// The phase after `events`; none if they cannot happen in this order.
pub open spec fn after_events(phase: FilePhase, events: Seq<FileEvent>) -> Option<FilePhase>
    decreases events.len(),
{
    if events.len() == 0 {
        Some(phase)
    } else {
        match after_events(phase, events.drop_last()) {
            Some(before) if possible(before, events.last()) => Some(
                next_phase(before, events.last()),
            ),
            _ => None,
        }
    }
}

/// Whether something on disk is touched in `phase`.
pub open spec fn touches_disk(phase: FilePhase) -> bool {
    phase is Creating || phase is Copying || phase is Trimming
}

/// Whether `events` begin with all that has to come before the disk is touched: the server's info, and
/// the handshake if the data is encrypted.
pub open spec fn may_touch_disk(events: Seq<FileEvent>) -> bool {
    &&& events.len() > 0
    &&& events[0] matches FileEvent::InfoRead { info, .. }
    &&& info@.encrypted ==> events.len() > 1 && events[1] is HandshakeDone
}

/// The disk is touched only after the server has said what it sends, and after the handshake if the
/// data is encrypted.
pub proof fn law_disk_waits_for_handshake(events: Seq<FileEvent>)
    requires
        after_events(FilePhase::ReadingInfo, events) matches Some(phase) && touches_disk(phase),
    ensures
        may_touch_disk(events),
{
    lemma_phases(events);
}

/// A download that fails before all that has to come first is there leaves the disk as it was: no file
/// is created, and one that is there keeps its content. The download then ends with the failure.
pub proof fn law_early_failure_leaves_the_disk(events: Seq<FileEvent>, n: int)
    requires
        after_events(FilePhase::ReadingInfo, events) is Some,
        events.len() > 0,
        is_failure(events.last()),
        !may_touch_disk(events),
        0 <= n <= events.len(),
    ensures
        after_events(FilePhase::ReadingInfo, events.take(n)) matches Some(phase) && !touches_disk(
            phase,
        ),
        after_events(FilePhase::ReadingInfo, events) == Some(FilePhase::Over),
        forall|final_length: u64|
            #[trigger] action(FilePhase::Over, events.last(), final_length) is Fail,
{
    lemma_prefix_possible(events, n);
    lemma_phases(events.take(n));
    lemma_phases(events);
    let begun = events.take(n);
    if may_touch_disk(begun) {
        assert(begun[0] == events[0]);
        if begun.len() > 1 {
            assert(begun[1] == events[1]);
        }
    }
}

/// What can happen in a row can happen up to any point of it.
proof fn lemma_prefix_possible(events: Seq<FileEvent>, n: int)
    requires
        after_events(FilePhase::ReadingInfo, events) is Some,
        0 <= n <= events.len(),
    ensures
        after_events(FilePhase::ReadingInfo, events.take(n)) is Some,
    decreases events.len(),
{
    if n == events.len() {
        assert(events.take(n) =~= events);
    } else {
        lemma_prefix_possible(events.drop_last(), n);
        assert(events.drop_last().take(n) =~= events.take(n));
    }
}

/// Where a download stands tells how it has begun.
proof fn lemma_phases(events: Seq<FileEvent>)
    requires
        after_events(FilePhase::ReadingInfo, events) is Some,
    ensures
        ({
            let phase = after_events(FilePhase::ReadingInfo, events)->0;
            &&& touches_disk(phase) ==> may_touch_disk(events)
            &&& phase is ReadingInfo <==> events.len() == 0
            &&& phase is Handshaking ==> {
                &&& events.len() == 1
                &&& events[0] matches FileEvent::InfoRead { info, .. }
                &&& info@.encrypted
            }
        }),
    decreases events.len(),
{
    if events.len() > 0 {
        let before = events.drop_last();
        lemma_phases(before);
        if before.len() > 0 {
            assert(before[0] == events[0]);
            if before.len() > 1 {
                assert(before[1] == events[1]);
            }
        }
    }
}

/// A download that goes well is one thing after the other: the handshake if the data is encrypted, the
/// file, the copy, and the length that the server announced, whichever it is. What the file holds in the
/// end is the data, with or without padding behind it.
pub proof fn law_download_runs_its_course(
    info: DataSrvInfo,
    path_is_dir: bool,
    plan: FilePlan,
    data: Seq<u8>,
    padding: Seq<u8>,
)
    requires
        planned(info@, path_is_dir, plan),
        data.len() == info@.data_length,
    ensures
        ({
            let read = FileEvent::InfoRead { info, path_is_dir };
            let length = plan.final_length;
            let begun = next_phase(FilePhase::ReadingInfo, read);
            let ready = if info@.encrypted {
                next_phase(begun, FileEvent::HandshakeDone)
            } else {
                begun
            };
            let created = next_phase(ready, FileEvent::Created);
            let copied = next_phase(created, FileEvent::CopyEnded(true));
            let done = next_phase(copied, FileEvent::LengthSet);
            &&& info@.encrypted ==> action(begun, read, length) is Handshake && action(
                ready,
                FileEvent::HandshakeDone,
                length,
            ) is CreateFile
            &&& !info@.encrypted ==> action(begun, read, length) is CreateFile
            &&& action(created, FileEvent::Created, length) is Copy
            &&& action(copied, FileEvent::CopyEnded(true), length) == FileAction::SetLength(
                info@.data_length,
            )
            &&& resized(data + padding, length as nat) == data
            &&& action(done, FileEvent::LengthSet, length) is Finish
            &&& done is Over
        }),
{
    law_file_holds_the_data(info@, path_is_dir, plan, data, padding);
}

/// What is done in a download tells what it waits for, and each thing that is done has its one reason: the
/// download fails exactly on a failure and is complete exactly when the file has its length.
pub proof fn law_actions_have_reasons(phase: FilePhase, event: FileEvent, final_length: u64)
    requires
        possible(phase, event),
    ensures
        ({
            let reached = next_phase(phase, event);
            let done = action(reached, event, final_length);
            &&& done is Fail <==> event is Failed || event == FileEvent::CopyEnded(false)
            &&& done is Finish <==> event is LengthSet
            &&& done == FileAction::SetLength(final_length) <==> event == FileEvent::CopyEnded(true)
            &&& done is SetLength <==> event == FileEvent::CopyEnded(true)
            &&& done is Copy <==> event is Created
            &&& done is CreateFile <==> event is HandshakeDone || (
            event matches FileEvent::InfoRead { info, .. } && !info@.encrypted)
            &&& done is Handshake <==> (event matches FileEvent::InfoRead { info, .. }
                && info@.encrypted)
            &&& !(done is ReadInfo)
            &&& reached is Over <==> done is Fail || done is Finish
            &&& reached is Trimming <==> done is SetLength
            &&& reached is Copying <==> done is Copy
            &&& reached is Creating <==> done is CreateFile
            &&& reached is Handshaking <==> done is Handshake
        }),
{
}

} // verus!
