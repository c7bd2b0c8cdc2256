//! What a filesystem notification does to the table of tailed files, and
//! what is to be read and forwarded after it.
//!
//! The handler does not touch the disk or the network. Its caller turns each
//! notification into a [`FileEvent`], carries out the [`Action`] that the
//! handler answers with, and hands the outcome back.

use crate::file_reader::{read_lines_starting_from_byte, scan_lines};
use crate::models::config::Settings;
use crate::models::logs::{records_of, Logs};
use crate::models::positions::{Position, PositionView, PositionsFile};
use crate::positions_manager::{
    added, first_index, has_identity, has_path, lemma_first_index, lemma_first_index_is,
    lemma_recreated_file_starts_at_zero, lemma_rename_keeps_cursors, lookup, renamed,
    with_bytes_read, without_first,
};
use vstd::prelude::*;

verus! {

/// The most bytes that one read after a write takes.
pub const READ_BUDGET: usize = 1_000_000;

/// How a file was opened or was open.
#[derive(Clone, Copy, Debug, PartialEq, Eq, Structural)]
pub enum AccessMode {
    Any,
    Execute,
    Read,
    Write,
    Other,
}

/// What was done to a file that did not change it.
#[derive(Clone, Copy, Debug, PartialEq, Eq, Structural)]
pub enum AccessKind {
    Any,
    Read,
    Open(AccessMode),
    Close(AccessMode),
    Other,
}

/// What was created.
#[derive(Clone, Copy, Debug, PartialEq, Eq, Structural)]
pub enum CreateKind {
    Any,
    File,
    Folder,
    Other,
}

/// Which side of a rename a notification speaks of.
#[derive(Clone, Copy, Debug, PartialEq, Eq, Structural)]
pub enum RenameMode {
    Any,
    /// the new name only
    To,
    /// the old name only
    From,
    /// the old name, then the new one
    Both,
    Other,
}

/// What was changed about a file.
#[derive(Clone, Copy, Debug, PartialEq, Eq, Structural)]
pub enum ModifyKind {
    Any,
    Data,
    Metadata,
    Name(RenameMode),
    Other,
}

/// What a notification reports.
#[derive(Clone, Copy, Debug, PartialEq, Eq, Structural)]
pub enum EventKind {
    Any,
    Access(AccessKind),
    Create(CreateKind),
    Modify(ModifyKind),
    Remove,
    Other,
}

/// What an [`EventPath`] stands for in contracts.
pub struct EventPathView {
    pub text: Option<Seq<char>>,
    pub file_id: Option<u64>,
}

/// A path that a notification names, as it was found when the notification
/// came.
#[derive(Debug)]
pub struct EventPath {
    /// the path, where it is text
    pub text: Option<String>,
    /// the identity of the file under the path, where one was there
    pub file_id: Option<u64>,
}

impl View for EventPath {
    type V = EventPathView;

    open spec fn view(&self) -> EventPathView {
        EventPathView {
            text: match self.text {
                Some(text) => Some(text@),
                None => None,
            },
            file_id: self.file_id,
        }
    }
}

/// What a [`FileEvent`] stands for in contracts.
pub struct FileEventView {
    pub kind: EventKind,
    pub paths: Seq<EventPathView>,
}

/// One notification of the filesystem.
#[derive(Debug)]
pub struct FileEvent {
    pub kind: EventKind,
    /// the paths it names; a rename names the old path, then the new one
    pub paths: Vec<EventPath>,
}

impl View for FileEvent {
    type V = FileEventView;

    open spec fn view(&self) -> FileEventView {
        FileEventView { kind: self.kind, paths: self.paths@.map_values(|p: EventPath| p@) }
    }
}

/// Why a notification could not be handled.
#[derive(Clone, Copy, Debug, PartialEq, Eq, Structural)]
pub enum HandlerError {
    /// a create or remove notification names no path
    MissingPath,
    /// the path that matters is not text
    PathNotText,
    /// no file was found under the path of a created or renamed file
    NoIdentity,
    /// a rename notification names fewer than two paths
    RenameWithoutTarget,
    /// a write notification names no path
    WriteWithoutPath,
    /// no file was found under the path of a written file
    IdentityUnknown,
    /// the written file is not in the table
    NotTracked,
    /// the written file could not be read
    ReadFailed,
}

/// What a [`ReadRequest`] stands for in contracts.
pub struct ReadRequestView {
    pub file_id: u64,
    pub file_path: Seq<char>,
    pub start_byte: u64,
    pub buf_size: usize,
}

/// A read that the handler asks for.
#[derive(Debug)]
pub struct ReadRequest {
    /// the identity of the file to read
    pub file_id: u64,
    /// where the file was last seen
    pub file_path: String,
    /// the offset to read from
    pub start_byte: u64,
    /// the most bytes to take
    pub buf_size: usize,
}

impl View for ReadRequest {
    type V = ReadRequestView;

    open spec fn view(&self) -> ReadRequestView {
        ReadRequestView {
            file_id: self.file_id,
            file_path: self.file_path@,
            start_byte: self.start_byte,
            buf_size: self.buf_size,
        }
    }
}

/// A batch that the handler asks to have delivered.
#[derive(Debug)]
pub struct PublishRequest {
    /// the identity of the file that the lines are from
    pub file_id: u64,
    /// the cursor of the file once the lines are delivered
    pub new_pos: u64,
    /// where to deliver to
    pub server: String,
    pub logs: Logs,
}

/// What the caller is to do next.
#[derive(Debug)]
pub enum Action {
    /// Nothing.
    Nothing,
    /// Write the table out: it may have changed.
    Persist,
    /// Read the file, and hand what was read to
    /// [`EventHandler::handle_file_read`].
    Read(ReadRequest),
    /// Deliver the batch, and hand the outcome to
    /// [`EventHandler::handle_publish_result`].
    Publish(PublishRequest),
}

/// The position that a create notification adds.
pub open spec fn created_position(event: FileEventView) -> Result<PositionView, HandlerError> {
    if event.paths.len() == 0 {
        Err(HandlerError::MissingPath)
    } else {
        match (event.paths[0].text, event.paths[0].file_id) {
            (None, _) => Err(HandlerError::PathNotText),
            (Some(_), None) => Err(HandlerError::NoIdentity),
            (Some(path), Some(id)) => Ok(
                PositionView { file_path: path, file_id: id, bytes_read: 0 },
            ),
        }
    }
}

/// The file that a rename notification moves, and where to.
pub open spec fn rename_target(event: FileEventView) -> Result<(u64, Seq<char>), HandlerError> {
    if event.paths.len() < 2 {
        Err(HandlerError::RenameWithoutTarget)
    } else {
        match (event.paths[1].text, event.paths[1].file_id) {
            (None, _) => Err(HandlerError::PathNotText),
            (Some(_), None) => Err(HandlerError::NoIdentity),
            (Some(to), Some(id)) => Ok((id, to)),
        }
    }
}

/// The path that a remove notification is about.
pub open spec fn removed_path(event: FileEventView) -> Result<Seq<char>, HandlerError> {
    if event.paths.len() == 0 {
        Err(HandlerError::MissingPath)
    } else {
        match event.paths[0].text {
            None => Err(HandlerError::PathNotText),
            Some(path) => Ok(path),
        }
    }
}

/// The read that a write notification leads to, for a table that holds
/// `entries`: from the cursor of the written file, under the path the table
/// has for it.
pub open spec fn read_after_write(
    entries: Seq<PositionView>,
    event: FileEventView,
) -> Result<ReadRequestView, HandlerError> {
    if event.paths.len() == 0 {
        Err(HandlerError::WriteWithoutPath)
    } else {
        match (event.paths[0].text, event.paths[0].file_id) {
            (Some(_), Some(id)) => match lookup(entries, id) {
                Some(found) => Ok(
                    ReadRequestView {
                        file_id: id,
                        file_path: found.file_path,
                        start_byte: found.bytes_read,
                        buf_size: READ_BUDGET,
                    },
                ),
                None => Err(HandlerError::NotTracked),
            },
            _ => Err(HandlerError::IdentityUnknown),
        }
    }
}

/// The entries of the table after `event`, when they were `entries` before.
pub open spec fn entries_after(entries: Seq<PositionView>, event: FileEventView) -> Seq<
    PositionView,
> {
    match event.kind {
        EventKind::Create(CreateKind::File) => match created_position(event) {
            Ok(position) => added(entries, position),
            Err(_) => entries,
        },
        EventKind::Modify(ModifyKind::Name(RenameMode::Both)) => match rename_target(event) {
            Ok((id, to)) => renamed(entries, id, to),
            Err(_) => entries,
        },
        EventKind::Remove => match removed_path(event) {
            Ok(path) => without_first(entries, has_path(path)),
            Err(_) => entries,
        },
        _ => entries,
    }
}

/// Whether `action` is what `event` is answered with, for a table that held
/// `entries` before it: the table is written out after a create, a rename
/// and a remove, the written file is read after a write that was closed, and
/// nothing is done after anything else.
pub open spec fn answers(
    entries: Seq<PositionView>,
    event: FileEventView,
    action: Result<Action, HandlerError>,
) -> bool {
    match event.kind {
        EventKind::Create(CreateKind::File) => match created_position(event) {
            Ok(_) => action matches Ok(Action::Persist),
            Err(error) => action == Err::<Action, HandlerError>(error),
        },
        EventKind::Modify(ModifyKind::Name(RenameMode::Both)) => match rename_target(event) {
            Ok(_) => action matches Ok(Action::Persist),
            Err(error) => action == Err::<Action, HandlerError>(error),
        },
        EventKind::Remove => match removed_path(event) {
            Ok(_) => action matches Ok(Action::Persist),
            Err(error) => action == Err::<Action, HandlerError>(error),
        },
        EventKind::Access(AccessKind::Close(AccessMode::Write)) => match read_after_write(
            entries,
            event,
        ) {
            Ok(request) => action matches Ok(Action::Read(asked)) && asked@ == request,
            Err(error) => action == Err::<Action, HandlerError>(error),
        },
        _ => action matches Ok(Action::Nothing),
    }
}

/// A rotation keeps the cursor: after a file was renamed, the table has it
/// under its new path with the cursor it had, and a write to it is read
/// from that cursor on, under the new path.
pub proof fn lemma_rotation_keeps_cursor(
    entries: Seq<PositionView>,
    rename: FileEventView,
    write: FileEventView,
)
    requires
        rename.kind == EventKind::Modify(ModifyKind::Name(RenameMode::Both)),
        rename_target(rename) is Ok,
        write.paths.len() > 0,
        write.paths[0].text is Some,
        write.paths[0].file_id == Some(rename_target(rename)->Ok_0.0),
    ensures
        ({
            let (id, to) = rename_target(rename)->Ok_0;
            let after = entries_after(entries, rename);
            &&& lookup(after, id) == match lookup(entries, id) {
                Some(found) => Some(PositionView { file_path: to, ..found }),
                None => None,
            }
            &&& read_after_write(after, write) == match lookup(entries, id) {
                Some(found) => Ok::<ReadRequestView, HandlerError>(
                    ReadRequestView {
                        file_id: id,
                        file_path: to,
                        start_byte: found.bytes_read,
                        buf_size: READ_BUDGET,
                    },
                ),
                None => Err::<ReadRequestView, HandlerError>(HandlerError::NotTracked),
            }
        }),
{
    let (id, to) = rename_target(rename)->Ok_0;
    lemma_rename_keeps_cursors(entries, id, to);
}

/// A file that is removed and created again is read from its first byte:
/// after the notification of the removal and that of the creation under
/// the same path, the table has the new file with its cursor at 0, whatever
/// the cursor of the removed file was. This holds when the identity of the
/// new file is that of the removed file or one that the table has not seen;
/// an identity that the table still has under another entry keeps that
/// entry.
pub proof fn lemma_recreated_file_is_read_from_start(
    entries: Seq<PositionView>,
    removal: FileEventView,
    creation: FileEventView,
)
    requires
        removal.kind == EventKind::Remove,
        creation.kind == EventKind::Create(CreateKind::File),
        removed_path(removal) is Ok,
        created_position(creation) is Ok,
        created_position(creation)->Ok_0.file_path == removed_path(removal)->Ok_0,
        forall|i: int|
            0 <= i < entries.len() && (#[trigger] entries[i]).file_id == created_position(
                creation,
            )->Ok_0.file_id ==> i == first_index(entries, has_path(removed_path(removal)->Ok_0)),
    ensures
        lookup(
            entries_after(entries_after(entries, removal), creation),
            created_position(creation)->Ok_0.file_id,
        ) == Some(created_position(creation)->Ok_0),
        created_position(creation)->Ok_0.bytes_read == 0,
{
    let path = removed_path(removal)->Ok_0;
    let created = created_position(creation)->Ok_0;
    let id = created.file_id;
    let at = first_index(entries, has_path(path));
    let rest = without_first(entries, has_path(path));
    lemma_first_index(entries, has_path(path));
    assert forall|i: int| 0 <= i < rest.len() implies !has_identity(id)(rest[i]) by {
        if at < entries.len() {
            if i < at {
                assert(rest[i] == entries[i]);
            } else {
                assert(rest[i] == entries[i + 1]);
            }
        }
    }
    lemma_first_index_is(rest, has_identity(id), rest.len() as int);
    lemma_recreated_file_starts_at_zero(entries, path, id);
}

impl HandlerError {
    /// The error in words.
    pub fn message(&self) -> (r: &'static str)
        ensures
            r@ == match *self {
                HandlerError::MissingPath => "create file event did not contain file."@,
                HandlerError::PathNotText => "could not convert path to string"@,
                HandlerError::NoIdentity => "could not get inode file"@,
                HandlerError::RenameWithoutTarget =>
                    "rename event contained less than 2 elements for some reason."@,
                HandlerError::WriteWithoutPath => "file write event received without file info."@,
                HandlerError::IdentityUnknown => "could not get inode for file"@,
                HandlerError::NotTracked => "no tracked position"@,
                HandlerError::ReadFailed => "could not read lines"@,
            },
    {
        match self {
            HandlerError::MissingPath => "create file event did not contain file.",
            HandlerError::PathNotText => "could not convert path to string",
            HandlerError::NoIdentity => "could not get inode file",
            HandlerError::RenameWithoutTarget => {
                "rename event contained less than 2 elements for some reason."
            },
            HandlerError::WriteWithoutPath => "file write event received without file info.",
            HandlerError::IdentityUnknown => "could not get inode for file",
            HandlerError::NotTracked => "no tracked position",
            HandlerError::ReadFailed => "could not read lines",
        }
    }
}

/// The handler of the notifications of one watched place.
pub struct EventHandler {
    pub settings: Settings,
    pub positions: PositionsFile,
}

impl EventHandler {
    pub fn new(settings: Settings, positions: PositionsFile) -> (r: Self)
        ensures
            r.settings == settings,
            r.positions == positions,
    {
        Self { settings, positions }
    }

    /// Handles one notification: changes the table as the notification
    /// asks and says what is to be done next. The table is left as it was
    /// by an error, and by every answer but the one to write it out.
    pub fn handle_file_event(&mut self, event: &FileEvent) -> (r: Result<Action, HandlerError>)
        ensures
            final(self).positions@.position == entries_after(old(self).positions@.position, event@),
            answers(old(self).positions@.position, event@, r),
            !(r matches Ok(Action::Persist)) ==> final(self).positions@ == old(self).positions@,
            final(self).positions@.path == old(self).positions@.path,
            final(self).positions@.created_datetime == old(self).positions@.created_datetime,
            final(self).settings == old(self).settings,
            old(self).positions.well_formed() ==> final(self).positions.well_formed(),
    {
        match event.kind {
            EventKind::Access(_) => self.handle_file_access(event),
            EventKind::Create(CreateKind::File) => self.handle_create_file(event),
            EventKind::Modify(ModifyKind::Name(RenameMode::Both)) => self.handle_rename_file(event),
            EventKind::Remove => self.handle_remove_file(event),
            _ => Ok(Action::Nothing),
        }
    }

    /// A file was created: it is tailed from its first byte on, unless its
    /// identity is in the table already.
    fn handle_create_file(&mut self, event: &FileEvent) -> (r: Result<Action, HandlerError>)
        ensures
            match created_position(event@) {
                Ok(position) => r matches Ok(Action::Persist) && final(self).positions@.position
                    == added(old(self).positions@.position, position),
                Err(error) => r == Err::<Action, HandlerError>(error) && final(self).positions@
                    == old(self).positions@,
            },
            final(self).positions@.path == old(self).positions@.path,
            final(self).positions@.created_datetime == old(self).positions@.created_datetime,
            final(self).settings == old(self).settings,
            old(self).positions.well_formed() ==> final(self).positions.well_formed(),
    {
        if event.paths.len() == 0 {
            return Err(HandlerError::MissingPath);
        }
        let path = match &event.paths[0].text {
            Some(path) => path,
            None => {
                return Err(HandlerError::PathNotText);
            },
        };
        let inode = match event.paths[0].file_id {
            Some(inode) => inode,
            None => {
                return Err(HandlerError::NoIdentity);
            },
        };
        let position = Position::new(path.as_str(), inode, 0);
        self.positions.add_position(&position);
        Ok(Action::Persist)
    }

    /// A file was renamed: its entry moves to the new path and keeps its
    /// cursor. A rotating writer moves several files in a row; each move
    /// comes as a notification of its own and is applied as it comes.
    fn handle_rename_file(&mut self, event: &FileEvent) -> (r: Result<Action, HandlerError>)
        ensures
            match rename_target(event@) {
                Ok((id, to)) => r matches Ok(Action::Persist) && final(self).positions@.position
                    == renamed(old(self).positions@.position, id, to),
                Err(error) => r == Err::<Action, HandlerError>(error) && final(self).positions@
                    == old(self).positions@,
            },
            final(self).positions@.path == old(self).positions@.path,
            final(self).positions@.created_datetime == old(self).positions@.created_datetime,
            final(self).settings == old(self).settings,
            old(self).positions.well_formed() ==> final(self).positions.well_formed(),
    {
        if event.paths.len() < 2 {
            return Err(HandlerError::RenameWithoutTarget);
        }
        let to = match &event.paths[1].text {
            Some(path) => path,
            None => {
                return Err(HandlerError::PathNotText);
            },
        };
        let inode = match event.paths[1].file_id {
            Some(inode) => inode,
            None => {
                return Err(HandlerError::NoIdentity);
            },
        };
        self.positions.rename_position(inode, to.as_str());
        Ok(Action::Persist)
    }

    /// A file was removed: the entry that was last seen under its path
    /// leaves the table. The file is gone, so its identity cannot be asked
    /// for any more.
    fn handle_remove_file(&mut self, event: &FileEvent) -> (r: Result<Action, HandlerError>)
        ensures
            match removed_path(event@) {
                Ok(path) => r matches Ok(Action::Persist) && final(self).positions@.position
                    == without_first(old(self).positions@.position, has_path(path)),
                Err(error) => r == Err::<Action, HandlerError>(error) && final(self).positions@
                    == old(self).positions@,
            },
            final(self).positions@.path == old(self).positions@.path,
            final(self).positions@.created_datetime == old(self).positions@.created_datetime,
            final(self).settings == old(self).settings,
            old(self).positions.well_formed() ==> final(self).positions.well_formed(),
    {
        if event.paths.len() == 0 {
            return Err(HandlerError::MissingPath);
        }
        let path = match &event.paths[0].text {
            Some(path) => path,
            None => {
                return Err(HandlerError::PathNotText);
            },
        };
        let at_path = |other: &Position| -> (said: bool)
            ensures
                said == (other.file_path@ == path@),
            { other.file_path == *path };
        proof {
            assert(forall|p: Position, said: bool|
                call_ensures(at_path, (&p,), said) ==> said == has_path(path@)(p@));
        }
        self.positions.remove_position(at_path);
        Ok(Action::Persist)
    }

    /// Of the accesses to a file only one matters: that a file which was
    /// open for writing has been closed.
    fn handle_file_access(&self, event: &FileEvent) -> (r: Result<Action, HandlerError>)
        ensures
            match event.kind {
                EventKind::Access(AccessKind::Close(AccessMode::Write)) => match read_after_write(
                    self.positions@.position,
                    event@,
                ) {
                    Ok(request) => r matches Ok(Action::Read(asked)) && asked@ == request,
                    Err(error) => r == Err::<Action, HandlerError>(error),
                },
                _ => r matches Ok(Action::Nothing),
            },
    {
        match event.kind {
            EventKind::Access(AccessKind::Close(AccessMode::Write)) => self.handle_file_write(
                event,
            ),
            _ => Ok(Action::Nothing),
        }
    }

    /// A file was written and closed: what was appended is to be read, from
    /// the cursor of the file on.
    fn handle_file_write(&self, event: &FileEvent) -> (r: Result<Action, HandlerError>)
        ensures
            match read_after_write(self.positions@.position, event@) {
                Ok(request) => r matches Ok(Action::Read(asked)) && asked@ == request,
                Err(error) => r == Err::<Action, HandlerError>(error),
            },
    {
        if event.paths.len() == 0 {
            return Err(HandlerError::WriteWithoutPath);
        }
        match self.get_inode_for_os_str(&event.paths[0]) {
            Some((inode, _)) => {
                let with_inode = |pos: &Position| -> (said: bool)
                    ensures
                        said == (pos.file_id == inode),
                    { pos.file_id == inode };
                proof {
                    assert(forall|p: Position, said: bool|
                        call_ensures(with_inode, (&p,), said) ==> said == has_identity(inode)(
                            p@,
                        ));
                    lemma_first_index(self.positions@.position, has_identity(inode));
                    assert(first_index(self.positions@.position, has_identity(inode)) >= 0);
                }
                match self.positions.find(with_inode) {
                    Some(pos) => Ok(
                        Action::Read(
                            ReadRequest {
                                file_id: inode,
                                file_path: pos.file_path.clone(),
                                start_byte: pos.bytes_read,
                                buf_size: READ_BUDGET,
                            },
                        ),
                    ),
                    None => Err(HandlerError::NotTracked),
                }
            },
            None => Err(HandlerError::IdentityUnknown),
        }
    }

    /// Takes what was read for `request`: `data` holds the bytes of the
    /// file from the offset of the request on, or nothing where the file
    /// could not be read. Complete lines that fit the request become a
    /// batch to deliver; where there is none, nothing is to be done. The
    /// cursor of the file does not move yet. A file that could not be read,
    /// or whose lines cannot be read, is an error.
    pub fn handle_file_read(&self, request: &ReadRequest, data: Option<&[u8]>) -> (r: Result<
        Action,
        HandlerError,
    >)
        ensures
            match data {
                Some(bytes) => match scan_lines(bytes@, request.buf_size as int) {
                    Some((lines, used)) if request.start_byte + used <= u64::MAX => if lines.len()
                        == 0 {
                        r matches Ok(Action::Nothing)
                    } else {
                        r matches Ok(Action::Publish(batch)) && batch.file_id == request.file_id
                            && batch.new_pos == request.start_byte + used && batch.server@
                            == self.settings.server@ && batch.logs@.logs == records_of(lines)
                    },
                    _ => r == Err::<Action, HandlerError>(HandlerError::ReadFailed),
                },
                None => r == Err::<Action, HandlerError>(HandlerError::ReadFailed),
            },
    {
        let bytes = match data {
            Some(bytes) => bytes,
            None => {
                return Err(HandlerError::ReadFailed);
            },
        };
        match read_lines_starting_from_byte(bytes, request.start_byte, request.buf_size) {
            Some(file_read) => {
                if file_read.lines.len() == 0 {
                    Ok(Action::Nothing)
                } else {
                    let new_pos = file_read.new_pos;
                    Ok(
                        Action::Publish(
                            PublishRequest {
                                file_id: request.file_id,
                                new_pos,
                                server: self.settings.server.clone(),
                                logs: Logs::from_lines(file_read.lines),
                            },
                        ),
                    )
                }
            },
            None => Err(HandlerError::ReadFailed),
        }
    }

    /// Takes the outcome of a delivery. Once `request` is delivered, the
    /// cursor of its file moves behind the lines of the batch and the table
    /// is to be written out. A batch that was not delivered leaves the
    /// cursor where it was: the next write to the file has the same lines
    /// read and sent again.
    ///
    /// The cursor moves after the delivery and is written out after that.
    /// When the agent stops between the two, it sends the lines again once
    /// it is back: a line may arrive twice, and none is lost.
    pub fn handle_publish_result(&mut self, request: &PublishRequest, delivered: bool) -> (r:
        Action)
        ensures
            delivered ==> r is Persist && final(self).positions@.position == with_bytes_read(
                old(self).positions@.position,
                request.file_id,
                request.new_pos,
            ),
            !delivered ==> r is Nothing && final(self).positions@ == old(self).positions@,
            final(self).positions@.path == old(self).positions@.path,
            final(self).positions@.created_datetime == old(self).positions@.created_datetime,
            final(self).settings == old(self).settings,
            old(self).positions.well_formed() ==> final(self).positions.well_formed(),
    {
        if delivered {
            self.positions.update_bytes_read(request.file_id, request.new_pos);
            Action::Persist
        } else {
            Action::Nothing
        }
    }

    /// The identity and the text of a path that has both.
    fn get_inode_for_os_str(&self, path: &EventPath) -> (r: Option<(u64, String)>)
        ensures
            match (path@.text, path@.file_id) {
                (Some(text), Some(id)) => r matches Some(found) && found.0 == id && found.1@
                    == text,
                _ => r is None,
            },
    {
        let text = match &path.text {
            Some(text) => text,
            None => {
                return None;
            },
        };
        match path.file_id {
            Some(inode) => Some((inode, text.clone())),
            None => None,
        }
    }
}

} // verus!
