//! The persisted table of tailed files and the cursor kept for each.

use crate::positions_manager::unique_identities;
use vstd::prelude::*;

verus! {

/// What a [`PositionsFile`] stands for in contracts.
pub struct PositionsFileView {
    pub path: Seq<char>,
    pub created_datetime: Seq<char>,
    pub modified_datetime: Seq<char>,
    pub position: Seq<PositionView>,
}

/// The table of tailed files, with the place it is persisted at and the
/// times it was made and last changed.
#[derive(Debug)]
pub struct PositionsFile {
    /// where the table is written to; not part of what is written
    pub path: String,
    pub created_datetime: String,
    pub modified_datetime: String,
    /// one entry per tailed file
    pub position: Vec<Position>,
}

impl View for PositionsFile {
    type V = PositionsFileView;

    open spec fn view(&self) -> PositionsFileView {
        PositionsFileView {
            path: self.path@,
            created_datetime: self.created_datetime@,
            modified_datetime: self.modified_datetime@,
            position: self.position@.map_values(|p: Position| p@),
        }
    }
}

impl Clone for PositionsFile {
    fn clone(&self) -> (r: Self)
        ensures
            r@ == self@,
    {
        let position = self.position.clone();
        proof {
            assert(position@.map_values(|p: Position| p@) =~= self@.position);
        }
        PositionsFile {
            path: self.path.clone(),
            created_datetime: self.created_datetime.clone(),
            modified_datetime: self.modified_datetime.clone(),
            position,
        }
    }
}

impl Default for PositionsFile {
    fn default() -> (r: Self)
        ensures
            r@.path.len() == 0,
            r@.created_datetime.len() == 0,
            r@.modified_datetime.len() == 0,
            r@.position.len() == 0,
            unique_identities(r@.position),
    {
        PositionsFile {
            path: String::new(),
            created_datetime: String::new(),
            modified_datetime: String::new(),
            position: Vec::new(),
        }
    }
}

/// What a [`Position`] stands for in contracts.
pub struct PositionView {
    pub file_path: Seq<char>,
    pub file_id: u64,
    pub bytes_read: u64,
}

/// One tailed file: where it was last seen, which file it is, and how far it
/// has been forwarded.
#[derive(Debug)]
pub struct Position {
    /// full system path to the file
    pub file_path: String,
    /// Unique identifier for the file: the inode on Linux, the file index on
    /// Windows.
    pub file_id: u64,
    /// number of bytes that have been forwarded
    pub bytes_read: u64,
}

impl View for Position {
    type V = PositionView;

    open spec fn view(&self) -> PositionView {
        PositionView {
            file_path: self.file_path@,
            file_id: self.file_id,
            bytes_read: self.bytes_read,
        }
    }
}

impl Clone for Position {
    fn clone(&self) -> (r: Self)
        ensures
            r@ == self@,
    {
        Position {
            file_path: self.file_path.clone(),
            file_id: self.file_id,
            bytes_read: self.bytes_read,
        }
    }
}

impl Position {
    pub fn new(file_path: &str, file_id: u64, bytes_read: u64) -> (r: Self)
        ensures
            r@ == (PositionView { file_path: file_path@, file_id, bytes_read }),
    {
        Position { file_path: file_path.to_string(), file_id, bytes_read }
    }
}

} // verus!
