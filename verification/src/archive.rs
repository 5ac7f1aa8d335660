//! The archive: the files of the application, in the order they are unpacked.

use vstd::prelude::*;

verus! {

/// One file of the archive.
#[derive(Debug, PartialEq, Eq)]
pub struct ArchiveRecord {
    /// Where the file goes, relative to the install directory.
    pub relative_path: String,
    /// The permission bits of the file.
    pub mode_bits: u32,
    /// What the file holds.
    pub content: Vec<u8>,
}

/// The mathematical value of an [`ArchiveRecord`].
pub struct RecordModel {
    pub relative_path: Seq<char>,
    pub mode_bits: u32,
    pub content: Seq<u8>,
}

impl View for ArchiveRecord {
    type V = RecordModel;

    open spec fn view(&self) -> RecordModel {
        RecordModel {
            relative_path: self.relative_path@,
            mode_bits: self.mode_bits,
            content: self.content@,
        }
    }
}

impl Clone for ArchiveRecord {
    fn clone(&self) -> (copy: Self)
        ensures
            copy@ == self@,
    {
        ArchiveRecord {
            relative_path: self.relative_path.clone(),
            mode_bits: self.mode_bits,
            content: self.content.clone(),
        }
    }
}

/// The records of an archive, in order. Where two records name the same file,
/// the later one is written over the earlier.
#[derive(Debug, PartialEq, Eq)]
pub struct Archive {
    pub records: Vec<ArchiveRecord>,
}

/// The values of a sequence of records.
pub open spec fn record_models(records: Seq<ArchiveRecord>) -> Seq<RecordModel> {
    records.map_values(|record: ArchiveRecord| record@)
}

impl View for Archive {
    type V = Seq<RecordModel>;

    open spec fn view(&self) -> Seq<RecordModel> {
        record_models(self.records@)
    }
}

} // verus!
