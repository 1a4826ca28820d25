//! One indexed file or directory, and the key by which the catalog orders it.

use vstd::prelude::*;

verus! {

/// One entry of the master file table, as the index keeps it.
#[derive(Debug)]
pub struct FileEntry {
    /// File reference number, unique within its volume.
    pub id: u64,
    /// File reference number of the containing directory; the volume root names itself.
    pub parent_id: u64,
    /// The entry's own name, without any path.
    pub name: String,
    pub is_dir: bool,
    /// Position of the entry's volume in the list of scanned volumes.
    pub drive_idx: u8,
}

/// What an entry is, with its name as a sequence of code points.
pub struct EntryView {
    pub id: u64,
    pub parent_id: u64,
    pub name: Seq<char>,
    pub is_dir: bool,
    pub drive_idx: u8,
}

impl View for FileEntry {
    type V = EntryView;

    open spec fn view(&self) -> EntryView {
        EntryView {
            id: self.id,
            parent_id: self.parent_id,
            name: self.name@,
            is_dir: self.is_dir,
            drive_idx: self.drive_idx,
        }
    }
}

/// The views of the entries of `s`, in the same order.
pub open spec fn entry_views(s: Seq<FileEntry>) -> Seq<EntryView> {
    s.map_values(|e: FileEntry| e@)
}

/// `(d1, i1)` comes strictly before `(d2, i2)` in the catalog order.
pub open spec fn key_lt(d1: u8, i1: u64, d2: u8, i2: u64) -> bool {
    d1 < d2 || (d1 == d2 && i1 < i2)
}

/// `(d1, i1)` comes before `(d2, i2)` in the catalog order, or is the same key.
pub open spec fn key_le(d1: u8, i1: u64, d2: u8, i2: u64) -> bool {
    d1 < d2 || (d1 == d2 && i1 <= i2)
}

impl FileEntry {
    /// The entry is the one that the key `(drive_idx, id)` names.
    pub open spec fn has_key(&self, drive_idx: u8, id: u64) -> bool {
        self.drive_idx == drive_idx && self.id == id
    }

    /// The entry's key comes before that of `other`, or is the same.
    pub open spec fn not_after(&self, other: FileEntry) -> bool {
        key_le(self.drive_idx, self.id, other.drive_idx, other.id)
    }

    /// The entry's key comes strictly before `(drive_idx, id)`.
    pub open spec fn is_before(&self, drive_idx: u8, id: u64) -> bool {
        key_lt(self.drive_idx, self.id, drive_idx, id)
    }

    /// The entry names itself as its parent, which marks the root of a volume.
    pub open spec fn is_root(&self) -> bool {
        self.parent_id == self.id
    }

    pub fn new(id: u64, parent_id: u64, name: String, is_dir: bool, drive_idx: u8) -> (entry: FileEntry)
        ensures
            entry.id == id,
            entry.parent_id == parent_id,
            entry.name == name,
            entry.is_dir == is_dir,
            entry.drive_idx == drive_idx,
    {
        FileEntry { id, parent_id, name, is_dir, drive_idx }
    }

    /// The key by which the catalog orders the entry: its volume first,
    /// then its file reference number.
    pub fn key(&self) -> (key: (u8, u64))
        ensures
            key == (self.drive_idx, self.id),
    {
        (self.drive_idx, self.id)
    }

    /// A copy of the entry, field for field.
    pub fn duplicate(&self) -> (copy: FileEntry)
        ensures
            copy == *self,
    {
        FileEntry {
            id: self.id,
            parent_id: self.parent_id,
            name: self.name.clone(),
            is_dir: self.is_dir,
            drive_idx: self.drive_idx,
        }
    }

    /// Whether the entry's key comes strictly before `(drive_idx, id)`.
    pub fn key_before(&self, drive_idx: u8, id: u64) -> (before: bool)
        ensures
            before == self.is_before(drive_idx, id),
    {
        self.drive_idx < drive_idx || (self.drive_idx == drive_idx && self.id < id)
    }
}

impl Clone for FileEntry {
    fn clone(&self) -> (copy: FileEntry)
        ensures
            copy == *self,
    {
        self.duplicate()
    }
}

/// The entries of `s` whose key is `(drive_idx, id)`, in the order in which `s` holds them.
pub open spec fn entries_with_key(s: Seq<FileEntry>, drive_idx: u8, id: u64) -> Seq<FileEntry>
    decreases s.len(),
{
    if s.len() == 0 {
        Seq::empty()
    } else if s.last().has_key(drive_idx, id) {
        entries_with_key(s.drop_last(), drive_idx, id).push(s.last())
    } else {
        entries_with_key(s.drop_last(), drive_idx, id)
    }
}

/// The keys of `s` never decrease from one entry to the next.
pub open spec fn sorted_by_key(s: Seq<FileEntry>) -> bool {
    forall|i: int, j: int| 0 <= i <= j < s.len() ==> (#[trigger] s[i]).not_after(#[trigger] s[j])
}

} // verus!
