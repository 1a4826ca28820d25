//! The enumeration of one volume: the buffers that its change journal
//! returns, taken in one after another.
//!
//! The device requests themselves are made by the caller. Here stand the
//! decisions between them: which request comes next, what a buffer adds,
//! when the enumeration is over, and when the volume is given up.

use vstd::prelude::*;
use crate::decode::{decode_buffer, decoded_from, is_admitted, next_cursor, CURSOR_SIZE};
use crate::entry::{entry_views, FileEntry};
use crate::text::concat3;

verus! {

/// The most entries that the scan of one volume may hold when it asks for
/// another buffer, unless it was begun with a limit of its own.
pub const MAX_ENTRIES_PER_VOLUME: usize = 10_000_000;

/// Bytes of the buffer that one enumeration request fills.
pub const ENUM_BUFFER_SIZE: usize = 65536;

/// Progress is reported where the count of entries has grown to a multiple
/// of this.
pub const PROGRESS_INTERVAL: u64 = 2000;

/// Why the scan of a volume was given up.
#[derive(Clone, Copy, Debug, PartialEq, Eq, Structural)]
pub enum VolumeError {
    /// The volume could not be opened.
    AccessDenied,
    /// The journal could be neither queried nor created.
    UnsupportedVolume,
    /// After the journal was created, the volume could not be opened again.
    ReopenFailed,
    /// The journal was created and still could not be queried.
    JournalAbsent,
    /// The volume holds more entries than a scan takes.
    SafetyCapExceeded,
}

/// The text of the error, for the volume named `drive`.
pub open spec fn error_text(error: VolumeError, drive: Seq<char>) -> Seq<char> {
    match error {
        VolumeError::AccessDenied => "Access Denied to "@ + drive + ". Run as Administrator."@,
        VolumeError::UnsupportedVolume => "Failed to query or create USN Journal on "@ + drive
            + ". Is it NTFS?"@,
        VolumeError::ReopenFailed => "Failed to reopen "@ + drive + " for reading."@,
        VolumeError::JournalAbsent => "Failed to query USN Journal on "@ + drive
            + " after creation attempt."@,
        VolumeError::SafetyCapExceeded => "Too many files \u{2014} skipping rest for safety"@,
    }
}

impl VolumeError {
    /// The text of the error, for the volume named `drive`.
    pub fn message(self, drive: &str) -> (text: String)
        ensures
            text@ == error_text(self, drive@),
    {
        match self {
            VolumeError::AccessDenied => concat3(
                "Access Denied to ",
                drive,
                ". Run as Administrator.",
            ),
            VolumeError::UnsupportedVolume => concat3(
                "Failed to query or create USN Journal on ",
                drive,
                ". Is it NTFS?",
            ),
            VolumeError::ReopenFailed => concat3("Failed to reopen ", drive, " for reading."),
            VolumeError::JournalAbsent => concat3(
                "Failed to query USN Journal on ",
                drive,
                " after creation attempt.",
            ),
            VolumeError::SafetyCapExceeded => String::from_str(
                "Too many files \u{2014} skipping rest for safety",
            ),
        }
    }
}

/// What the caller is to do next in the enumeration of a volume.
#[derive(Clone, Copy, Debug, PartialEq, Eq, Structural)]
pub enum ScanRequest {
    /// Ask for the next buffer, starting at the file reference number `start`.
    Enumerate { start: u64 },
    /// The enumeration is over; the entries are there to be taken.
    Finish,
    /// Give the volume up, with its entries.
    Abort(VolumeError),
}

/// The count of entries after `added` more were seen; it stops at the
/// largest number that it can hold.
pub open spec fn count_after(seen: u64, added: int) -> u64 {
    if seen + added > u64::MAX {
        u64::MAX
    } else {
        (seen + added) as u64
    }
}

/// Whether progress is reported when the count of entries has gone from
/// `before` to `seen`: where it has grown, and to a multiple of the
/// interval.
pub open spec fn reports_at(before: u64, seen: u64) -> bool {
    seen > before && seen % PROGRESS_INTERVAL == 0
}

/// Reports are spaced: from one reported count to the next, at least a
/// full interval of entries was seen.
pub proof fn lemma_reports_are_spaced(before: u64, first: u64, between: u64, second: u64)
    requires
        reports_at(before, first),
        first <= between,
        reports_at(between, second),
    ensures
        second - first >= PROGRESS_INTERVAL,
{
}

/// The enumeration of one volume, as far as it has come.
pub struct VolumeScan {
    drive_idx: u8,
    entries: Vec<FileEntry>,
    next_start: u64,
    records_seen: u64,
    finished: bool,
    max_entries: usize,
}

impl VolumeScan {
    /// The most entries that the scan may hold when it asks for another
    /// buffer.
    pub closed spec fn limit(&self) -> usize {
        self.max_entries
    }

    /// Index of the volume in the list of scanned volumes.
    pub closed spec fn volume(&self) -> u8 {
        self.drive_idx
    }

    /// The entries taken in so far.
    pub closed spec fn taken(&self) -> Seq<FileEntry> {
        self.entries@
    }

    /// The file reference number with which the next request starts.
    pub closed spec fn cursor(&self) -> u64 {
        self.next_start
    }

    /// Entries seen in the whole scan, this volume's included.
    pub closed spec fn seen(&self) -> u64 {
        self.records_seen
    }

    /// The enumeration was ended.
    pub closed spec fn is_finished(&self) -> bool {
        self.finished
    }

    /// Every entry taken in belongs to the volume and has a name that the
    /// index keeps.
    pub open spec fn wf(&self) -> bool {
        forall|i: int|
            0 <= i < self.taken().len() ==> is_admitted((#[trigger] self.taken()[i])@, self.volume())
    }

    /// The request that is due.
    pub open spec fn request_spec(&self) -> ScanRequest {
        if self.taken().len() > self.limit() {
            ScanRequest::Abort(VolumeError::SafetyCapExceeded)
        } else if self.is_finished() {
            ScanRequest::Finish
        } else {
            ScanRequest::Enumerate { start: self.cursor() }
        }
    }

    /// Starts the enumeration of the volume with index `drive_idx`, in a
    /// scan that has seen `records_seen` entries on earlier volumes.
    pub fn begin(drive_idx: u8, records_seen: u64) -> (scan: VolumeScan)
        ensures
            scan.wf(),
            scan.volume() == drive_idx,
            scan.taken().len() == 0,
            scan.cursor() == 0,
            scan.seen() == records_seen,
            scan.limit() == MAX_ENTRIES_PER_VOLUME,
            !scan.is_finished(),
    {
        VolumeScan::begin_with_limit(drive_idx, records_seen, MAX_ENTRIES_PER_VOLUME)
    }

    /// Starts an enumeration as `begin` does, with `max_entries` as the
    /// limit on the entries of the volume.
    pub fn begin_with_limit(drive_idx: u8, records_seen: u64, max_entries: usize) -> (scan:
        VolumeScan)
        ensures
            scan.wf(),
            scan.volume() == drive_idx,
            scan.taken().len() == 0,
            scan.cursor() == 0,
            scan.seen() == records_seen,
            scan.limit() == max_entries,
            !scan.is_finished(),
    {
        VolumeScan {
            drive_idx,
            entries: Vec::new(),
            next_start: 0,
            records_seen,
            finished: false,
            max_entries,
        }
    }

    /// The request that is due: the next buffer, unless the volume holds
    /// too many entries or the enumeration was ended.
    pub fn request(&self) -> (request: ScanRequest)
        ensures
            request == self.request_spec(),
            request is Finish ==> self.taken().len() <= self.limit(),
    {
        if self.entries.len() > self.max_entries {
            ScanRequest::Abort(VolumeError::SafetyCapExceeded)
        } else if self.finished {
            ScanRequest::Finish
        } else {
            ScanRequest::Enumerate { start: self.next_start }
        }
    }

    /// Ends the enumeration: a request reported that no data is left.
    pub fn end(&mut self)
        ensures
            final(self).is_finished(),
            final(self).volume() == old(self).volume(),
            final(self).taken() == old(self).taken(),
            final(self).cursor() == old(self).cursor(),
            final(self).seen() == old(self).seen(),
            final(self).limit() == old(self).limit(),
    {
        self.finished = true;
    }

    /// Takes in the bytes that a request returned: the entries of its
    /// records are added, the count of entries grows by their number, and
    /// the cursor moves on. A buffer too short to hold a cursor ends the
    /// enumeration. The result says whether progress is to be reported.
    pub fn absorb(&mut self, buf: &[u8]) -> (report: bool)
        requires
            old(self).wf(),
        ensures
            final(self).wf(),
            final(self).volume() == old(self).volume(),
            final(self).limit() == old(self).limit(),
            entry_views(final(self).taken()) == entry_views(old(self).taken()) + decoded_from(
                buf@,
                CURSOR_SIZE as int,
                old(self).volume(),
            ),
            final(self).seen() == count_after(
                old(self).seen(),
                final(self).taken().len() - old(self).taken().len(),
            ),
            final(self).seen() >= old(self).seen(),
            report == reports_at(old(self).seen(), final(self).seen()),
            match next_cursor(buf@) {
                Some(cursor) => {
                    &&& final(self).cursor() == cursor
                    &&& final(self).is_finished() == old(self).is_finished()
                },
                None => {
                    &&& final(self).cursor() == old(self).cursor()
                    &&& final(self).is_finished()
                },
            },
    {
        let decoded = decode_buffer(buf, self.drive_idx);
        let mut fresh = decoded.entries;
        let added: usize = fresh.len();
        let ghost before = self.entries@;
        let ghost incoming = fresh@;
        self.entries.append(&mut fresh);
        proof {
            assert(entry_views(before + incoming) =~= entry_views(before) + entry_views(incoming));
            assert forall|i: int| 0 <= i < self.entries@.len() implies is_admitted(
                (#[trigger] self.entries@[i])@,
                self.drive_idx,
            ) by {
                if i < before.len() {
                    assert(self.entries@[i] == old(self).taken()[i]);
                } else {
                    assert(self.entries@[i] == decoded.entries@[i - before.len()]);
                }
            }
        }
        let before_count: u64 = self.records_seen;
        self.records_seen = self.records_seen.saturating_add(added as u64);
        match decoded.next_start {
            Some(cursor) => {
                self.next_start = cursor;
            },
            None => {
                self.finished = true;
            },
        }
        self.records_seen > before_count && self.records_seen % PROGRESS_INTERVAL == 0
    }

    /// Entries seen in the whole scan, this volume's included.
    pub fn records_seen(&self) -> (seen: u64)
        ensures
            seen == self.seen(),
    {
        self.records_seen
    }

    /// Number of entries taken in from this volume.
    pub fn entry_count(&self) -> (count: usize)
        ensures
            count == self.taken().len(),
    {
        self.entries.len()
    }

    /// The most entries that the scan may hold when it asks for another
    /// buffer.
    pub fn max_entries(&self) -> (limit: usize)
        ensures
            limit == self.limit(),
    {
        self.max_entries
    }

    /// Index of the volume in the list of scanned volumes.
    pub fn drive_idx(&self) -> (drive_idx: u8)
        ensures
            drive_idx == self.volume(),
    {
        self.drive_idx
    }

    /// Hands out the entries taken in.
    pub fn into_entries(self) -> (entries: Vec<FileEntry>)
        ensures
            entries@ == self.taken(),
    {
        self.entries
    }
}

} // verus!
