//! A scan of several volumes: their entries gathered into one catalog, and
//! the failures of single volumes gathered as warnings.
//!
//! A volume that fails is passed over and the scan goes on; only a scan
//! without any volume fails as a whole.

use vstd::prelude::*;
use crate::catalog::{first_with_key, keeps_first_of_each_key, Catalog};
use crate::names::is_unsafe_name;
use crate::entry::FileEntry;
use crate::text::concat3;
use crate::volume::{error_text, ScanRequest, VolumeError, VolumeScan, MAX_ENTRIES_PER_VOLUME};

verus! {

/// The most volumes that one scan takes: as many as an entry's volume
/// index tells apart.
pub const MAX_VOLUMES: usize = 256;

/// Why a scan failed as a whole.
#[derive(Clone, Copy, Debug, PartialEq, Eq, Structural)]
pub enum ScanError {
    /// There is no volume to scan.
    NoVolumesFound,
}

/// The text of a scan's failure.
pub open spec fn scan_error_text(error: ScanError) -> Seq<char> {
    match error {
        ScanError::NoVolumesFound => "No fixed or removable drives found."@,
    }
}

impl ScanError {
    /// The text of the failure.
    pub fn message(self) -> (text: String)
        ensures
            text@ == scan_error_text(self),
    {
        match self {
            ScanError::NoVolumesFound => String::from_str("No fixed or removable drives found."),
        }
    }
}

/// The label of the progress reports on the volume named `drive`.
pub open spec fn progress_text(drive: Seq<char>) -> Seq<char> {
    "Scanning "@ + drive + "..."@
}

/// The warning that the volume named `drive` failed with `error`.
pub open spec fn warning_text(drive: Seq<char>, error: VolumeError) -> Seq<char> {
    "Failed to scan "@ + drive + ": "@ + error_text(error, drive)
}

/// The label of the progress reports on the volume named `drive`.
pub fn progress_label(drive: &str) -> (label: String)
    ensures
        label@ == progress_text(drive@),
{
    concat3("Scanning ", drive, "...")
}

/// The warning that the volume named `drive` failed with `error`.
pub fn warning(drive: &str, error: VolumeError) -> (text: String)
    ensures
        text@ == warning_text(drive@, error),
{
    let mut text = concat3("Failed to scan ", drive, ": ");
    let reason = error.message(drive);
    text.append(reason.as_str());
    text
}

/// No entry of `s` has a name that the index refuses, and each belongs to
/// one of the first `volumes` volumes.
pub open spec fn all_admitted(s: Seq<FileEntry>, volumes: int) -> bool {
    forall|i: int|
        0 <= i < s.len() ==> {
            &&& !is_unsafe_name((#[trigger] s[i]).name@)
            &&& (s[i].drive_idx as int) < volumes
        }
}

/// A count of entries and the volume under scan, as reported while a scan
/// runs.
pub struct ScanProgress {
    pub records_seen: u64,
    pub current_volume: String,
}

/// What a finished scan hands over.
pub struct ScanReport {
    /// The entries of all volumes that were scanned to the end.
    pub catalog: Catalog,
    /// The names of the volumes; an entry's volume index is a position here.
    pub drives: Vec<String>,
    /// One warning for each volume that failed.
    pub errors: Vec<String>,
}

/// A scan of several volumes, as far as it has come.
pub struct ScanSession {
    drives: Vec<String>,
    entries: Vec<FileEntry>,
    errors: Vec<String>,
    records_seen: u64,
    next_volume: usize,
}

impl ScanSession {
    /// The names of the volumes of the scan.
    pub closed spec fn volumes(&self) -> Seq<String> {
        self.drives@
    }

    /// The entries gathered from the volumes scanned so far.
    pub closed spec fn gathered(&self) -> Seq<FileEntry> {
        self.entries@
    }

    /// The warnings gathered so far.
    pub closed spec fn warnings(&self) -> Seq<String> {
        self.errors@
    }

    /// Entries seen so far, those of failed volumes included.
    pub closed spec fn seen(&self) -> u64 {
        self.records_seen
    }

    /// Number of volumes that were dealt with.
    pub closed spec fn position(&self) -> int {
        self.next_volume as int
    }

    /// The scan has no more volumes than a volume index tells apart, and
    /// has dealt with no more than it has.
    pub open spec fn wf(&self) -> bool {
        &&& 0 <= self.position() <= self.volumes().len()
        &&& self.volumes().len() <= MAX_VOLUMES
        &&& all_admitted(self.gathered(), self.position())
    }

    /// All volumes were dealt with.
    pub open spec fn is_done(&self) -> bool {
        self.position() == self.volumes().len()
    }

    /// Starts a scan of the volumes named in `drives`. It fails where there
    /// is none.
    pub fn start(drives: Vec<String>) -> (session: Result<ScanSession, ScanError>)
        requires
            drives@.len() <= MAX_VOLUMES,
        ensures
            session is Err <==> drives@.len() == 0,
            match session {
                Ok(s) => {
                    &&& s.wf()
                    &&& s.volumes() == drives@
                    &&& s.gathered().len() == 0
                    &&& s.warnings().len() == 0
                    &&& s.seen() == 0
                    &&& s.position() == 0
                },
                Err(error) => error == ScanError::NoVolumesFound,
            },
    {
        if drives.len() == 0 {
            return Err(ScanError::NoVolumesFound);
        }
        Ok(
            ScanSession {
                drives,
                entries: Vec::new(),
                errors: Vec::new(),
                records_seen: 0,
                next_volume: 0,
            },
        )
    }

    /// Index of the volume that is due, unless all were dealt with.
    pub fn current(&self) -> (drive_idx: Option<u8>)
        requires
            self.wf(),
        ensures
            drive_idx is None <==> self.is_done(),
            drive_idx matches Some(i) ==> i == self.position(),
    {
        if self.next_volume < self.drives.len() {
            Some(self.next_volume as u8)
        } else {
            None
        }
    }

    /// Name of the volume that is due.
    pub fn current_drive(&self) -> (drive: &String)
        requires
            self.wf(),
            !self.is_done(),
        ensures
            *drive == self.volumes()[self.position()],
    {
        &self.drives[self.next_volume]
    }

    /// The progress report that opens the scan of the volume that is due.
    pub fn progress(&self) -> (snapshot: ScanProgress)
        requires
            self.wf(),
            !self.is_done(),
        ensures
            snapshot.records_seen == self.seen(),
            snapshot.current_volume@ == progress_text(self.volumes()[self.position()]@),
    {
        ScanProgress {
            records_seen: self.records_seen,
            current_volume: progress_label(self.drives[self.next_volume].as_str()),
        }
    }

    /// Starts the enumeration of the volume that is due.
    pub fn begin_volume(&self) -> (scan: VolumeScan)
        requires
            self.wf(),
            !self.is_done(),
        ensures
            scan.wf(),
            scan.volume() == self.position(),
            scan.taken().len() == 0,
            scan.cursor() == 0,
            scan.seen() == self.seen(),
            scan.limit() == MAX_ENTRIES_PER_VOLUME,
            !scan.is_finished(),
    {
        VolumeScan::begin(self.next_volume as u8, self.records_seen)
    }

    /// Takes over the entries of the volume that was due, scanned to its
    /// end within the limit on entries, and goes on to the next volume.
    pub fn complete_volume(&mut self, scan: VolumeScan)
        requires
            old(self).wf(),
            !old(self).is_done(),
            scan.wf(),
            scan.volume() == old(self).position(),
            scan.seen() >= old(self).seen(),
            scan.request_spec() == ScanRequest::Finish,
        ensures
            final(self).wf(),
            final(self).seen() >= old(self).seen(),
            final(self).gathered().len() <= old(self).gathered().len() + scan.limit(),
            final(self).volumes() == old(self).volumes(),
            final(self).gathered() == old(self).gathered() + scan.taken(),
            final(self).warnings() == old(self).warnings(),
            final(self).seen() == scan.seen(),
            final(self).position() == old(self).position() + 1,
    {
        self.records_seen = scan.records_seen();
        let ghost before = self.entries@;
        let mut fresh = scan.into_entries();
        self.entries.append(&mut fresh);
        self.next_volume = self.next_volume + 1;
        proof {
            assert forall|i: int| 0 <= i < self.entries@.len() implies {
                &&& !is_unsafe_name((#[trigger] self.entries@[i]).name@)
                &&& (self.entries@[i].drive_idx as int) < self.next_volume
            } by {
                if i < before.len() {
                    assert(self.entries@[i] == old(self).gathered()[i]);
                } else {
                    assert(self.entries@[i] == scan.taken()[i - before.len()]);
                }
            }
        }
    }

    /// Gives up the volume that was due: its entries are dropped, a
    /// warning with the reason is kept, and the scan goes on to the next
    /// volume.
    pub fn abandon_volume(&mut self, scan: VolumeScan, error: VolumeError)
        requires
            old(self).wf(),
            !old(self).is_done(),
            scan.seen() >= old(self).seen(),
        ensures
            final(self).wf(),
            final(self).seen() >= old(self).seen(),
            final(self).volumes() == old(self).volumes(),
            final(self).gathered() == old(self).gathered(),
            final(self).warnings().len() == old(self).warnings().len() + 1,
            final(self).warnings().drop_last() == old(self).warnings(),
            final(self).warnings().last()@ == warning_text(
                old(self).volumes()[old(self).position()]@,
                error,
            ),
            final(self).seen() == scan.seen(),
            final(self).position() == old(self).position() + 1,
    {
        self.records_seen = scan.records_seen();
        let text = warning(self.drives[self.next_volume].as_str(), error);
        let ghost before = self.errors@;
        self.errors.push(text);
        proof {
            assert(self.errors@.drop_last() =~= before);
        }
        self.next_volume = self.next_volume + 1;
    }

    /// Entries seen so far, those of failed volumes included.
    pub fn records_seen(&self) -> (seen: u64)
        ensures
            seen == self.seen(),
    {
        self.records_seen
    }

    /// Ends the scan: the gathered entries are ordered into a catalog,
    /// which keeps of the entries that share a key the one gathered first.
    pub fn finish(self) -> (report: ScanReport)
        requires
            self.wf(),
        ensures
            report.catalog.wf(),
            forall|drive_idx: u8, id: u64| #[trigger]
                report.catalog.lookup(drive_idx, id) == first_with_key(
                    self.gathered(),
                    drive_idx,
                    id,
                ),
            forall|i: int|
                0 <= i < report.catalog@.len() ==> self.gathered().contains(
                    #[trigger] report.catalog@[i],
                ),
            keeps_first_of_each_key(report.catalog@, self.gathered()),
            all_admitted(report.catalog@, self.volumes().len() as int),
            report.drives@ == self.volumes(),
            report.errors@ == self.warnings(),
    {
        let ghost given = self.entries@;
        let catalog = Catalog::build(self.entries);
        proof {
            assert forall|i: int| 0 <= i < catalog@.len() implies {
                &&& !is_unsafe_name((#[trigger] catalog@[i]).name@)
                &&& (catalog@[i].drive_idx as int) < self.drives@.len()
            } by {
                assert(given.contains(catalog@[i]));
                let j = choose|j: int| 0 <= j < given.len() && given[j] == catalog@[i];
                assert(!is_unsafe_name(given[j].name@));
            }
        }
        ScanReport { catalog, drives: self.drives, errors: self.errors }
    }
}

} // verus!
