//! Full paths, rebuilt from the parent links of the catalog.
//!
//! A path is the volume's name, a separator, and the names from below the
//! volume's root down to the entry. The walk upward ends at the root, at a
//! parent that the catalog does not hold, or after `MAX_HOPS` steps.

use vstd::prelude::*;
use crate::catalog::{first_with_key, Catalog};
use crate::entry::FileEntry;
use crate::text::chars_of;

verus! {

/// The most steps that a walk takes towards the root.
pub const MAX_HOPS: usize = 200;

/// The separator between the parts of a path.
pub open spec fn separator() -> Seq<char> {
    seq!['\\']
}

/// What stands in place of a volume's name where the volume is not known.
pub open spec fn unknown_volume() -> Seq<char> {
    seq!['?']
}

/// The name is one of the two that stand for a directory itself and for
/// its parent, and is no part of a path.
pub open spec fn is_pseudo_name(name: Seq<char>) -> bool {
    name == seq!['.'] || name == seq!['.', '.']
}

/// The names that a walk of at most `hops` steps collects, starting at the
/// entry `(drive_idx, id)`: the entry's own name first.
pub open spec fn path_parts(entries: Seq<FileEntry>, drive_idx: u8, id: u64, hops: nat) -> Seq<
    Seq<char>,
>
    decreases hops,
{
    if hops == 0 {
        Seq::empty()
    } else {
        match first_with_key(entries, drive_idx, id) {
            None => Seq::empty(),
            Some(entry) => {
                if entry.parent_id == id {
                    Seq::empty()
                } else {
                    let above = path_parts(entries, drive_idx, entry.parent_id, (hops - 1) as nat);
                    if is_pseudo_name(entry.name@) {
                        above
                    } else {
                        seq![entry.name@] + above
                    }
                }
            },
        }
    }
}

/// The parts, with a separator between each two.
pub open spec fn joined(parts: Seq<Seq<char>>) -> Seq<char>
    decreases parts.len(),
{
    if parts.len() == 0 {
        Seq::empty()
    } else if parts.len() == 1 {
        parts[0]
    } else {
        joined(parts.drop_last()) + separator() + parts.last()
    }
}

/// The name of the volume with index `drive_idx`, or the placeholder where
/// the list of volumes holds no such index.
pub open spec fn volume_prefix(drives: Seq<String>, drive_idx: u8) -> Seq<char> {
    if (drive_idx as int) < drives.len() {
        drives[drive_idx as int]@
    } else {
        unknown_volume()
    }
}

/// The path of the entry `(drive_idx, id)`.
pub open spec fn resolved_path(
    entries: Seq<FileEntry>,
    drives: Seq<String>,
    drive_idx: u8,
    id: u64,
) -> Seq<char> {
    volume_prefix(drives, drive_idx) + separator() + joined(
        path_parts(entries, drive_idx, id, MAX_HOPS as nat).reverse(),
    )
}

/// The names of the entries at the given positions, in the same order.
pub open spec fn names_at(entries: Seq<FileEntry>, picked: Seq<usize>) -> Seq<Seq<char>> {
    Seq::new(picked.len(), |k: int| entries[picked[k] as int].name@)
}

/// Whether the name is `.` or `..`.
pub fn name_is_pseudo(name: &str) -> (pseudo: bool)
    ensures
        pseudo == is_pseudo_name(name@),
{
    let chars = chars_of(name);
    let pseudo = (chars.len() == 1 && chars[0] == '.') || (chars.len() == 2 && chars[0] == '.'
        && chars[1] == '.');
    proof {
        if pseudo {
            if chars.len() == 1 {
                assert(name@ =~= seq!['.']);
            } else {
                assert(name@ =~= seq!['.', '.']);
            }
        } else {
            assert(seq!['.'].len() == 1 && seq!['.'][0] == '.');
            assert(seq!['.', '.'].len() == 2 && seq!['.', '.'][0] == '.' && seq!['.', '.'][1]
                == '.');
        }
    }
    pseudo
}

impl Catalog {
    /// The path of the entry `(drive_idx, id)`, as far as the catalog knows
    /// it.
    pub open spec fn path_of(&self, drives: Seq<String>, drive_idx: u8, id: u64) -> Seq<char> {
        resolved_path(self@, drives, drive_idx, id)
    }

    /// Positions of the entries whose names make up the path of
    /// `(drive_idx, id)`, the entry's own first.
    pub(crate) fn ancestors(&self, drive_idx: u8, id: u64) -> (picked: Vec<usize>)
        requires
            self.wf(),
        ensures
            picked@.len() <= MAX_HOPS,
            forall|k: int| 0 <= k < picked@.len() ==> picked@[k] < self@.len(),
            names_at(self@, picked@) == path_parts(self@, drive_idx, id, MAX_HOPS as nat),
    {
        let mut picked: Vec<usize> = Vec::new();
        let mut current: u64 = id;
        let mut hops: usize = 0;
        while hops < MAX_HOPS
            invariant
                self.wf(),
                hops <= MAX_HOPS,
                picked@.len() <= hops,
                forall|k: int| 0 <= k < picked@.len() ==> picked@[k] < self@.len(),
                names_at(self@, picked@) + path_parts(
                    self@,
                    drive_idx,
                    current,
                    (MAX_HOPS - hops) as nat,
                ) == path_parts(self@, drive_idx, id, MAX_HOPS as nat),
            ensures
                picked@.len() <= MAX_HOPS,
                forall|k: int| 0 <= k < picked@.len() ==> picked@[k] < self@.len(),
                names_at(self@, picked@) == path_parts(self@, drive_idx, id, MAX_HOPS as nat),
            decreases MAX_HOPS - hops,
        {
            let ghost so_far = names_at(self@, picked@);
            let ghost ahead = path_parts(self@, drive_idx, current, (MAX_HOPS - hops) as nat);
            match self.find(drive_idx, current) {
                None => {
                    proof {
                        assert(so_far + ahead =~= so_far);
                    }
                    break ;
                },
                Some(i) => {
                    let entry = &self.entries()[i];
                    if entry.parent_id == current {
                        proof {
                            assert(so_far + ahead =~= so_far);
                        }
                        break ;
                    }
                    let ghost above = path_parts(
                        self@,
                        drive_idx,
                        entry.parent_id,
                        (MAX_HOPS - hops - 1) as nat,
                    );
                    if !name_is_pseudo(entry.name.as_str()) {
                        picked.push(i);
                        proof {
                            assert(names_at(self@, picked@) =~= so_far.push(entry.name@));
                            assert(so_far.push(entry.name@) + above =~= so_far + (seq![
                                entry.name@,
                            ] + above));
                        }
                    }
                    current = entry.parent_id;
                    hops += 1;
                },
            }
        }
        proof {
            if hops >= MAX_HOPS {
                let so_far = names_at(self@, picked@);
                assert(so_far + path_parts(self@, drive_idx, current, 0) =~= so_far);
            }
        }
        picked
    }

    /// The path of the entry `(drive_idx, id)`: the volume's name from
    /// `drives`, then the names from the root down to the entry.
    pub fn resolve(&self, id: u64, drive_idx: u8, drives: &Vec<String>) -> (path: String)
        requires
            self.wf(),
        ensures
            path@ == self.path_of(drives@, drive_idx, id),
    {
        let picked = self.ancestors(drive_idx, id);
        let ghost parts = path_parts(self@, drive_idx, id, MAX_HOPS as nat);
        let ghost down = parts.reverse();
        proof {
            reveal_strlit("?");
            reveal_strlit("\\");
            assert("?"@ =~= unknown_volume());
            assert("\\"@ =~= separator());
        }
        let mut path = if (drive_idx as usize) < drives.len() {
            drives[drive_idx as usize].clone()
        } else {
            String::from_str("?")
        };
        path.append("\\");
        let ghost head = volume_prefix(drives@, drive_idx) + separator();
        let n: usize = picked.len();
        let mut done: usize = 0;
        proof {
            assert(down.subrange(0, 0) =~= Seq::<Seq<char>>::empty());
            assert(head + joined(Seq::<Seq<char>>::empty()) =~= head);
        }
        while done < n
            invariant
                n == picked@.len(),
                done <= n,
                parts == names_at(self@, picked@),
                down == parts.reverse(),
                forall|k: int| 0 <= k < picked@.len() ==> picked@[k] < self@.len(),
                path@ == head + joined(down.subrange(0, done as int)),
            decreases n - done,
        {
            let ghost before = down.subrange(0, done as int);
            let ghost after = down.subrange(0, done + 1);
            let at: usize = picked[n - 1 - done];
            let name = &self.entries()[at].name;
            proof {
                assert(down[done as int] == parts[n - 1 - done]);
                assert(parts[n - 1 - done] == name@);
                assert(after.drop_last() =~= before);
                assert(after.last() == name@);
            }
            if done > 0 {
                path.append("\\");
                proof {
                    reveal_strlit("\\");
                    assert("\\"@ =~= separator());
                    assert(path@ =~= head + (joined(before) + separator()));
                }
            } else {
                proof {
                    assert(joined(before) =~= Seq::<char>::empty());
                    assert(after.len() == 1);
                    assert(after[0] == name@);
                }
            }
            path.append(name.as_str());
            proof {
                assert(path@ =~= head + joined(after));
            }
            done += 1;
        }
        proof {
            assert(down.subrange(0, n as int) =~= down);
        }
        path
    }
}

/// The path of `entry` in the catalog.
pub fn resolve_path(entry: &FileEntry, catalog: &Catalog, drives: &Vec<String>) -> (path: String)
    requires
        catalog.wf(),
    ensures
        path@ == catalog.path_of(drives@, entry.drive_idx, entry.id),
{
    catalog.resolve(entry.id, entry.drive_idx, drives)
}

/// A walk collects no more names than it may take steps.
pub proof fn lemma_path_parts_bounded(entries: Seq<FileEntry>, drive_idx: u8, id: u64, hops: nat)
    ensures
        path_parts(entries, drive_idx, id, hops).len() <= hops,
    decreases hops,
{
    if hops > 0 {
        match first_with_key(entries, drive_idx, id) {
            None => {},
            Some(entry) => {
                if entry.parent_id != id {
                    lemma_path_parts_bounded(entries, drive_idx, entry.parent_id, (hops - 1) as nat);
                }
            },
        }
    }
}

/// The path of a volume's root is the volume's name and one separator,
/// with nothing behind it.
pub proof fn lemma_root_resolves_to_prefix(
    catalog: Catalog,
    drives: Seq<String>,
    drive_idx: u8,
    id: u64,
)
    requires
        catalog.lookup(drive_idx, id) is Some,
        catalog.lookup(drive_idx, id)->0.parent_id == id,
    ensures
        catalog.path_of(drives, drive_idx, id) == volume_prefix(drives, drive_idx) + separator(),
{
    let parts = path_parts(catalog@, drive_idx, id, MAX_HOPS as nat);
    assert(parts =~= Seq::<Seq<char>>::empty());
    assert(parts.reverse() =~= Seq::<Seq<char>>::empty());
    assert(volume_prefix(drives, drive_idx) + separator() + joined(parts.reverse())
        =~= volume_prefix(drives, drive_idx) + separator());
}

/// Resolving is a function of the catalog, the volumes and the key: two
/// paths resolved for the same entry are the same text.
pub proof fn lemma_resolve_repeats(
    catalog: Catalog,
    drives: Seq<String>,
    drive_idx: u8,
    id: u64,
    first: String,
    second: String,
)
    requires
        first@ == catalog.path_of(drives, drive_idx, id),
        second@ == catalog.path_of(drives, drive_idx, id),
    ensures
        first@ == second@,
{
}

} // verus!
