//! Which volumes a scan takes: the drive letters that the system reports,
//! and the kinds of drive that are indexed.

use vstd::prelude::*;
use crate::text::chars_of;

verus! {

/// The kind of a drive whose medium can be taken out.
pub const DRIVE_REMOVABLE: u32 = 2;

/// The kind of a drive whose medium is fixed.
pub const DRIVE_FIXED: u32 = 3;

/// Number of drive letters.
pub const DRIVE_LETTERS: u32 = 26;

/// Bit `i` of the mask is set.
pub open spec fn bit_set(mask: u32, i: u32) -> bool {
    mask & (1u32 << i) != 0
}

/// The drive letter with number `i`, counted from `A`.
pub open spec fn letter(i: u32) -> char {
    (65 + i) as u8 as char
}

/// The letters of the drives among the first `n` whose bit is set in the
/// mask, in alphabetical order.
pub open spec fn letters_below(mask: u32, n: nat) -> Seq<char>
    decreases n,
{
    if n == 0 {
        Seq::empty()
    } else {
        let rest = letters_below(mask, (n - 1) as nat);
        if bit_set(mask, (n - 1) as u32) {
            rest.push(letter((n - 1) as u32))
        } else {
            rest
        }
    }
}

/// Calls `String::push`. The contract claims what std documents of it: the
/// character is appended at the end of the text.
#[verifier::external_body]
fn push_char(text: &mut String, c: char)
    ensures
        final(text)@ == old(text)@.push(c),
{
    text.push(c);
}

/// The name of the drive with the given letter: the letter and a colon.
pub fn drive_name(letter: char) -> (name: String)
    ensures
        name@ == seq![letter, ':'],
{
    let mut name = String::new();
    push_char(&mut name, letter);
    name.append(":");
    proof {
        reveal_strlit(":");
        assert(name@ =~= seq![letter, ':']);
    }
    name
}

/// The root directory of the drive with the given letter: the letter, a
/// colon and a backslash.
pub fn drive_root(letter: char) -> (root: String)
    ensures
        root@ == seq![letter, ':', '\\'],
{
    let mut root = String::new();
    push_char(&mut root, letter);
    root.append(":\\");
    proof {
        reveal_strlit(":\\");
        assert(root@ =~= seq![letter, ':', '\\']);
    }
    root
}

/// Whether drives of this kind are indexed: fixed and removable ones are.
pub fn is_indexed_drive_type(drive_type: u32) -> (indexed: bool)
    ensures
        indexed == (drive_type == DRIVE_FIXED || drive_type == DRIVE_REMOVABLE),
{
    drive_type == DRIVE_FIXED || drive_type == DRIVE_REMOVABLE
}

/// The letters of the drives that the mask of logical drives names, in
/// alphabetical order.
pub fn drive_letters(bitmask: u32) -> (letters: Vec<char>)
    ensures
        letters@ == letters_below(bitmask, DRIVE_LETTERS as nat),
{
    let mut letters: Vec<char> = Vec::new();
    let mut i: u32 = 0;
    while i < DRIVE_LETTERS
        invariant
            i <= DRIVE_LETTERS,
            letters@ == letters_below(bitmask, i as nat),
        decreases DRIVE_LETTERS - i,
    {
        if (bitmask & (1u32 << i)) != 0 {
            let code: u8 = (65 + i) as u8;
            letters.push(code as char);
        }
        i += 1;
    }
    letters
}

/// The path under which the volume with the given name is opened as a
/// device.
pub open spec fn device_path(drive: Seq<char>) -> Seq<char> {
    "\\\\.\\"@ + drive
}

/// The path under which the volume named `drive` is opened as a device.
pub fn volume_device_path(drive: &str) -> (path: String)
    ensures
        path@ == device_path(drive@),
{
    let mut path = String::from_str("\\\\.\\");
    path.append(drive);
    path
}

/// The path names a drive at its start: a letter, a colon, a backslash.
pub open spec fn is_drive_rooted(path: Seq<char>) -> bool {
    path.len() >= 3 && path[1] == ':' && path[2] == '\\'
}

/// Whether the path names a drive at its start. Only such a path is
/// handed to the file manager.
pub fn has_drive_root(path: &str) -> (rooted: bool)
    ensures
        rooted == is_drive_rooted(path@),
{
    let chars = chars_of(path);
    chars.len() >= 3 && chars[1] == ':' && chars[2] == '\\'
}

/// The argument that makes the file manager show the entry at `path`.
pub open spec fn select_text(path: Seq<char>) -> Seq<char> {
    "/select,"@ + path
}

/// The argument that makes the file manager show the entry at `path`.
pub fn select_argument(path: &str) -> (argument: String)
    ensures
        argument@ == select_text(path@),
{
    let mut argument = String::from_str("/select,");
    argument.append(path);
    argument
}

} // verus!
