//! Which names the index refuses: those of alternate data streams, of shell
//! shortcuts and of synthetic objects, which must never reach a path.

use vstd::prelude::*;
use crate::text::{chars_of, contains_run, ends_with, has_char, has_run, has_suffix};

verus! {

/// The name holds a colon, two colons in a row, the ending `.lnk`, an
/// opening and a closing brace, or the prefix that escapes path parsing.
pub open spec fn is_unsafe_name(name: Seq<char>) -> bool {
    ||| name.contains(':')
    ||| contains_run(name, seq![':', ':'])
    ||| ends_with(name, seq!['.', 'l', 'n', 'k'])
    ||| (name.contains('{') && name.contains('}'))
    ||| contains_run(name, seq!['\\', '\\', '?', '\\'])
}

/// Whether the index refuses `name`.
pub fn name_is_unsafe(name: &str) -> (refused: bool)
    ensures
        refused == is_unsafe_name(name@),
{
    let chars = chars_of(name);
    let stream_mark: Vec<char> = vec![':', ':'];
    let shortcut: Vec<char> = vec!['.', 'l', 'n', 'k'];
    let escape: Vec<char> = vec!['\\', '\\', '?', '\\'];
    proof {
        assert(stream_mark@ =~= seq![':', ':']);
        assert(shortcut@ =~= seq!['.', 'l', 'n', 'k']);
        assert(escape@ =~= seq!['\\', '\\', '?', '\\']);
    }
    has_char(&chars, ':') || has_run(&chars, &stream_mark) || has_suffix(&chars, &shortcut) || (
    has_char(&chars, '{') && has_char(&chars, '}')) || has_run(&chars, &escape)
}

/// A name with a colon in it is refused, whatever else it holds.
pub proof fn lemma_colon_is_unsafe(name: Seq<char>, at: int)
    requires
        0 <= at < name.len(),
        name[at] == ':',
    ensures
        is_unsafe_name(name),
{
}

} // verus!
