//! Character sequences: the code points of a string, and tests on them.

use vstd::prelude::*;
use vstd::std_specs::iter::IteratorSpec;

verus! {

/// The code points of `s`, in order.
pub fn chars_of(s: &str) -> (chars: Vec<char>)
    ensures
        chars@ == s@,
{
    broadcast use vstd::string::group_string_axioms;

    let mut it = s.chars();
    let mut chars: Vec<char> = Vec::new();
    loop
        invariant
            it.obeys_prophetic_iter_laws(),
            it.decrease() is Some,
            chars@ + it.remaining() == s@,
        ensures
            chars@ == s@,
        decreases it.decrease()->0,
    {
        let ghost before = it.remaining();
        match it.next() {
            Some(c) => {
                chars.push(c);
                proof {
                    assert(before =~= seq![c] + before.drop_first());
                    assert(chars@ + it.remaining() =~= s@);
                }
            },
            None => {
                proof {
                    assert(before.len() == 0);
                    assert(chars@ + it.remaining() =~= chars@);
                }
                break ;
            },
        }
    }
    chars
}

/// The three texts, one behind the other.
pub fn concat3(a: &str, b: &str, c: &str) -> (joined: String)
    ensures
        joined@ == a@ + b@ + c@,
{
    let mut joined = String::from_str(a);
    joined.append(b);
    joined.append(c);
    joined
}

/// `pat` stands in `s` from position `at` on.
pub open spec fn run_at(s: Seq<char>, pat: Seq<char>, at: int) -> bool {
    0 <= at && at + pat.len() <= s.len() && s.subrange(at, at + pat.len()) == pat
}

/// `pat` stands somewhere in `s`.
pub open spec fn contains_run(s: Seq<char>, pat: Seq<char>) -> bool {
    exists|at: int| run_at(s, pat, at)
}

/// `s` begins with `pat`.
pub open spec fn starts_with(s: Seq<char>, pat: Seq<char>) -> bool {
    run_at(s, pat, 0)
}

/// `s` ends with `pat`.
pub open spec fn ends_with(s: Seq<char>, pat: Seq<char>) -> bool {
    run_at(s, pat, s.len() - pat.len())
}

/// Whether `c` occurs in `chars`.
pub fn has_char(chars: &Vec<char>, c: char) -> (found: bool)
    ensures
        found == chars@.contains(c),
{
    let mut i: usize = 0;
    while i < chars.len()
        invariant
            i <= chars.len(),
            forall|j: int| 0 <= j < i ==> chars@[j] != c,
        decreases chars.len() - i,
    {
        if chars[i] == c {
            return true;
        }
        i += 1;
    }
    false
}

/// Whether `pat` stands in `chars` from position `at` on.
pub fn has_run_at(chars: &Vec<char>, pat: &Vec<char>, at: usize) -> (found: bool)
    ensures
        found == run_at(chars@, pat@, at as int),
{
    if at > chars.len() || pat.len() > chars.len() - at {
        return false;
    }
    let mut k: usize = 0;
    while k < pat.len()
        invariant
            k <= pat.len(),
            at + pat.len() <= chars.len(),
            forall|j: int| 0 <= j < k ==> chars@[at + j] == pat@[j],
        decreases pat.len() - k,
    {
        if chars[at + k] != pat[k] {
            proof {
                let window = chars@.subrange(at as int, at + pat.len());
                assert(window[k as int] == chars@[at + k]);
            }
            return false;
        }
        k += 1;
    }
    proof {
        assert(chars@.subrange(at as int, at + pat.len()) =~= pat@);
    }
    true
}

/// Whether `pat` stands somewhere in `chars`.
pub fn has_run(chars: &Vec<char>, pat: &Vec<char>) -> (found: bool)
    ensures
        found == contains_run(chars@, pat@),
{
    if pat.len() > chars.len() {
        return false;
    }
    let last: usize = chars.len() - pat.len();
    let mut at: usize = 0;
    loop
        invariant
            last == chars.len() - pat.len(),
            pat.len() <= chars.len(),
            at <= last,
            forall|j: int| 0 <= j < at ==> !run_at(chars@, pat@, j),
        decreases last - at,
    {
        if has_run_at(chars, pat, at) {
            return true;
        }
        if at == last {
            return false;
        }
        at += 1;
    }
}

/// Whether `chars` begins with `pat`.
pub fn has_prefix(chars: &Vec<char>, pat: &Vec<char>) -> (found: bool)
    ensures
        found == starts_with(chars@, pat@),
{
    has_run_at(chars, pat, 0)
}

/// Whether `chars` ends with `pat`.
pub fn has_suffix(chars: &Vec<char>, pat: &Vec<char>) -> (found: bool)
    ensures
        found == ends_with(chars@, pat@),
{
    if pat.len() > chars.len() {
        return false;
    }
    has_run_at(chars, pat, chars.len() - pat.len())
}

} // verus!
