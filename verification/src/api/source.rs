//! Scanning kernel source text for entry points.
//!
//! A program's entry points are the occurrences of the marker `__kernel`
//! in its source text; a built program yields one kernel per occurrence,
//! in textual order. The scan is an exact substring count over the
//! characters of the source — no further parsing is done here, since
//! kernel source analysis is not this runtime's job.

use vstd::prelude::*;

verus! {

use vstd::std_specs::iter::IteratorSpec;

/// The marker that opens a kernel entry-point declaration.
pub open spec fn entry_marker() -> Seq<char> {
    seq!['_', '_', 'k', 'e', 'r', 'n', 'e', 'l']
}

/// Whether the marker occurs at position `i` of `s`.
pub open spec fn entry_at(s: Seq<char>, i: int) -> bool {
    0 <= i && i + 8 <= s.len() && s.subrange(i, i + 8) == entry_marker()
}

/// How many positions at or after `i` open an entry point.
pub open spec fn entry_count_from(s: Seq<char>, i: int) -> nat
    decreases s.len() - i,
{
    if i < 0 || i + 8 > s.len() {
        0
    } else {
        (if entry_at(s, i) {
            1nat
        } else {
            0nat
        }) + entry_count_from(s, i + 1)
    }
}

/// How many kernel entry points a source text declares.
pub open spec fn entry_count(s: Seq<char>) -> nat {
    entry_count_from(s, 0)
}

/// A source text with at least one entry point has a positive count.
pub proof fn lemma_entry_at_counts(s: Seq<char>, i: int, j: int)
    requires
        0 <= i <= j,
        entry_at(s, j),
    ensures
        entry_count_from(s, i) >= 1,
    decreases j - i,
{
    if i == j {
    } else {
        lemma_entry_at_counts(s, i + 1, j);
    }
}

/// Collects the characters of a string slice.
fn chars_of(s: &str) -> (v: Vec<char>)
    ensures
        v@ == s@,
{
    broadcast use vstd::string::group_string_axioms;

    let mut it = s.chars();
    let mut v: Vec<char> = Vec::new();
    loop
        invariant
            v@.len() <= s@.len(),
            v@ + it.remaining() == s@,
        decreases s@.len() - v@.len(),
    {
        match it.next() {
            Some(c) => {
                v.push(c);
            },
            None => {
                proof {
                    assert(v@ =~= s@);
                }
                return v;
            },
        }
    }
}

/// Whether the marker occurs at position `i` of `v`; `i` leaves at least
/// eight characters.
fn marker_at(v: &Vec<char>, i: usize) -> (r: bool)
    requires
        i < v@.len(),
        v@.len() - i >= 8,
    ensures
        r == entry_at(v@, i as int),
{
    let n: usize = v.len();
    let r = i + 8 <= n && v[i] == '_' && v[i + 1] == '_' && v[i + 2] == 'k' && v[i + 3] == 'e'
        && v[i + 4] == 'r' && v[i + 5] == 'n' && v[i + 6] == 'e' && v[i + 7] == 'l';
    proof {
        if r {
            assert(v@.subrange(i as int, i + 8 as int) =~= entry_marker());
        } else {
            assert(v@.subrange(i as int, i + 8 as int) != entry_marker()) by {
                if v@.subrange(i as int, i + 8 as int) == entry_marker() {
                    assert(forall|k: int| 0 <= k < 8
                        ==> v@.subrange(i as int, i + 8 as int)[k] == entry_marker()[k]);
                }
            }
        }
    }
    r
}

/// Counts the kernel entry points that a source text declares.
pub fn count_entries(src: &str) -> (n: usize)
    ensures
        n == entry_count(src@),
{
    let v = chars_of(src);
    let len = v.len();
    let mut n: usize = 0;
    let mut i: usize = 0;
    while i < len
        invariant
            v@ == src@,
            len == v@.len(),
            i <= len,
            n <= i,
            n + entry_count_from(v@, i as int) == entry_count(v@),
        decreases len - i,
    {
        if len - i >= 8 && marker_at(&v, i) {
            n = n + 1;
        }
        i = i + 1;
    }
    n
}

} // verus!
