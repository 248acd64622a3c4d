//! Character-level helpers over strings.

use vstd::prelude::*;
use vstd::std_specs::iter::IteratorSpec;

verus! {

/// The characters of `s`, one element per `char`.
pub fn chars_of(s: &str) -> (r: Vec<char>)
    ensures
        r@ == s@,
{
    let mut it = s.chars();
    let mut out: Vec<char> = Vec::new();
    loop
        invariant
            out@ + it.remaining() == s@,
            it.decrease() is Some,
        ensures
            out@ == s@,
        decreases it.decrease()->0,
    {
        match it.next() {
            Some(c) => {
                out.push(c);
            },
            None => {
                assert(out@ + it.remaining() =~= out@);
                break;
            },
        }
    }
    out
}

/// Whether `c` occurs in `set`.
pub fn contains_char(set: &Vec<char>, c: char) -> (r: bool)
    ensures
        r == set@.contains(c),
{
    let mut i: usize = 0;
    while i < set.len()
        invariant
            i <= set.len(),
            forall|j: int| 0 <= j < i ==> set@[j] != c,
        decreases set.len() - i,
    {
        if set[i] == c {
            return true;
        }
        i = i + 1;
    }
    false
}

/// Index (in characters) of the first character of `msg` that is one of
/// `delims`, or `None` when there is none.
pub fn strpbrk(msg: &String, delims: &str) -> (r: Option<usize>)
    ensures
        match r {
            Some(ix) => {
                &&& ix < msg@.len()
                &&& delims@.contains(msg@[ix as int])
                &&& forall|j: int| 0 <= j < ix ==> !delims@.contains(#[trigger] msg@[j])
            },
            None => forall|j: int| 0 <= j < msg@.len() ==> !delims@.contains(#[trigger] msg@[j]),
        },
{
    let m = chars_of(msg.as_str());
    let d = chars_of(delims);
    let mut ix: usize = 0;
    while ix < m.len()
        invariant
            m@ == msg@,
            d@ == delims@,
            ix <= m.len(),
            forall|j: int| 0 <= j < ix ==> !delims@.contains(#[trigger] msg@[j]),
        decreases m.len() - ix,
    {
        if contains_char(&d, m[ix]) {
            return Some(ix);
        }
        ix = ix + 1;
    }
    None
}

/// Indices (in characters) of all characters of `msg` that are one of
/// `delims`, in increasing order.
pub fn strpbrk_all(msg: &String, delims: &str) -> (r: Vec<usize>)
    ensures
        forall|k: int|
            0 <= k < r@.len() ==> #[trigger] r@[k] < msg@.len() && delims@.contains(
                msg@[r@[k] as int],
            ),
        forall|k: int, l: int| 0 <= k < l < r@.len() ==> r@[k] < r@[l],
        forall|j: int|
            0 <= j < msg@.len() && delims@.contains(#[trigger] msg@[j]) ==> exists|k: int|
                0 <= k < r@.len() && r@[k] == j,
{
    let m = chars_of(msg.as_str());
    let d = chars_of(delims);
    let mut ret: Vec<usize> = Vec::new();
    let mut ix: usize = 0;
    while ix < m.len()
        invariant
            m@ == msg@,
            d@ == delims@,
            ix <= m.len(),
            forall|k: int|
                0 <= k < ret@.len() ==> #[trigger] ret@[k] < ix && delims@.contains(
                    msg@[ret@[k] as int],
                ),
            forall|k: int, l: int| 0 <= k < l < ret@.len() ==> ret@[k] < ret@[l],
            forall|j: int|
                0 <= j < ix && delims@.contains(#[trigger] msg@[j]) ==> exists|k: int|
                    0 <= k < ret@.len() && ret@[k] == j,
        decreases m.len() - ix,
    {
        let ghost before = ret@;
        if contains_char(&d, m[ix]) {
            ret.push(ix);
        }
        assert forall|j: int|
            0 <= j < ix + 1 && delims@.contains(#[trigger] msg@[j]) implies exists|k: int|
                0 <= k < ret@.len() && ret@[k] == j by {
            if j < ix {
                let k = choose|k: int| 0 <= k < before.len() && before[k] == j;
                assert(ret@[k] == j);
            } else {
                assert(ret@[ret@.len() - 1] == j);
            }
        }
        ix = ix + 1;
    }
    ret
}

} // verus!
