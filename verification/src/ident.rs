//! The numeric key of an article: the last segment of its identifier, read as
//! a hexadecimal number.

use vstd::prelude::*;
use crate::error::SyncError;
use crate::text::{chars_of, parse_number, parsed_number};

verus! {

/// The largest short identifier: 63 bits.
pub const SHORT_ID_MAX: u64 = 0x7fff_ffff_ffff_ffff;

/// Where the last segment of `s` begins: just behind its last `/`, or at 0
/// where it has none.
pub open spec fn segment_start(s: Seq<char>) -> int
    decreases s.len(),
{
    if s.len() == 0 {
        0
    } else if s.last() == '/' {
        s.len() as int
    } else {
        segment_start(s.drop_last())
    }
}

/// The part of `s` behind its last `/`; all of `s` where it has none.
pub open spec fn last_segment(s: Seq<char>) -> Seq<char> {
    s.skip(segment_start(s))
}

/// The short identifier that `id` stands for: its last segment as a
/// hexadecimal number of at most 63 bits.
pub open spec fn spec_short_id(id: Seq<char>) -> Option<u64> {
    match parsed_number(last_segment(id), 16, SHORT_ID_MAX as int) {
        Some(n) => Some(n as u64),
        None => None,
    }
}

/// The last segment is the longest tail of `s` that holds no `/`.
pub proof fn lemma_segment_start(s: Seq<char>)
    ensures
        0 <= segment_start(s) <= s.len(),
        segment_start(s) > 0 ==> s[segment_start(s) - 1] == '/',
        forall|i: int| segment_start(s) <= i < s.len() ==> s[i] != '/',
    decreases s.len(),
{
    if s.len() > 0 && s.last() != '/' {
        let t = s.drop_last();
        lemma_segment_start(t);
        assert forall|i: int| segment_start(s) <= i < s.len() implies s[i] != '/' by {
            if i < t.len() {
                assert(t[i] == s[i]);
            }
        }
    }
}

/// Derives the short identifier of `id`, or says that `id` is malformed: its
/// last segment is empty, holds something else than hexadecimal digits, or
/// exceeds 63 bits.
pub fn short_id(id: &str) -> (r: Result<u64, SyncError>)
    ensures
        r == (match spec_short_id(id@) {
            Some(n) => Ok::<u64, SyncError>(n),
            None => Err::<u64, SyncError>(SyncError::MalformedIdentifier),
        }),
{
    let v: Vec<char> = chars_of(id);
    let mut start: usize = v.len();
    while start > 0 && v[start - 1] != '/'
        invariant
            start <= v@.len(),
            forall|i: int| start <= i < v@.len() ==> v@[i] != '/',
        decreases start,
    {
        start -= 1;
    }
    proof {
        lemma_segment_found(v@, start as int);
    }
    match parse_number(&v, start, v.len(), 16, SHORT_ID_MAX) {
        Some(n) => Ok(n),
        None => Err(SyncError::MalformedIdentifier),
    }
}

/// A place behind a `/`, or the start, with no `/` behind it, is where the
/// last segment begins.
proof fn lemma_segment_found(s: Seq<char>, k: int)
    requires
        0 <= k <= s.len(),
        k > 0 ==> s[k - 1] == '/',
        forall|i: int| k <= i < s.len() ==> s[i] != '/',
    ensures
        segment_start(s) == k,
    decreases s.len(),
{
    if s.len() > 0 && s.last() != '/' {
        lemma_segment_found(s.drop_last(), k);
    }
}

} // verus!
