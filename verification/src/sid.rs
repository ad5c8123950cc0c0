//! Session-id extraction from diagnostic text.
//!
//! File-based backends announce their real session id on a diagnostic
//! channel rather than in the event stream.  The id appears as the word
//! `session-` followed by hexadecimal digits and hyphens; extraction takes
//! the leftmost such occurrence and extends it as far as it runs.

use vstd::prelude::*;

verus! {

/// A character that may follow the `session-` marker inside an id.
pub open spec fn is_sid_char(c: char) -> bool {
    ('a' <= c && c <= 'f') || ('0' <= c && c <= '9') || c == '-'
}

/// Does a session id start at position `i`?
pub open spec fn sid_match_at(s: Seq<char>, i: int) -> bool {
    &&& 0 <= i
    &&& i + 9 <= s.len()
    &&& s[i] == 's'
    &&& s[i + 1] == 'e'
    &&& s[i + 2] == 's'
    &&& s[i + 3] == 's'
    &&& s[i + 4] == 'i'
    &&& s[i + 5] == 'o'
    &&& s[i + 6] == 'n'
    &&& s[i + 7] == '-'
    &&& is_sid_char(s[i + 8])
}

/// Where the run of id characters starting at `k` ends.
pub open spec fn run_end(s: Seq<char>, k: int) -> int
    decreases s.len() - k,
{
    if 0 <= k < s.len() && is_sid_char(s[k]) {
        run_end(s, k + 1)
    } else {
        k
    }
}

/// The leftmost session id in the text, extended as far as it runs, if
/// the text holds one at all.
#[verifier::loop_isolation(false)]
pub fn extract_session_id(text: &str) -> (r: Option<String>)
    ensures
        (match r {
            Some(m) => exists|i: int|
                #![trigger sid_match_at(text@, i)]
                {
                    &&& sid_match_at(text@, i)
                    &&& (forall|j: int| 0 <= j < i ==> !sid_match_at(text@, j))
                    &&& m@ == text@.subrange(i, run_end(text@, i + 8))
                },
            None => forall|j: int| 0 <= j <= text@.len() ==> !sid_match_at(text@, j),
        }),
{
    let cs = crate::json::str_to_chars(text);
    let n = cs.len();
    let mut i: usize = 0;
    while i < n
        invariant
            i <= n,
            n == cs@.len(),
            forall|j: int| 0 <= j < i ==> !sid_match_at(text@, j),
        decreases n - i,
    {
        let matched: bool = n - i >= 9 && cs[i] == 's' && cs[i + 1] == 'e' && cs[i + 2] == 's'
            && cs[i + 3] == 's' && cs[i + 4] == 'i' && cs[i + 5] == 'o' && cs[i + 6] == 'n'
            && cs[i + 7] == '-' && {
            let c = cs[i + 8];
            ('a' <= c && c <= 'f') || ('0' <= c && c <= '9') || c == '-'
        };
        if matched {
            let mut k: usize = i + 8;
            while k < n && (('a' <= cs[k] && cs[k] <= 'f') || ('0' <= cs[k] && cs[k] <= '9')
                || cs[k] == '-')
                invariant
                    i + 8 <= k <= n,
                    run_end(text@, i + 8) == run_end(text@, k as int),
                decreases n - k,
            {
                k = k + 1;
            }
            proof {
                assert(run_end(text@, k as int) == k);
            }
            let mut out: Vec<char> = Vec::new();
            let mut d: usize = i;
            while d < k
                invariant
                    i <= d <= k <= n,
                    n == cs@.len(),
                    out@ == cs@.subrange(i as int, d as int),
                decreases k - d,
            {
                proof {
                    assert(cs@.subrange(i as int, d + 1 as int) =~= cs@.subrange(i as int,
                        d as int).push(cs@[d as int]));
                }
                out.push(cs[d]);
                d = d + 1;
            }
            proof {
                assert(sid_match_at(text@, i as int));
                assert(run_end(text@, i + 8) == k);
                assert(out@ == text@.subrange(i as int, run_end(text@, i + 8)));
            }
            return Some(crate::json::string_from_chars(&out));
        }
        proof {
            assert(!sid_match_at(text@, i as int));
        }
        i = i + 1;
    }
    proof {
        assert forall|j: int| 0 <= j <= text@.len() implies !sid_match_at(text@, j) by {
            if j < text@.len() {
                assert(!sid_match_at(text@, j));
            }
        }
    }
    None
}

} // verus!
