//! Storage object URLs as handed to the frontend.

use crate::strutil::string_push;
use vstd::prelude::*;
use vstd::string::StrSliceExecFns;

verus! {

/// Whether the string contains the `://` of an absolute URL.
pub open spec fn has_scheme_sep(s: Seq<char>) -> bool {
    exists|i: int| 0 <= i && i + 3 <= s.len() && #[trigger] s.subrange(i, i + 3) == seq![':', '/', '/']
}

fn contains_scheme_sep(s: &str) -> (r: bool)
    ensures
        r == has_scheme_sep(s@),
{
    let n = s.unicode_len();
    if n < 3 {
        proof {
            assert(!has_scheme_sep(s@));
        }
        return false;
    }
    let mut i: usize = 0;
    while i <= n - 3
        invariant
            n == s@.len(),
            3 <= n,
            i <= n - 2,
            forall|k: int| 0 <= k < i ==> #[trigger] s@.subrange(k, k + 3) != seq![':', '/', '/'],
        decreases n - i,
    {
        if s.get_char(i) == ':' && s.get_char(i + 1) == '/' && s.get_char(i + 2) == '/' {
            proof {
                assert(s@.subrange(i as int, i as int + 3) =~= seq![':', '/', '/']);
            }
            return true;
        }
        proof {
            assert(s@.subrange(i as int, i as int + 3)[0] == s@[i as int]);
            assert(s@.subrange(i as int, i as int + 3)[1] == s@[i as int + 1]);
            assert(s@.subrange(i as int, i as int + 3)[2] == s@[i as int + 2]);
            assert(s@.subrange(i as int, i as int + 3) != seq![':', '/', '/']);
        }
        i = i + 1;
    }
    proof {
        assert(!has_scheme_sep(s@));
    }
    false
}

/// Normalizes a stored object reference for the frontend: absolute URLs
/// pass through unchanged, bare object names get the public storage host
/// prefixed.
pub fn normalize_url(url: Option<String>) -> (r: Option<String>)
    ensures
        match url {
            None => r is None,
            Some(u) => {
                &&& r is Some
                &&& has_scheme_sep(u@) ==> r->0@ == u@
                &&& !has_scheme_sep(u@) ==> r->0@ == ("https://storage.sharinflame.com")@
                    + seq!['/'] + u@
            },
        },
{
    match url {
        Some(u) => {
            if contains_scheme_sep(u.as_str()) {
                Some(u)
            } else {
                let mut out = "https://storage.sharinflame.com".to_owned();
                string_push(&mut out, '/');
                out.append(u.as_str());
                Some(out)
            }
        },
        None => None,
    }
}

} // verus!
