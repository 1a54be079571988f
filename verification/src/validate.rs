//! Input validation rules for user-supplied fields.

use vstd::prelude::*;
use vstd::string::{StrSliceExecFns, StringSliceAdditionalSpecFns};
use vstd::utf8::encode_utf8;

verus! {

/// The characters a username may contain: ASCII letters, digits, dots
/// and underscores.
pub open spec fn is_username_char(c: char) -> bool {
    let u = c as u32;
    (65 <= u && u <= 90) || (97 <= u && u <= 122) || (48 <= u && u <= 57) || c == '.' || c == '_'
}

/// A valid username: nonempty, only the characters above, and neither
/// `..` nor `__` anywhere in it.
pub open spec fn spec_valid_username(s: Seq<char>) -> bool {
    &&& s.len() >= 1
    &&& forall|i: int| 0 <= i < s.len() ==> is_username_char(#[trigger] s[i])
    &&& forall|i: int| 0 <= i < s.len() - 1 ==> !(#[trigger] s[i] == '.' && s[i + 1] == '.')
    &&& forall|i: int| 0 <= i < s.len() - 1 ==> !(#[trigger] s[i] == '_' && s[i + 1] == '_')
}

/// Checks a username against the rules above.
pub fn validate_username(nickname: &str) -> (r: bool)
    ensures
        r == spec_valid_username(nickname@),
{
    let n = nickname.unicode_len();
    if n == 0 {
        return false;
    }
    let mut i: usize = 0;
    let mut prev: char = ' ';
    while i < n
        invariant
            i <= n,
            n == nickname@.len(),
            forall|k: int| 0 <= k < i ==> is_username_char(#[trigger] nickname@[k]),
            forall|k: int| 0 <= k < i - 1 ==> !(#[trigger] nickname@[k] == '.' && nickname@[k + 1]
                == '.'),
            forall|k: int| 0 <= k < i - 1 ==> !(#[trigger] nickname@[k] == '_' && nickname@[k + 1]
                == '_'),
            i > 0 ==> prev == nickname@[i - 1],
        decreases n - i,
    {
        let c = nickname.get_char(i);
        let u = c as u32;
        let ok = (65 <= u && u <= 90) || (97 <= u && u <= 122) || (48 <= u && u <= 57) || c == '.'
            || c == '_';
        if !ok {
            return false;
        }
        if i > 0 && ((prev == '.' && c == '.') || (prev == '_' && c == '_')) {
            return false;
        }
        prev = c;
        i = i + 1;
    }
    true
}

/// At most eight languages, each at most sixteen bytes long.
pub open spec fn spec_valid_languages(langs: Seq<Seq<char>>) -> bool {
    &&& langs.len() <= 8
    &&& forall|i: int| 0 <= i < langs.len() ==> encode_utf8(#[trigger] langs[i]).len() <= 16
}

/// Checks a language list against the rules above.
pub fn validate_languages(langs: &Vec<String>) -> (r: bool)
    ensures
        r == spec_valid_languages(langs@.map_values(|l: String| l@)),
{
    let ghost view = langs@.map_values(|l: String| l@);
    if langs.len() > 8 {
        return false;
    }
    let n = langs.len();
    let mut i: usize = 0;
    while i < n
        invariant
            i <= n,
            n == langs@.len(),
            n <= 8,
            view == langs@.map_values(|l: String| l@),
            forall|k: int| 0 <= k < i ==> encode_utf8(#[trigger] view[k]).len() <= 16,
        decreases n - i,
    {
        let ls = langs[i].as_str();
        let lb = ls.as_bytes();
        proof {
            assert(view[i as int] == langs@[i as int]@);
            assert(lb@ == encode_utf8(view[i as int]));
        }
        if lb.len() > 16 {
            proof {
                assert(encode_utf8(view[i as int]).len() > 16);
            }
            return false;
        }
        proof {
            assert(encode_utf8(view[i as int]).len() <= 16);
        }
        i = i + 1;
    }
    true
}

} // verus!
