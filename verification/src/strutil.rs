//! Character-level string helpers: building strings one character at a
//! time, equality, and splitting on the NUL separator used by token
//! payloads.

use vstd::prelude::*;
use vstd::string::StrSliceExecFns;

verus! {

/// Relies on `String::push`: appends exactly the given character.
#[verifier::external_body]
pub fn string_push(s: &mut String, c: char)
    ensures
        final(s)@ == old(s)@.push(c),
{
    s.push(c);
}

/// No occurrence of `sep` anywhere in `s`.
pub open spec fn free_of(s: Seq<char>, sep: char) -> bool {
    forall|i: int| 0 <= i < s.len() ==> #[trigger] s[i] != sep
}

pub open spec fn no_nul(s: Seq<char>) -> bool {
    free_of(s, '\0')
}

/// Splitting a character sequence on a separator, front to back; a
/// sequence without the separator is a single part, and every separator
/// starts a new part.
pub open spec fn split_sep(s: Seq<char>, sep: char) -> Seq<Seq<char>>
    decreases s.len(),
{
    if s.len() == 0 {
        seq![Seq::<char>::empty()]
    } else if s[0] == sep {
        seq![Seq::<char>::empty()] + split_sep(s.drop_first(), sep)
    } else {
        let r = split_sep(s.drop_first(), sep);
        seq![seq![s[0]] + r[0]] + r.drop_first()
    }
}

pub open spec fn split_nul(s: Seq<char>) -> Seq<Seq<char>> {
    split_sep(s, '\0')
}

pub proof fn lemma_split_sep_len(s: Seq<char>, sep: char)
    ensures
        split_sep(s, sep).len() >= 1,
    decreases s.len(),
{
    if s.len() > 0 {
        lemma_split_sep_len(s.drop_first(), sep);
    }
}

/// A separator-free sequence splits into itself alone.
pub proof fn lemma_split_sep_whole(s: Seq<char>, sep: char)
    requires
        free_of(s, sep),
    ensures
        split_sep(s, sep) == seq![s],
    decreases s.len(),
{
    if s.len() == 0 {
        assert(split_sep(s, sep) =~~= seq![s]);
    } else {
        assert(s[0] != sep);
        lemma_split_sep_whole(s.drop_first(), sep);
        lemma_split_sep_len(s.drop_first(), sep);
        assert(seq![s[0]] + split_sep(s.drop_first(), sep)[0] =~= s);
        assert(split_sep(s, sep) =~~= seq![s]);
    }
}

/// A NUL-free sequence splits into itself alone.
pub proof fn lemma_split_nul_whole(s: Seq<char>)
    requires
        no_nul(s),
    ensures
        split_nul(s) == seq![s],
{
    lemma_split_sep_whole(s, '\0');
}

/// Prepending a separator-free part and a separator prepends one part
/// to the split.
pub proof fn lemma_split_sep_join(a: Seq<char>, s: Seq<char>, sep: char)
    requires
        free_of(a, sep),
    ensures
        split_sep(a + seq![sep] + s, sep) == seq![a] + split_sep(s, sep),
    decreases a.len(),
{
    lemma_split_sep_len(s, sep);
    if a.len() == 0 {
        let t = a + seq![sep] + s;
        assert(t[0] == sep);
        assert(t.drop_first() =~= s);
        assert(a =~= Seq::<char>::empty());
        assert(split_sep(t, sep) =~~= seq![a] + split_sep(s, sep));
    } else {
        let t = a + seq![sep] + s;
        assert(t[0] == a[0]);
        assert(a[0] != sep);
        assert(t.drop_first() =~= a.drop_first() + seq![sep] + s);
        lemma_split_sep_join(a.drop_first(), s, sep);
        lemma_split_sep_len(a.drop_first() + seq![sep] + s, sep);
        assert(split_sep(t.drop_first(), sep)[0] == a.drop_first());
        assert(seq![t[0]] + a.drop_first() =~= a);
        assert(split_sep(t.drop_first(), sep).drop_first() =~~= split_sep(s, sep));
        assert(split_sep(t, sep) =~~= seq![a] + split_sep(s, sep));
    }
}

/// Prepending a NUL-free part and a separator prepends one part to the split.
pub proof fn lemma_split_nul_join(a: Seq<char>, s: Seq<char>)
    requires
        no_nul(a),
    ensures
        split_nul(a + seq!['\0'] + s) == seq![a] + split_nul(s),
{
    lemma_split_sep_join(a, s, '\0');
}

/// Splits a string on NUL characters into its parts.
pub fn split_on_nul(s: &str) -> (parts: Vec<String>)
    ensures
        parts@.len() == split_nul(s@).len(),
        forall|k: int| 0 <= k < parts@.len() ==> #[trigger] parts@[k]@ == split_nul(s@)[k],
{
    split_on_char(s, '\0')
}

/// Splits a string on a separator character into its parts.
pub fn split_on_char(s: &str, sep: char) -> (parts: Vec<String>)
    ensures
        parts@.len() == split_sep(s@, sep).len(),
        forall|k: int| 0 <= k < parts@.len() ==> #[trigger] parts@[k]@ == split_sep(s@, sep)[k],
{
    let n = s.unicode_len();
    let mut parts: Vec<String> = Vec::new();
    let mut cur = String::new();
    let mut i: usize = 0;
    proof {
        lemma_split_sep_len(s@, sep);
        assert(s@.skip(0) =~= s@);
    }
    while i < n
        invariant
            i <= n,
            n == s@.len(),
            split_sep(s@.skip(i as int), sep).len() >= 1,
            split_sep(s@, sep) =~~= parts@.map_values(|p: String| p@) + seq![cur@ + split_sep(
                s@.skip(i as int),
                sep,
            )[0]] + split_sep(s@.skip(i as int), sep).drop_first(),
        decreases n - i,
    {
        let c = s.get_char(i);
        let ghost rest = s@.skip(i as int + 1);
        proof {
            assert(s@.skip(i as int) =~= seq![c] + rest);
            assert((seq![c] + rest).drop_first() =~= rest);
            lemma_split_sep_len(rest, sep);
        }
        if c == sep {
            let done = cur;
            cur = String::new();
            let ghost old_views = parts@.map_values(|p: String| p@);
            parts.push(done);
            proof {
                assert(split_sep(s@.skip(i as int), sep) =~~= seq![Seq::<char>::empty()]
                    + split_sep(rest, sep));
                assert(parts@.map_values(|p: String| p@) =~~= old_views + seq![done@]);
                assert(done@ + split_sep(s@.skip(i as int), sep)[0] =~= done@);
                assert(split_sep(s@, sep) =~~= parts@.map_values(|p: String| p@) + seq![cur@
                    + split_sep(rest, sep)[0]] + split_sep(rest, sep).drop_first());
            }
        } else {
            let ghost old_cur = cur@;
            string_push(&mut cur, c);
            proof {
                let r = split_sep(rest, sep);
                assert(split_sep(s@.skip(i as int), sep)[0] =~= seq![c] + r[0]);
                assert(split_sep(s@.skip(i as int), sep).drop_first() =~~= r.drop_first());
                assert(cur@ =~= old_cur + seq![c]);
                assert(cur@ + r[0] =~= old_cur + (seq![c] + r[0]));
                assert(split_sep(s@, sep) =~~= parts@.map_values(|p: String| p@) + seq![cur@
                    + r[0]] + r.drop_first());
            }
        }
        i = i + 1;
    }
    proof {
        assert(s@.skip(n as int) =~= Seq::<char>::empty());
        assert(split_sep(s@.skip(n as int), sep) =~~= seq![Seq::<char>::empty()]);
    }
    let ghost old_views = parts@.map_values(|p: String| p@);
    let ghost last = cur@;
    parts.push(cur);
    proof {
        assert(parts@.map_values(|p: String| p@) =~~= old_views + seq![last]);
        assert(last + Seq::<char>::empty() =~= last);
        assert(split_sep(s@, sep) =~~= parts@.map_values(|p: String| p@));
        assert(forall|k: int| 0 <= k < parts@.len() ==> #[trigger] parts@[k]@ == parts@.map_values(
            |p: String| p@,
        )[k]);
    }
    parts
}

/// Character-for-character string equality. Once the lengths agree, the
/// scan always walks the whole string rather than stopping at the first
/// mismatch, so signature checks do not leak where two strings diverge.
pub fn str_eq(a: &str, b: &str) -> (r: bool)
    ensures
        r == (a@ == b@),
{
    let na = a.unicode_len();
    let nb = b.unicode_len();
    if na != nb {
        return false;
    }
    let mut same = true;
    let mut i: usize = 0;
    while i < na
        invariant
            i <= na,
            na == a@.len(),
            na == b@.len(),
            same == (forall|k: int| 0 <= k < i ==> #[trigger] a@[k] == b@[k]),
        decreases na - i,
    {
        let ghost old_same = same;
        let eq_here = a.get_char(i) == b.get_char(i);
        same = same && eq_here;
        proof {
            if same {
                assert(forall|k: int| 0 <= k < i + 1 ==> #[trigger] a@[k] == b@[k]);
            } else {
                if old_same {
                    assert(a@[i as int] != b@[i as int]);
                } else {
                    let w = choose|k: int| 0 <= k < i && #[trigger] a@[k] != b@[k];
                    assert(a@[w] != b@[w]);
                }
                assert(!(forall|k: int| 0 <= k < i + 1 ==> #[trigger] a@[k] == b@[k]));
            }
        }
        i = i + 1;
    }
    proof {
        if same {
            assert(a@ =~= b@);
        }
    }
    same
}

} // verus!
