//! Repeated replacement in text.

use vstd::prelude::*;
use vstd::utf8::*;
use crate::text::{contains_str, occurs_at, replace_all, spec_contains, spec_replace};

verus! {

/// `s` after `k` rounds of replacing `needle` by `rep`.
pub open spec fn replace_rounds(s: Seq<char>, needle: Seq<char>, rep: Seq<char>, k: nat) -> Seq<char>
    decreases k,
{
    if k == 0 {
        s
    } else {
        spec_replace(replace_rounds(s, needle, rep, (k - 1) as nat), needle, rep)
    }
}

/// How many rounds of replacement it takes until `needle` no longer occurs.
pub open spec fn rounds_needed(s: Seq<char>, needle: Seq<char>, rep: Seq<char>) -> nat {
    choose|k: nat|
        !spec_contains(replace_rounds(s, needle, rep, k), needle) && forall|j: nat|
            j < k ==> spec_contains(#[trigger] replace_rounds(s, needle, rep, j), needle)
}

/// `s` with `needle` replaced by `rep` round after round, until it no longer occurs.
pub open spec fn spec_replace_recursive(s: Seq<char>, needle: Seq<char>, rep: Seq<char>) -> Seq<char> {
    replace_rounds(s, needle, rep, rounds_needed(s, needle, rep))
}

proof fn lemma_rounds_needed(s: Seq<char>, needle: Seq<char>, rep: Seq<char>, k: nat)
    requires
        !spec_contains(replace_rounds(s, needle, rep, k), needle),
        forall|j: nat| j < k ==> spec_contains(#[trigger] replace_rounds(s, needle, rep, j), needle),
    ensures
        rounds_needed(s, needle, rep) == k,
{
    let c = rounds_needed(s, needle, rep);
    assert(!spec_contains(replace_rounds(s, needle, rep, c), needle) && forall|j: nat|
        j < c ==> spec_contains(#[trigger] replace_rounds(s, needle, rep, j), needle));
    if c < k {
        assert(spec_contains(replace_rounds(s, needle, rep, c), needle));
    }
    if k < c {
        assert(spec_contains(replace_rounds(s, needle, rep, k), needle));
    }
}

/// The number of bytes of text in UTF-8.
pub open spec fn byte_len(s: Seq<char>) -> nat {
    encode_utf8(s).len()
}

/// Replacement that stops: `rep` is shorter than `needle` in characters or in
/// bytes, or `needle` is a single character that `rep` does not hold.
pub open spec fn replacement_terminates(needle: Seq<char>, rep: Seq<char>) -> bool {
    &&& needle.len() > 0
    &&& (rep.len() < needle.len() || byte_len(rep) < byte_len(needle) || (needle.len() == 1
        && !rep.contains(needle[0])))
}

/// The UTF-8 encoding of joined texts is the joined encodings.
proof fn lemma_encode_concat(a: Seq<char>, b: Seq<char>)
    ensures
        encode_utf8(a + b) == encode_utf8(a) + encode_utf8(b),
    decreases a.len(),
{
    if a.len() == 0 {
        assert(a + b =~= b);
        assert(encode_utf8(a) + encode_utf8(b) =~= encode_utf8(b));
    } else {
        assert((a + b).drop_first() =~= a.drop_first() + b);
        assert((a + b)[0] == a[0]);
        lemma_encode_concat(a.drop_first(), b);
        assert(encode_utf8(a + b) =~= encode_utf8(a) + encode_utf8(b));
    }
}

proof fn lemma_replace_fewer_bytes(s: Seq<char>, needle: Seq<char>, rep: Seq<char>)
    requires
        needle.len() > 0,
        byte_len(rep) < byte_len(needle),
    ensures
        byte_len(spec_replace(s, needle, rep)) <= byte_len(s),
        spec_contains(s, needle) ==> byte_len(spec_replace(s, needle, rep)) < byte_len(s),
    decreases s.len(),
{
    if s.len() < needle.len() {
        if spec_contains(s, needle) {
            let i = choose|i: int| occurs_at(s, needle, i);
        }
    } else if s.take(needle.len() as int) == needle {
        let rest = s.skip(needle.len() as int);
        lemma_replace_fewer_bytes(rest, needle, rep);
        assert(s =~= needle + rest);
        lemma_encode_concat(needle, rest);
        lemma_encode_concat(rep, spec_replace(rest, needle, rep));
    } else {
        let rest = s.skip(1);
        lemma_replace_fewer_bytes(rest, needle, rep);
        assert(s =~= seq![s[0]] + rest);
        lemma_encode_concat(seq![s[0]], rest);
        lemma_encode_concat(seq![s[0]], spec_replace(rest, needle, rep));
        if spec_contains(s, needle) {
            let i = choose|i: int| occurs_at(s, needle, i);
            if i == 0 {
                assert(s.take(needle.len() as int) =~= s.subrange(0, needle.len() as int));
            } else {
                assert(rest.subrange(i - 1, i - 1 + needle.len()) =~= s.subrange(i, i + needle.len()));
                assert(occurs_at(rest, needle, i - 1));
            }
        }
    }
}

proof fn lemma_replace_not_longer(s: Seq<char>, needle: Seq<char>, rep: Seq<char>)
    requires
        needle.len() > 0,
        rep.len() < needle.len(),
    ensures
        spec_replace(s, needle, rep).len() <= s.len(),
        spec_contains(s, needle) ==> spec_replace(s, needle, rep).len() < s.len(),
    decreases s.len(),
{
    if s.len() < needle.len() {
        if spec_contains(s, needle) {
            let i = choose|i: int| occurs_at(s, needle, i);
        }
    } else if s.take(needle.len() as int) == needle {
        lemma_replace_not_longer(s.skip(needle.len() as int), needle, rep);
    } else {
        lemma_replace_not_longer(s.skip(1), needle, rep);
        if spec_contains(s, needle) {
            let i = choose|i: int| occurs_at(s, needle, i);
            if i == 0 {
                assert(s.take(needle.len() as int) =~= s.subrange(0, needle.len() as int));
            } else {
                assert(s.skip(1).subrange(i - 1, i - 1 + needle.len()) =~= s.subrange(
                    i,
                    i + needle.len(),
                ));
                assert(occurs_at(s.skip(1), needle, i - 1));
            }
        }
    }
}

proof fn lemma_replace_removes_char(s: Seq<char>, c: char, rep: Seq<char>)
    requires
        !rep.contains(c),
    ensures
        !spec_replace(s, seq![c], rep).contains(c),
    decreases s.len(),
{
    let needle = seq![c];
    if s.len() < 1 {
    } else if s.take(1) == needle {
        lemma_replace_removes_char(s.skip(1), c, rep);
        let r = spec_replace(s, needle, rep);
        let rest = spec_replace(s.skip(1), needle, rep);
        assert(r == rep + rest);
        assert forall|i: int| 0 <= i < r.len() implies r[i] != c by {
            if i < rep.len() {
                assert(r[i] == rep[i]);
            } else {
                assert(r[i] == rest[i - rep.len()]);
            }
        }
    } else {
        lemma_replace_removes_char(s.skip(1), c, rep);
        let r = spec_replace(s, needle, rep);
        let rest = spec_replace(s.skip(1), needle, rep);
        assert(r == seq![s[0]] + rest);
        assert(s[0] != c) by {
            assert(s.take(1) =~= seq![s[0]]);
        }
        assert forall|i: int| 0 <= i < r.len() implies r[i] != c by {
            if i > 0 {
                assert(r[i] == rest[i - 1]);
            }
        }
    }
}

proof fn lemma_single_char_contains(s: Seq<char>, c: char)
    ensures
        spec_contains(s, seq![c]) <==> s.contains(c),
{
    if spec_contains(s, seq![c]) {
        let i = choose|i: int| occurs_at(s, seq![c], i);
        assert(s.subrange(i, i + 1)[0] == s[i]);
    }
    if s.contains(c) {
        let i = choose|i: int| 0 <= i < s.len() && s[i] == c;
        assert(s.subrange(i, i + 1) =~= seq![c]);
        assert(occurs_at(s, seq![c], i));
    }
}

/// Replace a string recursively: replaces `needle` by `replace` until `needle`
/// no longer occurs. The result is the first round of replacement in which
/// `needle` does not occur.
pub fn replace_recursive(haystack: String, needle: &str, replace: &str) -> (res: String)
    requires
        replacement_terminates(needle@, replace@),
    ensures
        exists|k: nat|
            res@ == replace_rounds(haystack@, needle@, replace@, k) && (forall|j: nat|
                j < k ==> spec_contains(#[trigger] replace_rounds(haystack@, needle@, replace@, j), needle@)),
        !spec_contains(res@, needle@),
        res@ == spec_replace_recursive(haystack@, needle@, replace@),
{
    let mut result = haystack;
    let ghost mut k: nat = 0;
    let ghost shrinking = replace@.len() < needle@.len();
    let ghost fewer_bytes = !shrinking && byte_len(replace@) < byte_len(needle@);
    while contains_str(result.as_str(), needle)
        invariant
            replacement_terminates(needle@, replace@),
            shrinking == (replace@.len() < needle@.len()),
            fewer_bytes == (!shrinking && byte_len(replace@) < byte_len(needle@)),
            result@ == replace_rounds(haystack@, needle@, replace@, k),
            forall|j: nat|
                j < k ==> spec_contains(#[trigger] replace_rounds(haystack@, needle@, replace@, j), needle@),
            !shrinking && !fewer_bytes && k > 0 ==> !spec_contains(result@, needle@),
        decreases (if shrinking {
            result@.len() as int
        } else if fewer_bytes {
            byte_len(result@) as int
        } else if spec_contains(result@, needle@) {
            1int
        } else {
            0int
        }),
    {
        let ghost before = result@;
        proof {
            if shrinking {
                lemma_replace_not_longer(before, needle@, replace@);
            } else if fewer_bytes {
                lemma_replace_fewer_bytes(before, needle@, replace@);
            } else {
                assert(needle@ =~= seq![needle@[0]]);
                lemma_replace_removes_char(before, needle@[0], replace@);
                lemma_single_char_contains(spec_replace(before, needle@, replace@), needle@[0]);
            }
        }
        result = replace_all(result.as_str(), needle, replace);
        proof {
            assert forall|j: nat| j < k + 1 implies spec_contains(
                #[trigger] replace_rounds(haystack@, needle@, replace@, j),
                needle@,
            ) by {
                if j < k {
                } else {
                    assert(replace_rounds(haystack@, needle@, replace@, j) == before);
                }
            }
            k = k + 1;
        }
    }
    proof {
        lemma_rounds_needed(haystack@, needle@, replace@, k);
    }
    result
}

} // verus!
