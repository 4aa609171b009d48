//! The address formats of storage providers: `gitup://<token>:github/<owner>/<repo>`,
//! and a provider's description `<name> (<address>)` as parts record it.
//!
//! An address is found anywhere in a text, at the first place where it can be
//! read: `gitup://`, a token running to the first `:`, `:github/`, an owner
//! running to the next `/`, then a repository running to the end of the line.
//! Token, owner and repository are never empty.

use vstd::prelude::*;
use vstd::string::*;
use crate::text::{chars_range_to_string, matches_at, occurs_at, to_chars};

verus! {

/// The first position at or after `from` that holds `c`, or the length of `s`.
pub open spec fn next_char(s: Seq<char>, c: char, from: int) -> int
    decreases s.len() - from,
{
    if from < 0 || from >= s.len() {
        s.len() as int
    } else if s[from] == c {
        from
    } else {
        next_char(s, c, from + 1)
    }
}

/// The last position before `before` that holds `c`, or -1.
pub open spec fn prev_char(s: Seq<char>, c: char, before: int) -> int
    decreases before,
{
    if before <= 0 || before > s.len() {
        -1
    } else if s[before - 1] == c {
        before - 1
    } else {
        prev_char(s, c, before - 1)
    }
}

/// The token, owner and repository of a GitHub address read at position `i`.
pub open spec fn github_parts_at(s: Seq<char>, i: int) -> Option<(Seq<char>, Seq<char>, Seq<char>)> {
    if occurs_at(s, "gitup://"@, i) {
        let c = next_char(s, ':', i + 8);
        if c > i + 8 && occurs_at(s, ":github/"@, c) {
            let sl = next_char(s, '/', c + 8);
            if c + 8 < sl < s.len() {
                let e = next_char(s, '\n', sl + 1);
                if e > sl + 1 {
                    Some((s.subrange(i + 8, c), s.subrange(c + 8, sl), s.subrange(sl + 1, e)))
                } else {
                    None
                }
            } else {
                None
            }
        } else {
            None
        }
    } else {
        None
    }
}

/// The first GitHub address that can be read in `s` from position `i` on.
pub open spec fn github_parts_from(s: Seq<char>, i: int) -> Option<(Seq<char>, Seq<char>, Seq<char>)>
    decreases s.len() - i,
{
    if i < 0 || i >= s.len() {
        None
    } else {
        match github_parts_at(s, i) {
            Some(r) => Some(r),
            None => github_parts_from(s, i + 1),
        }
    }
}

/// The token, owner and repository of the first GitHub address in `s`.
pub open spec fn spec_parse_github_url(s: Seq<char>) -> Option<(Seq<char>, Seq<char>, Seq<char>)> {
    github_parts_from(s, 0)
}

/// The address in the last parentheses of a line: after the last `(` that has
/// text before it and is followed by text and a `)`, up to the last `)`.
pub open spec fn address_in_line(l: Seq<char>) -> Option<Seq<char>> {
    let q = prev_char(l, ')', l.len() as int);
    let p = prev_char(l, '(', q - 1);
    if q >= 0 && p >= 1 {
        Some(l.subrange(p + 1, q))
    } else {
        None
    }
}

/// The address of the first line, from position `start` on, that names one.
pub open spec fn address_from(t: Seq<char>, start: int) -> Option<Seq<char>>
    decreases t.len() - start,
{
    if start < 0 || start > t.len() {
        None
    } else {
        let e = next_char(t, '\n', start);
        match address_in_line(t.subrange(start, e)) {
            Some(a) => Some(a),
            None => if e < t.len() {
                proof {
                    lemma_next_char_bounds(t, '\n', start);
                }
                address_from(t, e + 1)
            } else {
                None
            },
        }
    }
}

/// The address a provider's description names.
pub open spec fn spec_described_address(t: Seq<char>) -> Option<Seq<char>> {
    address_from(t, 0)
}

/// Nothing before the position found holds `c`; the position found does.
pub proof fn lemma_next_char_bounds(s: Seq<char>, c: char, from: int)
    requires
        0 <= from <= s.len(),
    ensures
        from <= next_char(s, c, from) <= s.len(),
        forall|j: int| from <= j < next_char(s, c, from) ==> s[j] != c,
        next_char(s, c, from) < s.len() ==> s[next_char(s, c, from)] == c,
    decreases s.len() - from,
{
    if from < s.len() && s[from] != c {
        lemma_next_char_bounds(s, c, from + 1);
    }
}

/// Nothing after the position found holds `c`; the position found does.
pub proof fn lemma_prev_char_bounds(s: Seq<char>, c: char, before: int)
    requires
        0 <= before <= s.len(),
    ensures
        -1 <= prev_char(s, c, before) < before,
        forall|j: int| prev_char(s, c, before) < j < before ==> s[j] != c,
        prev_char(s, c, before) >= 0 ==> s[prev_char(s, c, before)] == c,
    decreases before,
{
    if before > 0 && s[before - 1] != c {
        lemma_prev_char_bounds(s, c, before - 1);
    }
}

/// The first position at or after `from` that holds `c`.
fn find_next(s: &Vec<char>, c: char, from: usize) -> (res: usize)
    requires
        from <= s@.len(),
    ensures
        res == next_char(s@, c, from as int),
        from <= res <= s@.len(),
{
    let mut i = from;
    while i < s.len()
        invariant
            from <= i <= s@.len(),
            next_char(s@, c, from as int) == next_char(s@, c, i as int),
        decreases s@.len() - i,
    {
        if s[i] == c {
            return i;
        }
        i = i + 1;
    }
    i
}

/// The last position before `before` that holds `c`.
fn find_prev(s: &Vec<char>, c: char, before: usize) -> (res: Option<usize>)
    requires
        before <= s@.len(),
    ensures
        res matches Some(k) ==> k == prev_char(s@, c, before as int),
        res is None ==> prev_char(s@, c, before as int) == -1,
{
    let mut i = before;
    while i > 0
        invariant
            i <= before <= s@.len(),
            prev_char(s@, c, before as int) == prev_char(s@, c, i as int),
        decreases i,
    {
        if s[i - 1] == c {
            return Some(i - 1);
        }
        i = i - 1;
    }
    None
}

/// The GitHub address read at position `i`, if one can be read there.
fn parts_at(s: &Vec<char>, i: usize) -> (res: Option<(String, String, String)>)
    requires
        i <= s@.len(),
    ensures
        match github_parts_at(s@, i as int) {
            Some(r) => res matches Some(x) && x.0@ == r.0 && x.1@ == r.1 && x.2@ == r.2,
            None => res is None,
        },
{
    proof {
        reveal_strlit("gitup://");
        reveal_strlit(":github/");
    }
    let scheme = to_chars("gitup://");
    let marker = to_chars(":github/");
    assert(scheme@.len() == 8 && marker@.len() == 8);
    if !matches_at(s, &scheme, i) {
        return None;
    }
    let n = s.len();
    assert(i + 8 <= n);
    let c = find_next(s, ':', i + 8);
    if c <= i + 8 || !matches_at(s, &marker, c) {
        return None;
    }
    assert(c + 8 <= n);
    let sl = find_next(s, '/', c + 8);
    if !(c + 8 < sl && sl < s.len()) {
        return None;
    }
    let e = find_next(s, '\n', sl + 1);
    if e <= sl + 1 {
        return None;
    }
    Some((chars_range_to_string(s, i + 8, c), chars_range_to_string(s, c + 8, sl), chars_range_to_string(s, sl + 1, e)))
}

/// Reads the first GitHub address in a text: its token, owner and repository.
pub fn parse_github_url(url: &str) -> (res: Option<(String, String, String)>)
    ensures
        match spec_parse_github_url(url@) {
            Some(r) => res matches Some(x) && x.0@ == r.0 && x.1@ == r.1 && x.2@ == r.2,
            None => res is None,
        },
{
    let s = to_chars(url);
    let mut i: usize = 0;
    while i < s.len()
        invariant
            s@ == url@,
            i <= s@.len(),
            spec_parse_github_url(url@) == github_parts_from(s@, i as int),
        decreases s@.len() - i,
    {
        match parts_at(&s, i) {
            Some(r) => return Some(r),
            None => {},
        }
        i = i + 1;
    }
    None
}

/// The address in the last parentheses of the line `s[start..end]`.
fn address_in(s: &Vec<char>, start: usize, end: usize) -> (res: Option<String>)
    requires
        start <= end <= s@.len(),
    ensures
        res is Some <==> address_in_line(s@.subrange(start as int, end as int)) is Some,
        res matches Some(a) ==> address_in_line(s@.subrange(start as int, end as int)) == Some(a@),
{
    let line = vec_range(s, start, end);
    proof {
        lemma_prev_char_bounds(line@, ')', line@.len() as int);
    }
    let q = match find_prev(&line, ')', line.len()) {
        Some(q) => q,
        None => return None,
    };
    if q == 0 {
        proof {
            assert(prev_char(line@, '(', -1) == -1);
        }
        return None;
    }
    let p = match find_prev(&line, '(', q - 1) {
        Some(p) => p,
        None => return None,
    };
    if p < 1 {
        return None;
    }
    proof {
        lemma_prev_char_bounds(line@, '(', q - 1);
    }
    Some(chars_range_to_string(&line, p + 1, q))
}

/// The characters from `start` up to `end`.
fn vec_range(s: &Vec<char>, start: usize, end: usize) -> (res: Vec<char>)
    requires
        start <= end <= s@.len(),
    ensures
        res@ == s@.subrange(start as int, end as int),
{
    let mut out: Vec<char> = Vec::new();
    let mut i = start;
    while i < end
        invariant
            start <= i <= end <= s@.len(),
            out@ =~= s@.subrange(start as int, i as int),
        decreases end - i,
    {
        out.push(s[i]);
        i = i + 1;
    }
    out
}

/// Reads the address a provider's description names, as in
/// `GitHub (gitup://****:github/owner/repo)`.
pub fn described_address(text: &str) -> (res: Option<String>)
    ensures
        res is Some <==> spec_described_address(text@) is Some,
        res matches Some(a) ==> spec_described_address(text@) == Some(a@),
{
    let s = to_chars(text);
    let mut start: usize = 0;
    loop
        invariant
            s@ == text@,
            start <= s@.len(),
            spec_described_address(text@) == address_from(s@, start as int),
        decreases s@.len() - start,
    {
        let e = find_next(&s, '\n', start);
        match address_in(&s, start, e) {
            Some(a) => return Some(a),
            None => {},
        }
        if e < s.len() {
            start = e + 1;
        } else {
            return None;
        }
    }
}

/// No position of `t` holds `c`.
pub open spec fn free_of(t: Seq<char>, c: char) -> bool {
    forall|j: int| 0 <= j < t.len() ==> t[j] != c
}

/// Parts as a GitHub address has them: a token without `:`, an owner without
/// `/` and a repository without a line break, none of them empty.
pub open spec fn well_formed_parts(token: Seq<char>, owner: Seq<char>, repo: Seq<char>) -> bool {
    &&& token.len() > 0 && free_of(token, ':')
    &&& owner.len() > 0 && free_of(owner, '/')
    &&& repo.len() > 0 && free_of(repo, '\n')
}

/// The address of a GitHub repository with the given token.
pub open spec fn github_url(token: Seq<char>, owner: Seq<char>, repo: Seq<char>) -> Seq<char> {
    "gitup://"@ + token + ":github/"@ + owner + "/"@ + repo
}

proof fn lemma_next_char_is(s: Seq<char>, c: char, from: int, k: int)
    requires
        0 <= from <= k <= s.len(),
        forall|j: int| from <= j < k ==> s[j] != c,
        k < s.len() ==> s[k] == c,
    ensures
        next_char(s, c, from) == k,
    decreases k - from,
{
    if from < k {
        lemma_next_char_is(s, c, from + 1, k);
    }
}

proof fn lemma_parts_at_shape(s: Seq<char>, i: int)
    requires
        github_parts_at(s, i) is Some,
    ensures
        ({
            let r = github_parts_at(s, i).unwrap();
            well_formed_parts(r.0, r.1, r.2)
        }),
{
    reveal_strlit("gitup://");
    reveal_strlit(":github/");
    lemma_next_char_bounds(s, ':', i + 8);
    let c = next_char(s, ':', i + 8);
    lemma_next_char_bounds(s, '/', c + 8);
    let sl = next_char(s, '/', c + 8);
    lemma_next_char_bounds(s, '\n', sl + 1);
}

proof fn lemma_parts_from_shape(s: Seq<char>, i: int)
    requires
        github_parts_from(s, i) is Some,
    ensures
        ({
            let r = github_parts_from(s, i).unwrap();
            well_formed_parts(r.0, r.1, r.2)
        }),
    decreases s.len() - i,
{
    if github_parts_at(s, i) is Some {
        lemma_parts_at_shape(s, i);
    } else {
        lemma_parts_from_shape(s, i + 1);
    }
}

/// Law: the parts read from an address are never empty; the token holds no
/// `:`, the owner no `/` and the repository no line break.
pub proof fn law_parsed_parts_are_well_formed(s: Seq<char>)
    requires
        spec_parse_github_url(s) is Some,
    ensures
        ({
            let r = spec_parse_github_url(s).unwrap();
            well_formed_parts(r.0, r.1, r.2)
        }),
{
    lemma_parts_from_shape(s, 0);
}

/// Law: the address built from well-formed parts reads back as those parts.
/// The secret address of a provider, whose token is `****`, is one of them.
pub proof fn law_github_url_reads_back(token: Seq<char>, owner: Seq<char>, repo: Seq<char>)
    requires
        well_formed_parts(token, owner, repo),
    ensures
        spec_parse_github_url(github_url(token, owner, repo)) == Some((token, owner, repo)),
{
    reveal_strlit("gitup://");
    reveal_strlit(":github/");
    reveal_strlit("/");
    let u = github_url(token, owner, repo);
    let t = token.len() as int;
    let o = owner.len() as int;
    let c = 8 + t;
    let sl = c + 8 + o;
    assert(u.subrange(0, 8) =~= "gitup://"@);
    assert forall|j: int| 8 <= j < c implies u[j] != ':' by {
        assert(u[j] == token[j - 8]);
    }
    assert(u[c] == ':');
    lemma_next_char_is(u, ':', 8, c);
    assert(u.subrange(c, c + 8) =~= ":github/"@);
    assert forall|j: int| c + 8 <= j < sl implies u[j] != '/' by {
        assert(u[j] == owner[j - c - 8]);
    }
    assert(u[sl] == '/');
    lemma_next_char_is(u, '/', c + 8, sl);
    assert forall|j: int| sl + 1 <= j < u.len() implies u[j] != '\n' by {
        assert(u[j] == repo[j - sl - 1]);
    }
    lemma_next_char_is(u, '\n', sl + 1, u.len() as int);
    assert(u.subrange(8, c) =~= token);
    assert(u.subrange(c + 8, sl) =~= owner);
    assert(u.subrange(sl + 1, u.len() as int) =~= repo);
    assert(github_parts_at(u, 0) == Some((token, owner, repo)));
}

proof fn lemma_prev_char_is(s: Seq<char>, c: char, before: int, k: int)
    requires
        0 <= k < before <= s.len(),
        s[k] == c,
        forall|j: int| k < j < before ==> s[j] != c,
    ensures
        prev_char(s, c, before) == k,
    decreases before - k,
{
    if before - 1 > k {
        lemma_prev_char_is(s, c, before - 1, k);
    }
}

/// Law: a provider's description, its name and its address in parentheses,
/// reads back as that address when the address holds no `(` and no line break.
pub proof fn law_description_names_the_address(name: Seq<char>, address: Seq<char>)
    requires
        name.len() > 0,
        free_of(name, '\n'),
        free_of(address, '('),
        free_of(address, '\n'),
        address.len() > 0,
    ensures
        spec_described_address(name + " ("@ + address + ")"@) == Some(address),
{
    reveal_strlit(" (");
    reveal_strlit(")");
    let t = name + " ("@ + address + ")"@;
    let n = name.len() as int;
    let len = t.len() as int;
    assert forall|j: int| 0 <= j < len implies t[j] != '\n' by {
        if j < n {
            assert(t[j] == name[j]);
        } else if n + 2 <= j < len - 1 {
            assert(t[j] == address[j - n - 2]);
        }
    }
    lemma_next_char_is(t, '\n', 0, len);
    assert(t.subrange(0, len) =~= t);
    assert(t[len - 1] == ')');
    lemma_prev_char_is(t, ')', len, len - 1);
    assert forall|j: int| n + 1 < j < len - 2 implies t[j] != '(' by {
        assert(t[j] == address[j - n - 2]);
    }
    assert(t[n + 1] == '(');
    lemma_prev_char_is(t, '(', len - 2, n + 1);
    assert(t.subrange(n + 2, len - 1) =~= address);
}

} // verus!
