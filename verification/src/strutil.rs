//! Character-level string primitives the command interpreter is built on:
//! word characters, prefix tests, and equality, each tied to the view of the
//! string as a sequence of characters.

use vstd::prelude::*;

verus! {

/// A word character, the interpreter's notion of what a single-token
/// target may consist of: an ASCII letter, a digit, or an underscore.
pub open spec fn is_word_char(c: char) -> bool {
    ('a' as u32 <= c as u32 && c as u32 <= 'z' as u32)
    || ('A' as u32 <= c as u32 && c as u32 <= 'Z' as u32)
    || ('0' as u32 <= c as u32 && c as u32 <= '9' as u32)
    || c == '_'
}

/// A word: one or more word characters and nothing else.
pub open spec fn is_word(s: Seq<char>) -> bool {
    s.len() > 0 && forall|i: int| 0 <= i < s.len() ==> is_word_char(#[trigger] s[i])
}

/// `p` is a prefix of `s`.
pub open spec fn has_prefix(s: Seq<char>, p: Seq<char>) -> bool {
    p.len() <= s.len() && s.subrange(0, p.len() as int) == p
}

/// Length of the longest run of word characters at the front of `s`.
pub open spec fn word_prefix_len(s: Seq<char>) -> int
    decreases s.len(),
{
    if s.len() == 0 || !is_word_char(s[0]) {
        0
    } else {
        1 + word_prefix_len(s.skip(1))
    }
}

pub proof fn lemma_word_prefix_len(s: Seq<char>)
    ensures
        0 <= word_prefix_len(s) <= s.len(),
        forall|i: int| 0 <= i < word_prefix_len(s) ==> is_word_char(#[trigger] s[i]),
        word_prefix_len(s) < s.len() ==> !is_word_char(s[word_prefix_len(s)]),
    decreases s.len(),
{
    if s.len() == 0 || !is_word_char(s[0]) {
    } else {
        lemma_word_prefix_len(s.skip(1));
        assert forall|i: int| 0 <= i < word_prefix_len(s) implies is_word_char(#[trigger] s[i]) by {
            if i > 0 {
                assert(s.skip(1)[i - 1] == s[i]);
            }
        }
        if word_prefix_len(s) < s.len() {
            assert(s.skip(1)[word_prefix_len(s) - 1] == s[word_prefix_len(s)]);
        }
    }
}

/// The word-prefix length is pinned by any index `k` up to which all
/// characters are word characters and at which (if inside) one is not.
pub proof fn lemma_word_prefix_len_exact(s: Seq<char>, k: int)
    requires
        0 <= k <= s.len(),
        forall|j: int| 0 <= j < k ==> is_word_char(#[trigger] s[j]),
        k < s.len() ==> !is_word_char(s[k]),
    ensures
        word_prefix_len(s) == k,
    decreases s.len(),
{
    if k == 0 {
    } else {
        assert(is_word_char(s[0]));
        assert forall|j: int| 0 <= j < k - 1 implies is_word_char(#[trigger] s.skip(1)[j]) by {
            assert(s.skip(1)[j] == s[j + 1]);
        }
        if k - 1 < s.skip(1).len() {
            assert(s.skip(1)[k - 1] == s[k]);
        }
        lemma_word_prefix_len_exact(s.skip(1), k - 1);
    }
}

/// Whether `c` is a word character.
pub fn word_char(c: char) -> (r: bool)
    ensures
        r == is_word_char(c),
{
    ('a' as u32 <= c as u32 && c as u32 <= 'z' as u32)
    || ('A' as u32 <= c as u32 && c as u32 <= 'Z' as u32)
    || ('0' as u32 <= c as u32 && c as u32 <= '9' as u32)
    || c == '_'
}

/// Character-wise equality of two string slices.
pub fn str_eq(a: &str, b: &str) -> (r: bool)
    ensures
        r == (a@ == b@),
{
    let an = a.unicode_len();
    let bn = b.unicode_len();
    if an != bn {
        return false;
    }
    let mut i: usize = 0;
    while i < an
        invariant
            an == a@.len(),
            bn == b@.len(),
            an == bn,
            0 <= i <= an,
            forall|j: int| 0 <= j < i ==> a@[j] == b@[j],
        decreases an - i,
    {
        let ca = a.get_char(i);
        let cb = b.get_char(i);
        if ca != cb {
            return false;
        }
        i += 1;
    }
    proof {
        assert(a@ =~= b@);
    }
    true
}

/// Whether `p` is a prefix of `s`, character by character.
pub fn str_has_prefix(s: &str, p: &str) -> (r: bool)
    ensures
        r == has_prefix(s@, p@),
{
    let sn = s.unicode_len();
    let pn = p.unicode_len();
    if pn > sn {
        return false;
    }
    let mut i: usize = 0;
    while i < pn
        invariant
            sn == s@.len(),
            pn == p@.len(),
            pn <= sn,
            0 <= i <= pn,
            forall|j: int| 0 <= j < i ==> s@[j] == p@[j],
        decreases pn - i,
    {
        let cs = s.get_char(i);
        let cp = p.get_char(i);
        if cs != cp {
            proof {
                assert(s@.subrange(0, p@.len() as int)[i as int] == s@[i as int]);
            }
            return false;
        }
        i += 1;
    }
    proof {
        assert(s@.subrange(0, p@.len() as int) =~= p@);
    }
    true
}

/// The characters of `s` from `from` (inclusive) to `to` (exclusive), owned.
pub fn substr_string(s: &str, from: usize, to: usize) -> (r: String)
    requires
        from <= to <= s@.len(),
    ensures
        r@ == s@.subrange(from as int, to as int),
{
    let sub = s.substring_char(from, to);
    String::from_str(sub)
}

/// First index at or after `from` whose character is not a word character
/// (or the end of `s`); equivalently, `from` plus the word-prefix length of
/// the suffix of `s` starting at `from`.
pub fn scan_word(s: &str, from: usize) -> (r: usize)
    requires
        from <= s@.len(),
    ensures
        from <= r <= s@.len(),
        r - from == word_prefix_len(s@.skip(from as int)),
{
    let n = s.unicode_len();
    let mut i: usize = from;
    while i < n
        invariant
            n == s@.len(),
            from <= i <= n,
            forall|j: int| from <= j < i ==> is_word_char(#[trigger] s@[j]),
        ensures
            from <= i <= n,
            forall|j: int| from <= j < i ==> is_word_char(#[trigger] s@[j]),
            i < n ==> !is_word_char(s@[i as int]),
        decreases n - i,
    {
        if !word_char(s.get_char(i)) {
            break;
        }
        i += 1;
    }
    proof {
        let suf = s@.skip(from as int);
        assert forall|j: int| 0 <= j < i - from implies is_word_char(#[trigger] suf[j]) by {
            assert(suf[j] == s@[from + j]);
        }
        if (i - from) < suf.len() {
            assert(suf[i - from] == s@[i as int]);
        }
        lemma_word_prefix_len_exact(suf, i - from);
    }
    i
}

/// Whether every character of `s` in `[from, to)` is a word character and
/// the range is non-empty; equivalently, that range forms a word.
pub fn word_range(s: &str, from: usize, to: usize) -> (r: bool)
    requires
        from <= to <= s@.len(),
    ensures
        r == is_word(s@.subrange(from as int, to as int)),
{
    let k = scan_word(s, from);
    proof {
        let sub = s@.subrange(from as int, to as int);
        let suf = s@.skip(from as int);
        lemma_word_prefix_len(suf);
        if from < to && k >= to {
            assert forall|j: int| 0 <= j < sub.len() implies is_word_char(#[trigger] sub[j]) by {
                assert(sub[j] == suf[j]);
            }
            assert(is_word(sub));
        }
        if from == to {
            assert(!is_word(sub));
        }
        if from < to && k < to {
            assert(suf[k - from] == sub[k - from]);
            assert(!is_word(sub));
        }
    }
    from < to && k >= to
}

/// After one name is pushed onto a list whose view was `prev` and whose
/// deep view was `pre`, the list's deep view is `pre` with the pushed
/// name's view `x` at the end.
pub proof fn lemma_deep_view_push(v: Vec<String>, prev: Seq<String>, pre: Seq<Seq<char>>, x: Seq<char>)
    requires
        v@.len() == prev.len() + 1,
        forall|i: int| 0 <= i < prev.len() ==> v@[i] == prev[i],
        v@[prev.len() as int]@ == x,
        pre.len() == prev.len(),
        forall|i: int| 0 <= i < prev.len() ==> pre[i] == prev[i]@,
    ensures
        v.deep_view() == pre.push(x),
{
    assert(v.deep_view() =~= pre.push(x));
}

/// Whether `p` occurs in `s` starting at position `from`.
pub fn has_prefix_at(s: &str, from: usize, p: &str) -> (r: bool)
    requires
        from <= s@.len(),
    ensures
        r == has_prefix(s@.skip(from as int), p@),
{
    let sn = s.unicode_len();
    let pn = p.unicode_len();
    if pn > sn - from {
        return false;
    }
    let mut i: usize = 0;
    while i < pn
        invariant
            sn == s@.len(),
            pn == p@.len(),
            from + pn <= sn,
            0 <= i <= pn,
            forall|j: int| 0 <= j < i ==> s@[from + j] == p@[j],
        decreases pn - i,
    {
        let cs = s.get_char(from + i);
        let cp = p.get_char(i);
        if cs != cp {
            proof {
                let suf = s@.skip(from as int);
                assert(suf.subrange(0, p@.len() as int)[i as int] == s@[from + i]);
            }
            return false;
        }
        i += 1;
    }
    proof {
        assert(s@.skip(from as int).subrange(0, p@.len() as int) =~= p@);
    }
    true
}

/// If `line` is `pre` followed by a single word, that word.
pub fn match_prefix_word(line: &str, pre: &str) -> (r: Option<String>)
    ensures
        match r {
            Some(w) => has_prefix(line@, pre@) && is_word(line@.skip(pre@.len() as int))
                && w@ == line@.skip(pre@.len() as int),
            None => !(has_prefix(line@, pre@) && is_word(line@.skip(pre@.len() as int))),
        },
{
    if !str_has_prefix(line, pre) {
        return None;
    }
    let n = line.unicode_len();
    let pn = pre.unicode_len();
    proof {
        assert(line@.skip(pre@.len() as int) =~= line@.subrange(pn as int, n as int));
    }
    if !word_range(line, pn, n) {
        return None;
    }
    Some(substr_string(line, pn, n))
}

/// If `line` is `pre` followed by a non-empty remainder, that remainder.
pub fn match_prefix_rest(line: &str, pre: &str) -> (r: Option<String>)
    ensures
        match r {
            Some(t) => has_prefix(line@, pre@) && line@.len() > pre@.len()
                && t@ == line@.skip(pre@.len() as int),
            None => !(has_prefix(line@, pre@) && line@.len() > pre@.len()),
        },
{
    if !str_has_prefix(line, pre) {
        return None;
    }
    let n = line.unicode_len();
    let pn = pre.unicode_len();
    if n <= pn {
        return None;
    }
    proof {
        assert(line@.skip(pre@.len() as int) =~= line@.subrange(pn as int, n as int));
    }
    Some(substr_string(line, pn, n))
}

} // verus!
