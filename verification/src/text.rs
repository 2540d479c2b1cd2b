use vstd::prelude::*;

verus! {

/// Appends one character to a `String`.
#[verifier::external_body]
pub(crate) fn push_char(s: &mut String, c: char)
    ensures
        final(s)@ == old(s)@.push(c),
{
    s.push(c);
}

/// The characters of `s`, in order.
pub fn chars_of(s: &str) -> (v: Vec<char>)
    ensures
        v@ == s@,
{
    let mut v: Vec<char> = Vec::new();
    for c in it: s.chars()
        invariant
            v@ == it.seq().take(it.index() as int),
    {
        v.push(c);
    }
    v
}

/// A `String` holding exactly the characters of `v`.
pub fn string_from_chars(v: &[char]) -> (s: String)
    ensures
        s@ == v@,
{
    let mut s = String::new();
    let mut i: usize = 0;
    while i < v.len()
        invariant
            i <= v@.len(),
            s@ == v@.take(i as int),
        decreases v@.len() - i,
    {
        push_char(&mut s, v[i]);
        assert(v@.take(i as int).push(v@[i as int]) =~= v@.take(i + 1));
        i = i + 1;
    }
    assert(v@.take(v@.len() as int) =~= v@);
    s
}


/// `needle` occurs in `hay` starting at position `k`.
pub open spec fn occurs_at(hay: Seq<char>, needle: Seq<char>, k: int) -> bool {
    &&& 0 <= k
    &&& k + needle.len() <= hay.len()
    &&& hay.subrange(k, k + needle.len()) == needle
}

/// `needle` occurs somewhere in `hay`.
pub open spec fn contains_seq(hay: Seq<char>, needle: Seq<char>) -> bool {
    exists|k: int| occurs_at(hay, needle, k)
}

/// The first position at or after `k` where `needle` occurs in `hay`.
pub open spec fn first_occurrence_from(hay: Seq<char>, needle: Seq<char>, k: int) -> Option<int>
    decreases hay.len() + 1 - k,
{
    if k < 0 || k + needle.len() > hay.len() {
        None
    } else if occurs_at(hay, needle, k) {
        Some(k)
    } else {
        first_occurrence_from(hay, needle, k + 1)
    }
}

/// Where `first_occurrence_from` finds nothing, `needle` occurs nowhere at or after `k`.
pub proof fn lemma_first_occurrence_none(hay: Seq<char>, needle: Seq<char>, k: int, j: int)
    requires
        0 <= k <= j,
        first_occurrence_from(hay, needle, k) is None,
    ensures
        !occurs_at(hay, needle, j),
    decreases hay.len() + 1 - k,
{
    if k + needle.len() <= hay.len() && !occurs_at(hay, needle, k) && k < j {
        lemma_first_occurrence_none(hay, needle, k + 1, j);
    }
}

/// Where `first_occurrence_from` finds `p`, `needle` occurs at `p` and nowhere in `[k, p)`.
pub proof fn lemma_first_occurrence_some(hay: Seq<char>, needle: Seq<char>, k: int)
    requires
        0 <= k,
        first_occurrence_from(hay, needle, k) is Some,
    ensures
        ({
            let p = first_occurrence_from(hay, needle, k)->0;
            &&& k <= p
            &&& occurs_at(hay, needle, p)
            &&& forall|j: int| k <= j < p ==> !occurs_at(hay, needle, j)
        }),
    decreases hay.len() + 1 - k,
{
    if !occurs_at(hay, needle, k) {
        lemma_first_occurrence_some(hay, needle, k + 1);
    }
}

/// Does `needle` occur in `hay` at position `k`?
pub fn occurs_at_exec(hay: &[char], needle: &[char], k: usize) -> (b: bool)
    ensures
        b == occurs_at(hay@, needle@, k as int),
{
    if needle.len() > hay.len() || k > hay.len() - needle.len() {
        return false;
    }
    let mut i: usize = 0;
    while i < needle.len()
        invariant
            k + needle.len() <= hay.len(),
            i <= needle@.len(),
            forall|m: int| 0 <= m < i ==> hay@[k + m] == needle@[m],
        decreases needle@.len() - i,
    {
        if hay[k + i] != needle[i] {
            assert(hay@.subrange(k as int, k + needle@.len())[i as int] != needle@[i as int]);
            return false;
        }
        i = i + 1;
    }
    assert(hay@.subrange(k as int, k + needle@.len()) =~= needle@);
    true
}

/// The first position at or after `from` where `needle` occurs in `hay`.
pub fn find_from(hay: &[char], needle: &[char], from: usize) -> (r: Option<usize>)
    ensures
        match r {
            Some(p) => first_occurrence_from(hay@, needle@, from as int) == Some(p as int),
            None => first_occurrence_from(hay@, needle@, from as int) is None,
        },
{
    if needle.len() > hay.len() || from > hay.len() - needle.len() {
        return None;
    }
    let last = hay.len() - needle.len();
    let mut k: usize = from;
    loop
        invariant
            from <= k <= last,
            last == hay@.len() - needle@.len(),
            first_occurrence_from(hay@, needle@, from as int)
                == first_occurrence_from(hay@, needle@, k as int),
        decreases last - k,
    {
        if occurs_at_exec(hay, needle, k) {
            return Some(k);
        }
        if k == last {
            assert(first_occurrence_from(hay@, needle@, k + 1) is None);
            return None;
        }
        k = k + 1;
    }
}

/// A `String` holding the characters of `v` in `[lo, hi)`.
pub fn string_from_range(v: &[char], lo: usize, hi: usize) -> (s: String)
    requires
        lo <= hi <= v@.len(),
    ensures
        s@ == v@.subrange(lo as int, hi as int),
{
    let mut s = String::new();
    let mut i: usize = lo;
    while i < hi
        invariant
            lo <= i <= hi,
            hi <= v@.len(),
            s@ == v@.subrange(lo as int, i as int),
        decreases hi - i,
    {
        push_char(&mut s, v[i]);
        assert(v@.subrange(lo as int, i as int).push(v@[i as int]) =~= v@.subrange(
            lo as int,
            i + 1,
        ));
        i = i + 1;
    }
    s
}

/// Does `needle` occur anywhere in `hay`?
pub fn contains_chars(hay: &[char], needle: &[char]) -> (b: bool)
    ensures
        b == contains_seq(hay@, needle@),
{
    match find_from(hay, needle, 0) {
        Some(p) => {
            proof {
                lemma_first_occurrence_some(hay@, needle@, 0);
            }
            true
        },
        None => {
            proof {
                assert forall|k: int| !occurs_at(hay@, needle@, k) by {
                    if 0 <= k {
                        lemma_first_occurrence_none(hay@, needle@, 0, k);
                    }
                }
            }
            false
        },
    }
}

/// Does `needle` occur anywhere in the string `hay`?
pub fn str_contains(hay: &str, needle: &str) -> (b: bool)
    ensures
        b == contains_seq(hay@, needle@),
{
    let h = chars_of(hay);
    let n = chars_of(needle);
    contains_chars(h.as_slice(), n.as_slice())
}

/// Does the character `c` occur in `s`?
pub fn has_char(s: &[char], c: char) -> (b: bool)
    ensures
        b == s@.contains(c),
{
    let mut i: usize = 0;
    while i < s.len()
        invariant
            i <= s@.len(),
            forall|m: int| 0 <= m < i ==> s@[m] != c,
        decreases s@.len() - i,
    {
        if s[i] == c {
            return true;
        }
        i = i + 1;
    }
    false
}

/// The Unicode `White_Space` characters, which `char::is_whitespace` recognises.
pub open spec fn is_white_space(c: char) -> bool {
    ||| ('\u{9}' <= c && c <= '\u{d}')
    ||| c == ' '
    ||| c == '\u{85}'
    ||| c == '\u{a0}'
    ||| c == '\u{1680}'
    ||| ('\u{2000}' <= c && c <= '\u{200a}')
    ||| c == '\u{2028}'
    ||| c == '\u{2029}'
    ||| c == '\u{202f}'
    ||| c == '\u{205f}'
    ||| c == '\u{3000}'
}

/// A text is blank when trimming its white space leaves nothing.
pub open spec fn is_blank(s: Seq<char>) -> bool {
    forall|i: int| 0 <= i < s.len() ==> is_white_space(#[trigger] s[i])
}

/// Is `c` a white-space character?
pub fn white_space(c: char) -> (b: bool)
    ensures
        b == is_white_space(c),
{
    ('\u{9}' <= c && c <= '\u{d}') || c == ' ' || c == '\u{85}' || c == '\u{a0}' || c == '\u{1680}'
        || ('\u{2000}' <= c && c <= '\u{200a}') || c == '\u{2028}' || c == '\u{2029}'
        || c == '\u{202f}' || c == '\u{205f}' || c == '\u{3000}'
}

/// Is `s` empty once its surrounding white space is trimmed?
pub fn blank_chars(s: &[char]) -> (b: bool)
    ensures
        b == is_blank(s@),
{
    let mut i: usize = 0;
    while i < s.len()
        invariant
            i <= s@.len(),
            forall|m: int| 0 <= m < i ==> is_white_space(s@[m]),
        decreases s@.len() - i,
    {
        if !white_space(s[i]) {
            return false;
        }
        i = i + 1;
    }
    true
}

/// Is the string `s` empty once its surrounding white space is trimmed?
pub fn str_is_blank(s: &str) -> (b: bool)
    ensures
        b == is_blank(s@),
{
    let v = chars_of(s);
    blank_chars(v.as_slice())
}

} // verus!
