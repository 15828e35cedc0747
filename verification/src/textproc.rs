//! Byte-level text helpers.
//!
//! Transcriptions and window titles are handled as UTF-8 byte sequences; all
//! the transformations here touch ASCII bytes only, which keeps them exact on
//! any UTF-8 input (continuation bytes are never whitespace, punctuation or
//! letters).

use vstd::prelude::*;

verus! {

/// ASCII whitespace, as `char::is_ascii_whitespace` has it.
pub open spec fn is_space(b: u8) -> bool {
    b == 0x20 || b == 0x09 || b == 0x0A || b == 0x0C || b == 0x0D
}

/// ASCII punctuation, as `char::is_ascii_punctuation` has it.
pub open spec fn is_punct(b: u8) -> bool {
    (0x21 <= b <= 0x2F) || (0x3A <= b <= 0x40) || (0x5B <= b <= 0x60) || (0x7B <= b <= 0x7E)
}

/// The byte with an ASCII capital letter mapped to its small form.
pub open spec fn lower_byte(b: u8) -> u8 {
    if 0x41 <= b <= 0x5A {
        (b + 0x20) as u8
    } else {
        b
    }
}

/// Whether `b` counts as ASCII whitespace.
pub fn is_space_byte(b: u8) -> (r: bool)
    ensures
        r == is_space(b),
{
    b == 0x20 || b == 0x09 || b == 0x0A || b == 0x0C || b == 0x0D
}

/// Whether `b` counts as ASCII punctuation.
pub fn is_punct_byte(b: u8) -> (r: bool)
    ensures
        r == is_punct(b),
{
    (0x21 <= b && b <= 0x2F) || (0x3A <= b && b <= 0x40) || (0x5B <= b && b <= 0x60) || (0x7B <= b
        && b <= 0x7E)
}

/// ASCII-lowercase one byte.
pub fn lower_byte_exec(b: u8) -> (r: u8)
    ensures
        r == lower_byte(b),
{
    if 0x41 <= b && b <= 0x5A {
        b + 0x20
    } else {
        b
    }
}

/// The sequence with every ASCII capital letter lowered.
pub open spec fn lower_seq(s: Seq<u8>) -> Seq<u8> {
    s.map_values(|b: u8| lower_byte(b))
}

/// The sequence with every ASCII punctuation byte removed.
pub open spec fn strip_punct_seq(s: Seq<u8>) -> Seq<u8>
    decreases s.len(),
{
    if s.len() == 0 {
        Seq::empty()
    } else {
        strip_punct_seq(s.drop_last()) + (if is_punct(s.last()) {
            Seq::empty()
        } else {
            seq![s.last()]
        })
    }
}

/// The sequence with every ASCII punctuation byte replaced by a space.
pub open spec fn punct_to_space_seq(s: Seq<u8>) -> Seq<u8> {
    s.map_values(|b: u8| if is_punct(b) { 0x20u8 } else { b })
}

/// Runs of plain spaces collapsed to their first space.
pub open spec fn collapse_spaces_seq(s: Seq<u8>) -> Seq<u8>
    decreases s.len(),
{
    if s.len() == 0 {
        Seq::empty()
    } else if s.last() == 0x20 && s.len() >= 2 && s[s.len() - 2] == 0x20 {
        collapse_spaces_seq(s.drop_last())
    } else {
        collapse_spaces_seq(s.drop_last()).push(s.last())
    }
}

/// Leading ASCII whitespace removed.
pub open spec fn trim_start_seq(s: Seq<u8>) -> Seq<u8>
    decreases s.len(),
{
    if s.len() > 0 && is_space(s[0]) {
        trim_start_seq(s.drop_first())
    } else {
        s
    }
}

/// Trailing ASCII whitespace removed.
pub open spec fn trim_end_seq(s: Seq<u8>) -> Seq<u8>
    decreases s.len(),
{
    if s.len() > 0 && is_space(s.last()) {
        trim_end_seq(s.drop_last())
    } else {
        s
    }
}

/// Leading and trailing ASCII whitespace removed.
pub open spec fn trim_seq(s: Seq<u8>) -> Seq<u8> {
    trim_start_seq(trim_end_seq(s))
}

/// `needle` occurs contiguously somewhere in `hay`.
pub open spec fn contains_seq(hay: Seq<u8>, needle: Seq<u8>) -> bool {
    exists|i: int|
        0 <= i && i + needle.len() <= hay.len() && #[trigger] hay.subrange(i, i + needle.len())
            == needle
}

proof fn lemma_trim_start_is_skip(s: Seq<u8>, i: int)
    requires
        0 <= i <= s.len(),
        forall|k: int| 0 <= k < i ==> is_space(s[k]),
        i < s.len() ==> !is_space(s[i]),
    ensures
        trim_start_seq(s) == s.skip(i),
    decreases i,
{
    if i == 0 {
        assert(s.skip(0) =~= s);
    } else {
        let s1 = s.drop_first();
        assert(trim_start_seq(s) == trim_start_seq(s1));
        assert(forall|k: int| 0 <= k < i - 1 ==> is_space(s1[k]));
        lemma_trim_start_is_skip(s1, i - 1);
        assert(s1.skip(i - 1) =~= s.skip(i));
    }
}

proof fn lemma_trim_end_is_take(s: Seq<u8>, j: int)
    requires
        0 <= j <= s.len(),
        forall|k: int| j <= k < s.len() ==> is_space(s[k]),
        j > 0 ==> !is_space(s[j - 1]),
    ensures
        trim_end_seq(s) == s.take(j),
    decreases s.len() - j,
{
    if j == s.len() {
        assert(s.take(j) =~= s);
        if s.len() > 0 && is_space(s.last()) {
            lemma_trim_end_is_take(s.drop_last(), j - 1);
            assert(false) by {
                assert(!is_space(s[j - 1]));
                assert(s.last() == s[j - 1]);
            }
        }
    } else {
        assert(is_space(s.last()));
        let s1 = s.drop_last();
        assert(trim_end_seq(s) == trim_end_seq(s1));
        assert(forall|k: int| j <= k < s1.len() ==> is_space(s1[k]));
        lemma_trim_end_is_take(s1, j);
        assert(s1.take(j) =~= s.take(j));
    }
}

/// Remove leading and trailing ASCII whitespace.
pub fn trim_bytes(s: &Vec<u8>) -> (r: Vec<u8>)
    ensures
        r@ == trim_seq(s@),
{
    let n: usize = s.len();
    let mut start: usize = 0;
    while start < n && is_space_byte(s[start])
        invariant
            n == s@.len(),
            start <= n,
            forall|k: int| 0 <= k < start ==> is_space(s@[k]),
        decreases n - start,
    {
        start = start + 1;
    }
    let mut end: usize = n;
    while end > start && is_space_byte(s[end - 1])
        invariant
            n == s@.len(),
            start <= end <= n,
            forall|k: int| end <= k < n ==> is_space(s@[k]),
            forall|k: int| 0 <= k < start ==> is_space(s@[k]),
            start == n || !is_space(s@[start as int]),
        decreases end,
    {
        end = end - 1;
    }
    let mut out: Vec<u8> = Vec::new();
    let mut i: usize = start;
    while i < end
        invariant
            n == s@.len(),
            start <= i <= end <= n,
            out@ == s@.subrange(start as int, i as int),
        decreases end - i,
    {
        out.push(s[i]);
        proof {
            assert(out@ =~= s@.subrange(start as int, i + 1));
        }
        i = i + 1;
    }
    proof {
        if start == n {
            assert(end == start);
            lemma_trim_end_is_take(s@, 0);
            assert(s@.take(0int) =~= Seq::<u8>::empty());
            assert(trim_start_seq(Seq::<u8>::empty()) =~= Seq::<u8>::empty());
            assert(out@ =~= Seq::<u8>::empty());
        } else {
            assert(end > start);
            lemma_trim_end_is_take(s@, end as int);
            let s2 = s@.take(end as int);
            assert(forall|k: int| 0 <= k < start ==> s2[k] == s@[k] && is_space(s@[k]));
            assert(s2[start as int] == s@[start as int]);
            lemma_trim_start_is_skip(s2, start as int);
            assert(s2.skip(start as int) =~= s@.subrange(start as int, end as int));
        }
    }
    out
}

proof fn lemma_trim_start_len(s: Seq<u8>)
    ensures
        trim_start_seq(s).len() <= s.len(),
        s.len() > 0 && is_space(s[0]) ==> trim_start_seq(s).len() < s.len(),
    decreases s.len(),
{
    if s.len() > 0 && is_space(s[0]) {
        lemma_trim_start_len(s.drop_first());
    }
}

proof fn lemma_trim_end_len(s: Seq<u8>)
    ensures
        trim_end_seq(s).len() <= s.len(),
        s.len() > 0 && is_space(s.last()) ==> trim_end_seq(s).len() < s.len(),
    decreases s.len(),
{
    if s.len() > 0 && is_space(s.last()) {
        lemma_trim_end_len(s.drop_last());
    }
}

/// A non-empty fixpoint of trimming has no whitespace at either end.
pub proof fn lemma_trimmed_ends(t: Seq<u8>)
    requires
        trim_seq(t) == t,
        t.len() > 0,
    ensures
        !is_space(t[0]),
        !is_space(t.last()),
{
    lemma_trim_end_len(t);
    lemma_trim_start_len(trim_end_seq(t));
    if is_space(t.last()) {
        assert(trim_seq(t).len() < t.len());
    }
    assert(trim_end_seq(t) == t);
    if is_space(t[0]) {
        assert(trim_seq(t).len() < t.len());
    }
}

/// Pushing a non-space byte onto trimmed text leaves it trimmed.
pub proof fn lemma_trim_push_nonspace(t: Seq<u8>, c: u8)
    requires
        trim_seq(t) == t,
        !is_space(c),
    ensures
        trim_seq(t.push(c)) == t.push(c),
{
    let u = t.push(c);
    assert(u.last() == c);
    assert(trim_end_seq(u) == u);
    if t.len() == 0 {
        assert(u[0] == c);
    } else {
        lemma_trimmed_ends(t);
        assert(u[0] == t[0]);
    }
    assert(trim_start_seq(u) == u);
}

/// Pushing a trailing space onto trimmed text trims back to the text.
pub proof fn lemma_trim_push_space(t: Seq<u8>)
    requires
        trim_seq(t) == t,
    ensures
        trim_seq(t.push(0x20)) == t,
{
    let u = t.push(0x20);
    assert(u.last() == 0x20 && is_space(0x20));
    assert(u.drop_last() =~= t);
    assert(trim_end_seq(u) == trim_end_seq(t));
    if t.len() > 0 {
        lemma_trimmed_ends(t);
        assert(trim_end_seq(t) == t);
        assert(trim_start_seq(t) == t);
    }
}

/// Lowercasing maps over a push.
pub proof fn lemma_lower_push(s: Seq<u8>, c: u8)
    ensures
        lower_seq(s.push(c)) == lower_seq(s).push(lower_byte(c)),
{
    assert(lower_seq(s.push(c)) =~= lower_seq(s).push(lower_byte(c)));
}

/// Stripping punctuation drops a trailing punctuation byte.
pub proof fn lemma_strip_push_punct(s: Seq<u8>, q: u8)
    requires
        is_punct(q),
    ensures
        strip_punct_seq(s.push(q)) == strip_punct_seq(s),
{
    assert(s.push(q).drop_last() =~= s);
    assert(strip_punct_seq(s.push(q)) =~= strip_punct_seq(s));
}

/// ASCII-lowercase a byte string.
pub fn lower_bytes(s: &Vec<u8>) -> (r: Vec<u8>)
    ensures
        r@ == lower_seq(s@),
{
    let n: usize = s.len();
    let mut out: Vec<u8> = Vec::new();
    let mut i: usize = 0;
    while i < n
        invariant
            n == s@.len(),
            i <= n,
            out@.len() == i,
            forall|j: int| 0 <= j < i ==> out@[j] == lower_byte(s@[j]),
        decreases n - i,
    {
        out.push(lower_byte_exec(s[i]));
        i = i + 1;
    }
    proof {
        assert(out@ =~= lower_seq(s@));
    }
    out
}

/// Remove every ASCII punctuation byte.
pub fn strip_punct_bytes(s: &Vec<u8>) -> (r: Vec<u8>)
    ensures
        r@ == strip_punct_seq(s@),
{
    let n: usize = s.len();
    let mut out: Vec<u8> = Vec::new();
    let mut i: usize = 0;
    while i < n
        invariant
            n == s@.len(),
            i <= n,
            out@ == strip_punct_seq(s@.take(i as int)),
        decreases n - i,
    {
        proof {
            assert(s@.take(i + 1).drop_last() =~= s@.take(i as int));
            assert(s@.take(i + 1).last() == s@[i as int]);
        }
        if !is_punct_byte(s[i]) {
            out.push(s[i]);
            proof {
                assert(strip_punct_seq(s@.take(i as int)) + seq![s@[i as int]] =~= out@);
            }
        }
        proof {
            assert(out@ =~= strip_punct_seq(s@.take(i + 1)));
        }
        i = i + 1;
    }
    proof {
        assert(s@.take(n as int) =~= s@);
    }
    out
}

/// Replace every ASCII punctuation byte with a space.
pub fn punct_to_space_bytes(s: &Vec<u8>) -> (r: Vec<u8>)
    ensures
        r@ == punct_to_space_seq(s@),
{
    let n: usize = s.len();
    let mut out: Vec<u8> = Vec::new();
    let mut i: usize = 0;
    while i < n
        invariant
            n == s@.len(),
            i <= n,
            out@.len() == i,
            forall|j: int|
                0 <= j < i ==> out@[j] == (if is_punct(s@[j]) {
                    0x20u8
                } else {
                    s@[j]
                }),
        decreases n - i,
    {
        if is_punct_byte(s[i]) {
            out.push(0x20);
        } else {
            out.push(s[i]);
        }
        i = i + 1;
    }
    proof {
        assert(out@ =~= punct_to_space_seq(s@));
    }
    out
}

/// Collapse runs of plain spaces to a single space.
pub fn collapse_space_bytes(s: &Vec<u8>) -> (r: Vec<u8>)
    ensures
        r@ == collapse_spaces_seq(s@),
{
    let n: usize = s.len();
    let mut out: Vec<u8> = Vec::new();
    let mut last_was_space: bool = false;
    let mut i: usize = 0;
    while i < n
        invariant
            n == s@.len(),
            i <= n,
            out@ == collapse_spaces_seq(s@.take(i as int)),
            last_was_space == (i > 0 && s@[i - 1] == 0x20),
        decreases n - i,
    {
        proof {
            assert(s@.take(i + 1).drop_last() =~= s@.take(i as int));
            assert(s@.take(i + 1).last() == s@[i as int]);
        }
        let b: u8 = s[i];
        if b == 0x20 {
            if !last_was_space {
                out.push(b);
            }
            last_was_space = true;
        } else {
            out.push(b);
            last_was_space = false;
        }
        i = i + 1;
    }
    proof {
        assert(s@.take(n as int) =~= s@);
    }
    out
}

/// Deep copy of a byte string.
pub fn clone_bytes(src: &Vec<u8>) -> (r: Vec<u8>)
    ensures
        r@ == src@,
{
    let n: usize = src.len();
    let mut out: Vec<u8> = Vec::new();
    let mut i: usize = 0;
    while i < n
        invariant
            n == src@.len(),
            i <= n,
            out@ == src@.take(i as int),
        decreases n - i,
    {
        out.push(src[i]);
        proof {
            assert(out@ =~= src@.take(i + 1));
        }
        i = i + 1;
    }
    proof {
        assert(src@.take(n as int) =~= src@);
    }
    out
}

/// Whether two byte strings are equal.
pub fn eq_bytes(a: &Vec<u8>, b: &Vec<u8>) -> (r: bool)
    ensures
        r == (a@ == b@),
{
    if a.len() != b.len() {
        return false;
    }
    let n: usize = a.len();
    let mut i: usize = 0;
    while i < n
        invariant
            n == a@.len() == b@.len(),
            i <= n,
            forall|j: int| 0 <= j < i ==> a@[j] == b@[j],
        decreases n - i,
    {
        if a[i] != b[i] {
            return false;
        }
        i = i + 1;
    }
    proof {
        assert(a@ =~= b@);
    }
    true
}

/// Whether `needle` matches `hay` at offset `at`.
fn matches_at(hay: &Vec<u8>, needle: &Vec<u8>, at: usize) -> (r: bool)
    requires
        at + needle@.len() <= hay@.len(),
    ensures
        r == (hay@.subrange(at as int, at + needle@.len()) == needle@),
{
    let n: usize = needle.len();
    let h: usize = hay.len();
    let mut j: usize = 0;
    while j < n
        invariant
            n == needle@.len(),
            h == hay@.len(),
            at + n <= h,
            j <= n,
            forall|k: int| 0 <= k < j ==> hay@[at + k] == needle@[k],
        decreases n - j,
    {
        if hay[at + j] != needle[j] {
            proof {
                assert(hay@.subrange(at as int, at + needle@.len())[j as int] == hay@[at + j]);
            }
            return false;
        }
        j = j + 1;
    }
    proof {
        assert(hay@.subrange(at as int, at + needle@.len()) =~= needle@);
    }
    true
}

/// Whether `needle` occurs contiguously anywhere in `hay`.
pub fn contains_bytes(hay: &Vec<u8>, needle: &Vec<u8>) -> (r: bool)
    ensures
        r == contains_seq(hay@, needle@),
{
    if needle.len() > hay.len() {
        proof {
            assert(!contains_seq(hay@, needle@));
        }
        return false;
    }
    if needle.len() == 0 {
        proof {
            assert(hay@.subrange(0int, 0int + needle@.len() as int) =~= needle@);
        }
        return true;
    }
    let h: usize = hay.len();
    let last_start: usize = h - needle.len();
    let mut i: usize = 0;
    while i <= last_start
        invariant
            1 <= needle@.len() <= hay@.len(),
            h == hay@.len(),
            last_start == hay@.len() - needle@.len(),
            i <= last_start + 1,
            forall|k: int|
                0 <= k < i ==> #[trigger] hay@.subrange(k, k + needle@.len()) != needle@,
        decreases last_start + 1 - i,
    {
        if matches_at(hay, needle, i) {
            return true;
        }
        i = i + 1;
    }
    false
}

} // verus!
