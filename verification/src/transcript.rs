//! Post-filtering of raw model output.
//!
//! The speech-to-text model emits bracketed annotations and stock
//! hallucinations on silence.  The filter trims the raw text, strips every
//! `[...]` or `(...)` span (non-nested, left to right, the first closing
//! bracket of either kind ends a span; an opener without a closer stops the
//! stripping), trims again, and drops what is left when it is empty, a bare
//! `"..."`, or begins with `"[_"`.

use vstd::prelude::*;
use crate::textproc::trim_seq;
use crate::textproc::trim_bytes;

verus! {

/// An opening bracket: `[` or `(`.
pub open spec fn is_opener(b: u8) -> bool {
    b == 0x5B || b == 0x28
}

/// A closing bracket: `]` or `)`.
pub open spec fn is_closer(b: u8) -> bool {
    b == 0x5D || b == 0x29
}

/// Whether `b` opens a bracketed span.
pub fn is_opener_byte(b: u8) -> (r: bool)
    ensures
        r == is_opener(b),
{
    b == 0x5B || b == 0x28
}

/// Whether `b` closes a bracketed span.
pub fn is_closer_byte(b: u8) -> (r: bool)
    ensures
        r == is_closer(b),
{
    b == 0x5D || b == 0x29
}

/// Index of the first opening bracket, or -1 when there is none.
pub open spec fn first_opener(s: Seq<u8>) -> int
    decreases s.len(),
{
    if s.len() == 0 {
        -1
    } else if is_opener(s[0]) {
        0
    } else if first_opener(s.drop_first()) == -1 {
        -1
    } else {
        first_opener(s.drop_first()) + 1
    }
}

/// Index of the first closing bracket, or -1 when there is none.
pub open spec fn first_closer(s: Seq<u8>) -> int
    decreases s.len(),
{
    if s.len() == 0 {
        -1
    } else if is_closer(s[0]) {
        0
    } else if first_closer(s.drop_first()) == -1 {
        -1
    } else {
        first_closer(s.drop_first()) + 1
    }
}

/// Every `[...]`/`(...)` span removed, left to right; an opener without a
/// closer ends the stripping.
pub open spec fn strip_brackets(s: Seq<u8>) -> Seq<u8>
    decreases s.len(),
{
    let i = first_opener(s);
    if i < 0 || i >= s.len() {
        s
    } else {
        let j = first_closer(s.skip(i));
        if j < 0 || i + j + 1 > s.len() {
            s
        } else {
            strip_brackets(s.take(i) + s.skip(i + j + 1))
        }
    }
}

/// What the post-filter makes of one raw model output: the cleaned text, or
/// nothing when the result is dropped as noise.
pub open spec fn clean_spec(s: Seq<u8>) -> Option<Seq<u8>> {
    let t = trim_seq(strip_brackets(trim_seq(s)));
    if t.len() == 0 || t == seq![0x2Eu8, 0x2Eu8, 0x2Eu8] || (t.len() >= 2 && t[0] == 0x5B && t[1]
        == 0x5F) {
        None
    } else {
        Some(t)
    }
}

proof fn lemma_first_opener_at(s: Seq<u8>, i: int)
    requires
        0 <= i < s.len(),
        is_opener(s[i]),
        forall|k: int| 0 <= k < i ==> !is_opener(s[k]),
    ensures
        first_opener(s) == i,
    decreases i,
{
    if i == 0 {
    } else {
        assert(forall|k: int| 0 <= k < i - 1 ==> !is_opener(s.drop_first()[k]));
        lemma_first_opener_at(s.drop_first(), i - 1);
    }
}

proof fn lemma_first_opener_none(s: Seq<u8>)
    requires
        forall|k: int| 0 <= k < s.len() ==> !is_opener(s[k]),
    ensures
        first_opener(s) == -1,
    decreases s.len(),
{
    if s.len() > 0 {
        assert(forall|k: int| 0 <= k < s.len() - 1 ==> !is_opener(s.drop_first()[k]));
        lemma_first_opener_none(s.drop_first());
    }
}

proof fn lemma_first_closer_at(s: Seq<u8>, i: int)
    requires
        0 <= i < s.len(),
        is_closer(s[i]),
        forall|k: int| 0 <= k < i ==> !is_closer(s[k]),
    ensures
        first_closer(s) == i,
    decreases i,
{
    if i == 0 {
    } else {
        assert(forall|k: int| 0 <= k < i - 1 ==> !is_closer(s.drop_first()[k]));
        lemma_first_closer_at(s.drop_first(), i - 1);
    }
}

proof fn lemma_first_closer_none(s: Seq<u8>)
    requires
        forall|k: int| 0 <= k < s.len() ==> !is_closer(s[k]),
    ensures
        first_closer(s) == -1,
    decreases s.len(),
{
    if s.len() > 0 {
        assert(forall|k: int| 0 <= k < s.len() - 1 ==> !is_closer(s.drop_first()[k]));
        lemma_first_closer_none(s.drop_first());
    }
}

/// Strip every bracketed span from `cur`, left to right.
fn strip_brackets_bytes(text: &Vec<u8>) -> (r: Vec<u8>)
    ensures
        r@ == strip_brackets(text@),
{
    let mut cur: Vec<u8> = crate::textproc::clone_bytes(text);
    let mut go: bool = true;
    while go
        invariant
            strip_brackets(cur@) == strip_brackets(text@),
            !go ==> strip_brackets(cur@) == cur@,
        decreases cur@.len() + (if go {
            1int
        } else {
            0int
        }),
    {
        let n: usize = cur.len();
        let mut i: usize = 0;
        while i < n && !is_opener_byte(cur[i])
            invariant
                n == cur@.len(),
                i <= n,
                forall|k: int| 0 <= k < i ==> !is_opener(cur@[k]),
            decreases n - i,
        {
            i = i + 1;
        }
        if i == n {
            proof {
                lemma_first_opener_none(cur@);
            }
            go = false;
        } else {
            let mut j: usize = i;
            while j < n && !is_closer_byte(cur[j])
                invariant
                    n == cur@.len(),
                    i <= j <= n,
                    forall|k: int| i <= k < j ==> !is_closer(cur@[k]),
                decreases n - j,
            {
                j = j + 1;
            }
            proof {
                lemma_first_opener_at(cur@, i as int);
            }
            if j == n {
                proof {
                    let rest = cur@.skip(i as int);
                    assert(forall|k: int| 0 <= k < rest.len() ==> !is_closer(rest[k])) by {
                        assert(forall|k: int|
                            0 <= k < rest.len() ==> rest[k] == cur@[k + i] && !is_closer(
                                cur@[k + i],
                            ));
                    }
                    lemma_first_closer_none(rest);
                }
                go = false;
            } else {
                proof {
                    let rest = cur@.skip(i as int);
                    assert(rest[j - i] == cur@[j as int]);
                    assert(forall|k: int| 0 <= k < j - i ==> !is_closer(rest[k])) by {
                        assert(forall|k: int|
                            0 <= k < j - i ==> rest[k] == cur@[k + i] && !is_closer(cur@[k + i]));
                    }
                    lemma_first_closer_at(rest, j - i);
                }
                let mut next: Vec<u8> = Vec::new();
                let mut a: usize = 0;
                while a < i
                    invariant
                        i < n,
                        n == cur@.len(),
                        a <= i,
                        next@ == cur@.subrange(0, a as int),
                    decreases i - a,
                {
                    next.push(cur[a]);
                    proof {
                        assert(next@ =~= cur@.subrange(0, a + 1));
                    }
                    a = a + 1;
                }
                let mut b: usize = j + 1;
                while b < n
                    invariant
                        i <= j < n,
                        n == cur@.len(),
                        j + 1 <= b <= n,
                        next@ == cur@.subrange(0, i as int) + cur@.subrange(j + 1, b as int),
                    decreases n - b,
                {
                    next.push(cur[b]);
                    proof {
                        assert(next@ =~= cur@.subrange(0, i as int) + cur@.subrange(
                            j + 1,
                            b + 1,
                        ));
                    }
                    b = b + 1;
                }
                proof {
                    assert(cur@.subrange(0, i as int) =~= cur@.take(i as int));
                    assert(cur@.subrange(j + 1, n as int) =~= cur@.skip(j + 1));
                    assert(next@ == cur@.take(i as int) + cur@.skip(
                        i + first_closer(cur@.skip(i as int)) + 1,
                    ));
                    assert(strip_brackets(cur@) == strip_brackets(next@));
                }
                cur = next;
            }
        }
    }
    cur
}

/// Post-filter one raw model output.  The cleaned text is returned exactly
/// when the filter does not drop it as noise.
pub fn clean_transcription(text: &Vec<u8>) -> (r: Option<Vec<u8>>)
    ensures
        match r {
            Some(v) => clean_spec(text@) == Some(v@),
            None => clean_spec(text@) is None,
        },
{
    let t1: Vec<u8> = trim_bytes(text);
    let stripped: Vec<u8> = strip_brackets_bytes(&t1);
    let t: Vec<u8> = trim_bytes(&stripped);
    if t.len() == 0 {
        return None;
    }
    if t.len() == 3 && t[0] == 0x2E && t[1] == 0x2E && t[2] == 0x2E {
        proof {
            assert(t@ =~= seq![0x2Eu8, 0x2Eu8, 0x2Eu8]);
        }
        return None;
    }
    if t.len() >= 2 && t[0] == 0x5B && t[1] == 0x5F {
        return None;
    }
    proof {
        assert(t@ != seq![0x2Eu8, 0x2Eu8, 0x2Eu8]) by {
            if t@ == seq![0x2Eu8, 0x2Eu8, 0x2Eu8] {
                assert(t@.len() == 3 && t@[0] == 0x2E && t@[1] == 0x2E && t@[2] == 0x2E);
            }
        }
    }
    Some(t)
}

/// The texts the post-filter emits for a whole sequence of raw model
/// outputs, oldest first.
pub open spec fn emitted_texts(raw: Seq<Seq<u8>>) -> Seq<Seq<u8>>
    decreases raw.len(),
{
    if raw.len() == 0 {
        Seq::empty()
    } else {
        emitted_texts(raw.drop_last()) + (match clean_spec(raw.last()) {
            Some(t) => seq![t],
            None => Seq::empty(),
        })
    }
}

/// Order preservation through the post-filter: the texts emitted for the
/// first `n` raw outputs are a prefix of the texts emitted for all of them,
/// so two outputs handed over in order are emitted in that order.
pub proof fn lemma_emitted_order(raw: Seq<Seq<u8>>, n: int)
    requires
        0 <= n <= raw.len(),
    ensures
        emitted_texts(raw.take(n)).is_prefix_of(emitted_texts(raw)),
    decreases raw.len() - n,
{
    if n == raw.len() {
        assert(raw.take(n) =~= raw);
    } else {
        assert(raw.drop_last().take(n) =~= raw.take(n));
        lemma_emitted_order(raw.drop_last(), n);
    }
}

/// The same, between any two cut points: everything emitted for the first
/// `i` raw outputs stands, in order, before anything the outputs `i..j`
/// add.
pub proof fn lemma_emitted_order_pairwise(raw: Seq<Seq<u8>>, i: int, j: int)
    requires
        0 <= i <= j <= raw.len(),
    ensures
        emitted_texts(raw.take(i)).is_prefix_of(emitted_texts(raw.take(j))),
{
    assert(raw.take(j).take(i) =~= raw.take(i));
    lemma_emitted_order(raw.take(j), i);
}

} // verus!
