//! Byte offsets into UTF-8 text, measured over its characters.
//!
//! A `String` is indexed by byte while its view is a sequence of
//! characters; these definitions relate the two.

use vstd::prelude::*;

verus! {

/// The number of bytes of a character's UTF-8 encoding (`char::len_utf8`).
pub open spec fn utf8_width(c: char) -> nat {
    if (c as u32) < 0x80 {
        1
    } else if (c as u32) < 0x800 {
        2
    } else if (c as u32) < 0x10000 {
        3
    } else {
        4
    }
}

/// The number of bytes of the UTF-8 encoding of a character sequence.
pub open spec fn utf8_len(s: Seq<char>) -> nat
    decreases s.len(),
{
    if s.len() == 0 {
        0
    } else {
        utf8_len(s.drop_last()) + utf8_width(s.last())
    }
}

/// Byte offset `b` is where the `k`-th character starts (the end of the
/// text when `k` is its length).
pub open spec fn starts_char(s: Seq<char>, k: int, b: int) -> bool {
    0 <= k <= s.len() && utf8_len(s.take(k)) == b
}

/// Byte offset `b` lies on a character boundary.
pub open spec fn on_boundary(s: Seq<char>, b: int) -> bool {
    exists|k: int| starts_char(s, k, b)
}

/// The prefix of one more character is longer by that character's width.
pub proof fn lemma_utf8_len_step(s: Seq<char>, k: int)
    requires
        0 <= k < s.len(),
    ensures
        utf8_len(s.take(k + 1)) == utf8_len(s.take(k)) + utf8_width(s[k]),
{
    assert(s.take(k + 1).drop_last() =~= s.take(k));
}

/// Longer prefixes have strictly more bytes.
pub proof fn lemma_utf8_len_strict(s: Seq<char>, j: int, k: int)
    requires
        0 <= j < k <= s.len(),
    ensures
        utf8_len(s.take(j)) < utf8_len(s.take(k)),
    decreases k - j,
{
    lemma_utf8_len_step(s, k - 1);
    if j < k - 1 {
        lemma_utf8_len_strict(s, j, k - 1);
    }
}

/// Longer or equal prefixes have at least as many bytes.
pub proof fn lemma_utf8_len_mono(s: Seq<char>, j: int, k: int)
    requires
        0 <= j <= k <= s.len(),
    ensures
        utf8_len(s.take(j)) <= utf8_len(s.take(k)),
{
    if j < k {
        lemma_utf8_len_strict(s, j, k);
    }
}

/// A byte offset starts at most one character.
pub proof fn lemma_starts_char_unique(s: Seq<char>, j: int, k: int, b: int)
    requires
        starts_char(s, j, b),
        starts_char(s, k, b),
    ensures
        j == k,
{
    if j < k {
        lemma_utf8_len_strict(s, j, k);
    }
    if k < j {
        lemma_utf8_len_strict(s, k, j);
    }
}

/// `char::len_utf8`.
pub fn char_width(c: char) -> (r: usize)
    ensures
        r == utf8_width(c),
        1 <= r <= 4,
{
    let u = c as u32;
    if u < 0x80 {
        1
    } else if u < 0x800 {
        2
    } else if u < 0x10000 {
        3
    } else {
        4
    }
}

/// The index of the character that starts at byte offset `b`, if any.
pub fn char_index_at(s: &[char], b: usize) -> (r: Option<usize>)
    ensures
        match r {
            Some(k) => starts_char(s@, k as int, b as int),
            None => !on_boundary(s@, b as int),
        },
{
    let mut i: usize = 0;
    let mut acc: usize = 0;
    while i < s.len()
        invariant
            i <= s@.len(),
            acc == utf8_len(s@.take(i as int)),
            acc <= b,
            forall|k: int| 0 <= k < i ==> utf8_len(#[trigger] s@.take(k)) != b,
        decreases s@.len() - i,
    {
        if acc == b {
            return Some(i);
        }
        let w = char_width(s[i]);
        proof {
            lemma_utf8_len_step(s@, i as int);
        }
        if w > b - acc {
            proof {
                assert forall|k: int| #[trigger] starts_char(s@, k, b as int) implies false by {
                    if k > i {
                        lemma_utf8_len_mono(s@, i + 1, k);
                    }
                }
            }
            return None;
        }
        acc = acc + w;
        i = i + 1;
    }
    if acc == b {
        Some(i)
    } else {
        proof {
            assert forall|k: int| #[trigger] starts_char(s@, k, b as int) implies false by {
                if k == s@.len() {
                    assert(s@.take(k) =~= s@.take(i as int));
                }
            }
        }
        None
    }
}

/// Whether the text is longer than `b` bytes.
pub fn longer_than(s: &[char], b: usize) -> (r: bool)
    ensures
        r == (utf8_len(s@) > b),
{
    let mut i: usize = 0;
    let mut acc: usize = 0;
    while i < s.len()
        invariant
            i <= s@.len(),
            acc == utf8_len(s@.take(i as int)),
            acc <= b,
        decreases s@.len() - i,
    {
        let w = char_width(s[i]);
        proof {
            lemma_utf8_len_step(s@, i as int);
        }
        if w > b - acc {
            proof {
                lemma_utf8_len_mono(s@, i + 1, s@.len() as int);
                assert(s@.take(s@.len() as int) =~= s@);
            }
            return true;
        }
        acc = acc + w;
        i = i + 1;
    }
    assert(s@.take(s@.len() as int) =~= s@);
    false
}

} // verus!
