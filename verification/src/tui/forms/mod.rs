//! Form state of the interactive configuration editor: text fields with a
//! byte cursor, and the forms built from them.

pub mod connection;
pub mod remote_forward;

pub use connection::ConnectionForm;
pub use remote_forward::RemoteForwardForm;

use vstd::prelude::*;

use crate::byte_offsets::{
    char_index_at, lemma_starts_char_unique, lemma_utf8_len_step, longer_than, on_boundary,
    starts_char, utf8_len,
};
use crate::text::{chars_of, push_chars, string_of};

verus! {

/// A single text input field with cursor tracking.
///
/// The cursor is a byte offset into `value`, as `String::insert` and
/// `String::remove` take it.
#[derive(Debug, Clone)]
pub struct TextField {
    pub label: &'static str,
    pub value: String,
    pub cursor: usize,
}

/// `input_char` can insert at the cursor: it lies on a character boundary
/// and can still be advanced.
pub open spec fn can_input(t: TextField) -> bool {
    &&& on_boundary(t.value@, t.cursor as int)
    &&& t.cursor < usize::MAX
}

/// `t2` is `t1` with `c` inserted at the cursor and the cursor advanced by
/// one byte.
pub open spec fn inputted(t1: TextField, t2: TextField, c: char) -> bool {
    &&& t2.label == t1.label
    &&& t2.cursor == t1.cursor + 1
    &&& exists|k: int|
        #![trigger starts_char(t1.value@, k, t1.cursor as int)]
        starts_char(t1.value@, k, t1.cursor as int) && t2.value@ == t1.value@.take(k).push(c)
            + t1.value@.skip(k)
}

/// `backspace` can remove the character before the cursor: when the cursor
/// is not at the start, one byte before it starts a character.
pub open spec fn can_backspace(t: TextField) -> bool {
    t.cursor > 0 ==> exists|k: int|
        #![trigger starts_char(t.value@, k, t.cursor - 1)]
        starts_char(t.value@, k, t.cursor - 1) && k < t.value@.len()
}

/// `t2` is `t1` after `backspace`: at the start nothing changes; otherwise
/// the cursor moves back one byte and the character starting there is
/// removed.
pub open spec fn backspaced(t1: TextField, t2: TextField) -> bool {
    &&& t2.label == t1.label
    &&& if t1.cursor == 0 {
        t2.cursor == 0 && t2.value@ == t1.value@
    } else {
        &&& t2.cursor == t1.cursor - 1
        &&& exists|k: int|
            #![trigger starts_char(t1.value@, k, t1.cursor - 1)]
            starts_char(t1.value@, k, t1.cursor - 1) && k < t1.value@.len() && t2.value@
                == t1.value@.remove(k)
    }
}

/// `t2` is `t1` with the cursor moved one byte left, unless at the start.
pub open spec fn moved_left(t1: TextField, t2: TextField) -> bool {
    &&& t2.label == t1.label
    &&& t2.value@ == t1.value@
    &&& t2.cursor == if t1.cursor > 0 {
        (t1.cursor - 1) as usize
    } else {
        t1.cursor
    }
}

/// `t2` is `t1` with the cursor moved one byte right, unless at the end.
pub open spec fn moved_right(t1: TextField, t2: TextField) -> bool {
    &&& t2.label == t1.label
    &&& t2.value@ == t1.value@
    &&& t2.cursor == if t1.cursor < utf8_len(t1.value@) {
        (t1.cursor + 1) as usize
    } else {
        t1.cursor
    }
}

impl TextField {
    /// An empty field with the given label.
    pub fn new(label: &'static str) -> (r: Self)
        ensures
            r.label == label,
            r.value@ == Seq::<char>::empty(),
            r.cursor == 0,
    {
        TextField { label, value: String::new(), cursor: 0 }
    }

    /// Inserts a character at the cursor and advances the cursor by one byte.
    pub fn input_char(&mut self, c: char)
        requires
            can_input(*old(self)),
        ensures
            inputted(*old(self), *final(self), c),
    {
        let chars = chars_of(self.value.as_str());
        let k = match char_index_at(chars.as_slice(), self.cursor) {
            Some(k) => k,
            None => {
                return ;
            },
        };
        let n = chars.len();
        let mut v: Vec<char> = Vec::new();
        push_chars(&mut v, &chars.as_slice()[0..k]);
        v.push(c);
        push_chars(&mut v, &chars.as_slice()[k..n]);
        let ghost old_value = self.value@;
        self.value = string_of(v.as_slice());
        self.cursor = self.cursor + 1;
        assert(self.value@ =~= old_value.take(k as int).push(c) + old_value.skip(k as int));
    }

    /// Removes the character before the cursor.
    pub fn backspace(&mut self)
        requires
            can_backspace(*old(self)),
        ensures
            backspaced(*old(self), *final(self)),
    {
        if self.cursor > 0 {
            let chars = chars_of(self.value.as_str());
            let at = self.cursor - 1;
            let k = match char_index_at(chars.as_slice(), at) {
                Some(k) => k,
                None => {
                    return ;
                },
            };
            proof {
                let k0 = choose|k0: int|
                    #![trigger starts_char(self.value@, k0, self.cursor - 1)]
                    starts_char(self.value@, k0, self.cursor - 1) && k0 < self.value@.len();
                lemma_starts_char_unique(self.value@, k as int, k0, self.cursor - 1);
            }
            let n = chars.len();
            let mut v: Vec<char> = Vec::new();
            push_chars(&mut v, &chars.as_slice()[0..k]);
            push_chars(&mut v, &chars.as_slice()[k + 1..n]);
            let ghost old_value = self.value@;
            self.cursor = at;
            self.value = string_of(v.as_slice());
            assert(self.value@ =~= old_value.remove(k as int));
        }
    }

    /// Moves the cursor one byte left, unless at the start.
    pub fn cursor_left(&mut self)
        ensures
            moved_left(*old(self), *final(self)),
    {
        if self.cursor > 0 {
            self.cursor = self.cursor - 1;
        }
    }

    /// Moves the cursor one byte right, unless at the end.
    pub fn cursor_right(&mut self)
        requires
            utf8_len(old(self).value@) <= usize::MAX,
        ensures
            moved_right(*old(self), *final(self)),
    {
        let chars = chars_of(self.value.as_str());
        if longer_than(chars.as_slice(), self.cursor) {
            self.cursor = self.cursor + 1;
        }
    }
}

/// Typing a character and then deleting it gives back the field: the text
/// and the cursor are as before.
pub proof fn law_input_then_backspace(t1: TextField, t2: TextField, t3: TextField, c: char)
    requires
        can_input(t1),
        inputted(t1, t2, c),
        backspaced(t2, t3),
    ensures
        can_backspace(t2),
        t3.value@ == t1.value@,
        t3.cursor == t1.cursor,
        t3.label == t1.label,
{
    let k = choose|k: int|
        starts_char(t1.value@, k, t1.cursor as int) && t2.value@ == t1.value@.take(k).push(c)
            + t1.value@.skip(k);
    assert(t2.value@.take(k) =~= t1.value@.take(k));
    assert(starts_char(t2.value@, k, t2.cursor - 1));
    let j = choose|j: int|
        starts_char(t2.value@, j, t2.cursor - 1) && j < t2.value@.len() && t3.value@
            == t2.value@.remove(j);
    lemma_starts_char_unique(t2.value@, j, k, t2.cursor - 1);
    assert(t2.value@.remove(k) =~= t1.value@);
}

/// Moving right and then left returns the cursor to where it was, whenever
/// the cursor was before the end of the text.
pub proof fn law_right_then_left(t1: TextField, t2: TextField, t3: TextField)
    requires
        t1.cursor < utf8_len(t1.value@),
        utf8_len(t1.value@) <= usize::MAX,
        moved_right(t1, t2),
        moved_left(t2, t3),
    ensures
        t3.cursor == t1.cursor,
        t3.value@ == t1.value@,
{
}

} // verus!
