//! The connection settings form.

use vstd::prelude::*;
use vstd::arithmetic::div_mod::{lemma_mod_self_0, lemma_small_mod};

use crate::byte_offsets::utf8_len;
use crate::tui::forms::{
    backspaced, can_backspace, can_input, inputted, moved_left, moved_right, TextField,
};

verus! {

/// The number of fields of a [`ConnectionForm`].
pub const CONNECTION_FIELD_COUNT: usize = 5;

/// The field after `i` of a form of `n` fields, wrapping to the first.
pub open spec fn next_index(i: int, n: int) -> int {
    (i + 1) % n
}

/// The field before `i` of a form of `n` fields, wrapping to the last.
pub open spec fn prev_index(i: int, n: int) -> int {
    if i == 0 {
        n - 1
    } else {
        i - 1
    }
}

/// Form for Azure Relay connection settings (shared between client and server).
pub struct ConnectionForm {
    pub endpoint: TextField,
    pub connection_string: TextField,
    pub sas_key_name: TextField,
    pub sas_key: TextField,
    pub log_level: TextField,
    pub active_field: usize,
}

impl ConnectionForm {
    /// The field at position `i`, in display order.
    pub open spec fn field(&self, i: int) -> TextField {
        if i == 0 {
            self.endpoint
        } else if i == 1 {
            self.connection_string
        } else if i == 2 {
            self.sas_key_name
        } else if i == 3 {
            self.sas_key
        } else {
            self.log_level
        }
    }

    /// `other` differs from `self` at most in field `i`, and has the same
    /// active field.
    pub open spec fn same_except(&self, other: &Self, i: int) -> bool {
        &&& other.active_field == self.active_field
        &&& forall|j: int| 0 <= j < 5 && j != i ==> #[trigger] other.field(j) == self.field(j)
    }

    /// An empty form with the first field active.
    pub fn new() -> (r: Self)
        ensures
            r.active_field == 0,
            r.endpoint.label == "Endpoint URI",
            r.connection_string.label == "Connection String",
            r.sas_key_name.label == "SAS Key Name",
            r.sas_key.label == "SAS Key",
            r.log_level.label == "Log Level",
            forall|i: int| 0 <= i < 5 ==> (#[trigger] r.field(i)).value@ == Seq::<char>::empty(),
            forall|i: int| 0 <= i < 5 ==> (#[trigger] r.field(i)).cursor == 0,
    {
        ConnectionForm {
            endpoint: TextField::new("Endpoint URI"),
            connection_string: TextField::new("Connection String"),
            sas_key_name: TextField::new("SAS Key Name"),
            sas_key: TextField::new("SAS Key"),
            log_level: TextField::new("Log Level"),
            active_field: 0,
        }
    }

    /// The fields in display order.
    pub fn fields(&self) -> (r: [&TextField; 5])
        ensures
            forall|i: int| 0 <= i < 5 ==> *r@[i] == self.field(i),
    {
        [&self.endpoint, &self.connection_string, &self.sas_key_name, &self.sas_key, &self.log_level]
    }

    /// The fields in display order, for editing.
    pub fn fields_mut(&mut self) -> (r: [&mut TextField; 5])
        ensures
            forall|i: int| 0 <= i < 5 ==> *r@[i] == old(self).field(i),
            forall|i: int| 0 <= i < 5 ==> final(self).field(i) == *final(r@[i]),
            final(self).active_field == old(self).active_field,
    {
        [
            &mut self.endpoint,
            &mut self.connection_string,
            &mut self.sas_key_name,
            &mut self.sas_key,
            &mut self.log_level,
        ]
    }

    /// The active field, for editing.
    fn active_field_mut(&mut self) -> (r: &mut TextField)
        requires
            old(self).active_field < 5,
        ensures
            *r == old(self).field(old(self).active_field as int),
            final(self).same_except(old(self), old(self).active_field as int),
            final(self).field(old(self).active_field as int) == *final(r),
    {
        let idx = self.active_field;
        if idx == 0 {
            &mut self.endpoint
        } else if idx == 1 {
            &mut self.connection_string
        } else if idx == 2 {
            &mut self.sas_key_name
        } else if idx == 3 {
            &mut self.sas_key
        } else {
            &mut self.log_level
        }
    }

    /// Moves to the next field, wrapping to the first.
    pub fn next_field(&mut self)
        requires
            old(self).active_field < usize::MAX,
        ensures
            final(self).active_field == next_index(old(self).active_field as int, 5),
            forall|j: int| 0 <= j < 5 ==> #[trigger] final(self).field(j) == old(self).field(j),
    {
        self.active_field = (self.active_field + 1) % CONNECTION_FIELD_COUNT;
    }

    /// Moves to the previous field, wrapping to the last.
    pub fn prev_field(&mut self)
        ensures
            final(self).active_field == prev_index(old(self).active_field as int, 5),
            forall|j: int| 0 <= j < 5 ==> #[trigger] final(self).field(j) == old(self).field(j),
    {
        self.active_field =
            if self.active_field == 0 {
                CONNECTION_FIELD_COUNT - 1
            } else {
                self.active_field - 1
            };
    }

    /// Types a character into the active field.
    pub fn input_char(&mut self, c: char)
        requires
            old(self).active_field < 5,
            can_input(old(self).field(old(self).active_field as int)),
        ensures
            final(self).same_except(old(self), old(self).active_field as int),
            inputted(
                old(self).field(old(self).active_field as int),
                final(self).field(old(self).active_field as int),
                c,
            ),
    {
        self.active_field_mut().input_char(c);
    }

    /// Deletes the character before the cursor of the active field.
    pub fn backspace(&mut self)
        requires
            old(self).active_field < 5,
            can_backspace(old(self).field(old(self).active_field as int)),
        ensures
            final(self).same_except(old(self), old(self).active_field as int),
            backspaced(
                old(self).field(old(self).active_field as int),
                final(self).field(old(self).active_field as int),
            ),
    {
        self.active_field_mut().backspace();
    }

    /// Moves the cursor of the active field one byte left.
    pub fn cursor_left(&mut self)
        requires
            old(self).active_field < 5,
        ensures
            final(self).same_except(old(self), old(self).active_field as int),
            moved_left(
                old(self).field(old(self).active_field as int),
                final(self).field(old(self).active_field as int),
            ),
    {
        self.active_field_mut().cursor_left();
    }

    /// Moves the cursor of the active field one byte right.
    pub fn cursor_right(&mut self)
        requires
            old(self).active_field < 5,
            utf8_len(old(self).field(old(self).active_field as int).value@) <= usize::MAX,
        ensures
            final(self).same_except(old(self), old(self).active_field as int),
            moved_right(
                old(self).field(old(self).active_field as int),
                final(self).field(old(self).active_field as int),
            ),
    {
        self.active_field_mut().cursor_right();
    }
}

/// Moving to the next field and then back to the previous one returns to
/// the field one started from, for a form of any number of fields.
pub proof fn law_next_then_prev(i: int, n: int)
    requires
        0 <= i < n,
    ensures
        prev_index(next_index(i, n), n) == i,
        0 <= next_index(i, n) < n,
{
    lemma_next_index(i, n);
}

/// Moving to the previous field and then to the next one returns to the
/// field one started from.
pub proof fn law_prev_then_next(i: int, n: int)
    requires
        0 <= i < n,
    ensures
        next_index(prev_index(i, n), n) == i,
        0 <= prev_index(i, n) < n,
{
    lemma_next_index(prev_index(i, n), n);
}

/// The next field is one further, or the first after the last.
pub proof fn lemma_next_index(i: int, n: int)
    requires
        0 <= i < n,
    ensures
        next_index(i, n) == if i + 1 < n {
            i + 1
        } else {
            0
        },
{
    if i + 1 < n {
        lemma_small_mod((i + 1) as nat, n as nat);
    } else {
        lemma_mod_self_0(n);
    }
}

} // verus!
