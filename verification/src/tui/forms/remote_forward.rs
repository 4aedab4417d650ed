//! The form for one remote forwarding rule.

use vstd::prelude::*;

use crate::tui::forms::connection::{next_index, prev_index};
use crate::byte_offsets::utf8_len;
use crate::tui::forms::{
    backspaced, can_backspace, can_input, inputted, moved_left, moved_right, TextField,
};
use crate::text::{push_str, string_of};

verus! {

/// The number of fields of a [`RemoteForwardForm`].
pub const REMOTE_FORWARD_FIELD_COUNT: usize = 4;

/// Form for a RemoteForward (server-side) forwarding entry.
pub struct RemoteForwardForm {
    pub relay_name: TextField,
    pub host: TextField,
    pub host_port: TextField,
    pub port_name: TextField,
    pub http: bool,
    pub active_field: usize,
}

/// `value`, or `fallback` when it is empty.
pub open spec fn or_else(value: Seq<char>, fallback: Seq<char>) -> Seq<char> {
    if value.len() == 0 {
        fallback
    } else {
        value
    }
}

/// The one-line summary of a rule: `{relay} → {host}:{port}`, then
/// ` (HTTP)` for an HTTP rule; an empty relay name shows as `<unnamed>`,
/// an empty host as `localhost` and an empty port as `?`.
pub open spec fn summary_text(
    relay: Seq<char>,
    host: Seq<char>,
    port: Seq<char>,
    http: bool,
) -> Seq<char> {
    or_else(relay, "<unnamed>"@) + " → "@ + or_else(host, "localhost"@) + ":"@ + or_else(
        port,
        "?"@,
    ) + if http {
        " (HTTP)"@
    } else {
        ""@
    }
}

/// Appends `value`, or `fallback` when it is empty.
fn push_or_else(out: &mut Vec<char>, value: &str, fallback: &str)
    ensures
        final(out)@ == old(out)@ + or_else(value@, fallback@),
{
    if value.is_empty() {
        push_str(out, fallback);
    } else {
        push_str(out, value);
    }
}

impl RemoteForwardForm {
    /// The field at position `i`, in display order.
    pub open spec fn field(&self, i: int) -> TextField {
        if i == 0 {
            self.relay_name
        } else if i == 1 {
            self.host
        } else if i == 2 {
            self.host_port
        } else {
            self.port_name
        }
    }

    /// `other` differs from `self` at most in field `i`, and has the same
    /// active field and HTTP flag.
    pub open spec fn same_except(&self, other: &Self, i: int) -> bool {
        &&& other.active_field == self.active_field
        &&& other.http == self.http
        &&& forall|j: int| 0 <= j < 4 && j != i ==> #[trigger] other.field(j) == self.field(j)
    }

    /// An empty TCP rule with the first field active.
    pub fn new() -> (r: Self)
        ensures
            r.active_field == 0,
            !r.http,
            r.relay_name.label == "Relay Name",
            r.host.label == "Host",
            r.host_port.label == "Host Port",
            r.port_name.label == "Port Name",
            forall|i: int| 0 <= i < 4 ==> (#[trigger] r.field(i)).value@ == Seq::<char>::empty(),
            forall|i: int| 0 <= i < 4 ==> (#[trigger] r.field(i)).cursor == 0,
    {
        RemoteForwardForm {
            relay_name: TextField::new("Relay Name"),
            host: TextField::new("Host"),
            host_port: TextField::new("Host Port"),
            port_name: TextField::new("Port Name"),
            http: false,
            active_field: 0,
        }
    }

    /// The fields in display order.
    pub fn fields(&self) -> (r: [&TextField; 4])
        ensures
            forall|i: int| 0 <= i < 4 ==> *r@[i] == self.field(i),
    {
        [&self.relay_name, &self.host, &self.host_port, &self.port_name]
    }

    /// The fields in display order, for editing.
    pub fn fields_mut(&mut self) -> (r: [&mut TextField; 4])
        ensures
            forall|i: int| 0 <= i < 4 ==> *r@[i] == old(self).field(i),
            forall|i: int| 0 <= i < 4 ==> final(self).field(i) == *final(r@[i]),
            final(self).active_field == old(self).active_field,
            final(self).http == old(self).http,
    {
        [&mut self.relay_name, &mut self.host, &mut self.host_port, &mut self.port_name]
    }

    /// The active field, for editing.
    fn active_field_mut(&mut self) -> (r: &mut TextField)
        requires
            old(self).active_field < 4,
        ensures
            *r == old(self).field(old(self).active_field as int),
            final(self).same_except(old(self), old(self).active_field as int),
            final(self).field(old(self).active_field as int) == *final(r),
    {
        let idx = self.active_field;
        if idx == 0 {
            &mut self.relay_name
        } else if idx == 1 {
            &mut self.host
        } else if idx == 2 {
            &mut self.host_port
        } else {
            &mut self.port_name
        }
    }

    /// Moves to the next field, wrapping to the first.
    pub fn next_field(&mut self)
        requires
            old(self).active_field < usize::MAX,
        ensures
            final(self).active_field == next_index(old(self).active_field as int, 4),
            final(self).http == old(self).http,
            forall|j: int| 0 <= j < 4 ==> #[trigger] final(self).field(j) == old(self).field(j),
    {
        self.active_field = (self.active_field + 1) % REMOTE_FORWARD_FIELD_COUNT;
    }

    /// Moves to the previous field, wrapping to the last.
    pub fn prev_field(&mut self)
        ensures
            final(self).active_field == prev_index(old(self).active_field as int, 4),
            final(self).http == old(self).http,
            forall|j: int| 0 <= j < 4 ==> #[trigger] final(self).field(j) == old(self).field(j),
    {
        self.active_field =
            if self.active_field == 0 {
                REMOTE_FORWARD_FIELD_COUNT - 1
            } else {
                self.active_field - 1
            };
    }

    /// Types a character into the active field.
    pub fn input_char(&mut self, c: char)
        requires
            old(self).active_field < 4,
            can_input(old(self).field(old(self).active_field as int)),
        ensures
            final(self).same_except(old(self), old(self).active_field as int),
            inputted(
                old(self).field(old(self).active_field as int),
                final(self).field(old(self).active_field as int),
                c,
            ),
    {
        self.active_field_mut().input_char(c);
    }

    /// Deletes the character before the cursor of the active field.
    pub fn backspace(&mut self)
        requires
            old(self).active_field < 4,
            can_backspace(old(self).field(old(self).active_field as int)),
        ensures
            final(self).same_except(old(self), old(self).active_field as int),
            backspaced(
                old(self).field(old(self).active_field as int),
                final(self).field(old(self).active_field as int),
            ),
    {
        self.active_field_mut().backspace();
    }

    /// Moves the cursor of the active field one byte left.
    pub fn cursor_left(&mut self)
        requires
            old(self).active_field < 4,
        ensures
            final(self).same_except(old(self), old(self).active_field as int),
            moved_left(
                old(self).field(old(self).active_field as int),
                final(self).field(old(self).active_field as int),
            ),
    {
        self.active_field_mut().cursor_left();
    }

    /// Moves the cursor of the active field one byte right.
    pub fn cursor_right(&mut self)
        requires
            old(self).active_field < 4,
            utf8_len(old(self).field(old(self).active_field as int).value@) <= usize::MAX,
        ensures
            final(self).same_except(old(self), old(self).active_field as int),
            moved_right(
                old(self).field(old(self).active_field as int),
                final(self).field(old(self).active_field as int),
            ),
    {
        self.active_field_mut().cursor_right();
    }

    /// The one-line summary shown in the list of rules.
    pub fn summary(&self) -> (r: String)
        ensures
            r@ == summary_text(
                self.relay_name.value@,
                self.host.value@,
                self.host_port.value@,
                self.http,
            ),
    {
        let mut out: Vec<char> = Vec::new();
        push_or_else(&mut out, self.relay_name.value.as_str(), "<unnamed>");
        push_str(&mut out, " → ");
        push_or_else(&mut out, self.host.value.as_str(), "localhost");
        push_str(&mut out, ":");
        push_or_else(&mut out, self.host_port.value.as_str(), "?");
        if self.http {
            push_str(&mut out, " (HTTP)");
        } else {
            push_str(&mut out, "");
        }
        let r = string_of(out.as_slice());
        assert(r@ =~= summary_text(
            self.relay_name.value@,
            self.host.value@,
            self.host_port.value@,
            self.http,
        ));
        r
    }
}

} // verus!
