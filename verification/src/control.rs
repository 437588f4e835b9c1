//! The interactive controls: two text inputs and a submit button, and the
//! tagged union over them. At most one control is focused at a time; which
//! one is tracked by `ControlId` in the focus state, never by a shared
//! handle to the control itself.

use vstd::prelude::*;

verus! {

/// Names one of the three controls a screen may show. The focus state
/// stores one of these instead of a reference to the live control.
#[derive(Clone, Copy, Debug, PartialEq, Eq, Structural)]
pub enum ControlId {
    TaskName,
    EndComment,
    Submit,
}

/// A text input: a transient edit buffer plus a focus flag.
pub struct Input {
    pub is_focused: bool,
    pub input: String,
}

impl Input {
    /// An unfocused input with an empty buffer.
    pub fn init() -> (r: Input)
        ensures
            r.is_focused == false,
            r.input@ == Seq::<char>::empty(),
    {
        Input { is_focused: false, input: String::new() }
    }

    /// Empties the buffer and drops focus.
    pub fn clear_input(&mut self)
        ensures
            final(self).is_focused == false,
            final(self).input@ == Seq::<char>::empty(),
    {
        self.input = String::new();
        self.is_focused = false;
    }

    pub fn toggle_focus(&mut self)
        ensures
            final(self).is_focused == !old(self).is_focused,
            final(self).input == old(self).input,
    {
        self.is_focused = !self.is_focused;
    }

    pub fn set_focus(&mut self)
        ensures
            final(self).is_focused == true,
            final(self).input == old(self).input,
    {
        self.is_focused = true;
    }

    pub fn unset_focus(&mut self)
        ensures
            final(self).is_focused == false,
            final(self).input == old(self).input,
    {
        self.is_focused = false;
    }

    /// Appends one character to the buffer.
    pub fn add_char_to_input(&mut self, c: char)
        ensures
            final(self).input@ == old(self).input@.push(c),
            final(self).is_focused == old(self).is_focused,
    {
        crate::strutil::push_char(&mut self.input, c);
    }

    /// Removes exactly one trailing character, whole even when it takes
    /// several bytes to store; a no-op on an empty buffer.
    pub fn remove_last_char_from_input(&mut self)
        ensures
            final(self).is_focused == old(self).is_focused,
            old(self).input@.len() == 0 ==> final(self).input == old(self).input,
            old(self).input@.len() > 0 ==> final(self).input@ == old(self).input@.drop_last(),
    {
        let n = self.input.as_str().unicode_len();
        if n == 0 {
            return;
        }
        let shorter = self.input.as_str().substring_char(0, n - 1).to_owned();
        assert(shorter@ =~= self.input@.drop_last());
        self.input = shorter;
    }
}

/// A submit button: focusable, no buffer.
pub struct SubmitButton {
    pub is_focused: bool,
}

impl SubmitButton {
    /// An unfocused button.
    pub fn init() -> (r: SubmitButton)
        ensures
            r.is_focused == false,
    {
        SubmitButton { is_focused: false }
    }

    pub fn toggle_focus(&mut self)
        ensures
            final(self).is_focused == !old(self).is_focused,
    {
        self.is_focused = !self.is_focused;
    }

    pub fn set_focus(&mut self)
        ensures
            final(self).is_focused == true,
    {
        self.is_focused = true;
    }

    pub fn unset_focus(&mut self)
        ensures
            final(self).is_focused == false,
    {
        self.is_focused = false;
    }
}

/// The closed set of control variants, each owning its own state.
pub enum Control {
    EndCommentInput(Input),
    TaskNameInput(Input),
    SubmitBtn(SubmitButton),
}

impl Control {
    /// Which control this variant is.
    pub open spec fn kind(self) -> ControlId {
        match self {
            Control::TaskNameInput(_) => ControlId::TaskName,
            Control::EndCommentInput(_) => ControlId::EndComment,
            Control::SubmitBtn(_) => ControlId::Submit,
        }
    }

    /// The edit buffer carried by this control; a button carries none.
    pub open spec fn buffer(self) -> Seq<char> {
        match self {
            Control::TaskNameInput(i) => i.input@,
            Control::EndCommentInput(i) => i.input@,
            Control::SubmitBtn(_) => Seq::<char>::empty(),
        }
    }

    /// Whether this control's focus flag is set.
    pub open spec fn focused(self) -> bool {
        match self {
            Control::TaskNameInput(i) => i.is_focused,
            Control::EndCommentInput(i) => i.is_focused,
            Control::SubmitBtn(b) => b.is_focused,
        }
    }

    /// Clears the buffer and drops focus on a text input; leaves a button
    /// untouched.
    pub fn clear_input(&mut self)
        ensures
            final(self).kind() == old(self).kind(),
            final(self).buffer() == Seq::<char>::empty(),
            final(self).focused() == match old(self) {
                Control::SubmitBtn(_) => old(self).focused(),
                _ => false,
            },
    {
        match self {
            Control::TaskNameInput(state) => state.clear_input(),
            Control::EndCommentInput(state) => state.clear_input(),
            Control::SubmitBtn(_) => {}
        }
    }

    pub fn toggle_focus(&mut self)
        ensures
            final(self).kind() == old(self).kind(),
            final(self).buffer() == old(self).buffer(),
            final(self).focused() == !old(self).focused(),
    {
        match self {
            Control::TaskNameInput(state) => state.toggle_focus(),
            Control::EndCommentInput(state) => state.toggle_focus(),
            Control::SubmitBtn(state) => state.toggle_focus(),
        }
    }

    pub fn set_focus(&mut self)
        ensures
            final(self).kind() == old(self).kind(),
            final(self).buffer() == old(self).buffer(),
            final(self).focused() == true,
    {
        match self {
            Control::TaskNameInput(state) => state.set_focus(),
            Control::EndCommentInput(state) => state.set_focus(),
            Control::SubmitBtn(state) => state.set_focus(),
        }
    }

    pub fn unset_focus(&mut self)
        ensures
            final(self).kind() == old(self).kind(),
            final(self).buffer() == old(self).buffer(),
            final(self).focused() == false,
    {
        match self {
            Control::TaskNameInput(state) => state.unset_focus(),
            Control::EndCommentInput(state) => state.unset_focus(),
            Control::SubmitBtn(state) => state.unset_focus(),
        }
    }
}

} // verus!
