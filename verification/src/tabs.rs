//! The fixed, ordered list of screens and the controls each one declares.

use crate::control::ControlId;
use vstd::prelude::*;

verus! {

/// The five screens, in the order they are cycled through.
#[derive(Clone, Copy, Debug, PartialEq, Eq, Structural)]
pub enum Tab {
    Home,
    Start,
    Out,
    End,
    ClearState,
}

/// How many tabs there are.
pub open spec fn tab_count() -> int {
    5
}

impl Tab {
    /// This tab's position in the fixed tab list.
    pub open spec fn index(self) -> int {
        match self {
            Tab::Home => 0,
            Tab::Start => 1,
            Tab::Out => 2,
            Tab::End => 3,
            Tab::ClearState => 4,
        }
    }

    /// The tab at the given position; out-of-range positions fall back to
    /// the home tab.
    pub open spec fn spec_from_index(i: int) -> Tab {
        if i == 1 {
            Tab::Start
        } else if i == 2 {
            Tab::Out
        } else if i == 3 {
            Tab::End
        } else if i == 4 {
            Tab::ClearState
        } else {
            Tab::Home
        }
    }

    /// The ordered list of controls this tab shows.
    pub open spec fn controls(self) -> Seq<ControlId> {
        match self {
            Tab::Home => Seq::<ControlId>::empty(),
            Tab::Start => seq![ControlId::TaskName, ControlId::EndComment, ControlId::Submit],
            Tab::Out => seq![ControlId::EndComment, ControlId::Submit],
            Tab::End => seq![ControlId::EndComment, ControlId::Submit],
            Tab::ClearState => seq![ControlId::Submit],
        }
    }

    /// The control that receives focus when this tab is entered: the first
    /// of its control list, or none on a tab without controls.
    pub open spec fn first_control(self) -> Option<ControlId> {
        if self.controls().len() == 0 {
            None
        } else {
            Some(self.controls()[0])
        }
    }

    /// The executable counterpart of `spec_from_index`.
    pub fn from_index(i: usize) -> (t: Tab)
        ensures
            t == Tab::spec_from_index(i as int),
    {
        if i == 1 {
            Tab::Start
        } else if i == 2 {
            Tab::Out
        } else if i == 3 {
            Tab::End
        } else if i == 4 {
            Tab::ClearState
        } else {
            Tab::Home
        }
    }

    /// The name of this tab.
    pub open spec fn spec_title(self) -> Seq<char> {
        match self {
            Tab::Home => "Home"@,
            Tab::Start => "Start"@,
            Tab::Out => "Out"@,
            Tab::End => "End"@,
            Tab::ClearState => "Clear State"@,
        }
    }

    /// The displayed name of this tab.
    pub fn title(&self) -> (r: String)
        ensures
            r@ == self.spec_title(),
    {
        match self {
            Tab::Home => "Home".to_owned(),
            Tab::Start => "Start".to_owned(),
            Tab::Out => "Out".to_owned(),
            Tab::End => "End".to_owned(),
            Tab::ClearState => "Clear State".to_owned(),
        }
    }

    /// The five tab names, in tab order.
    pub fn as_string_vec() -> (r: Vec<String>)
        ensures
            r@.len() == tab_count(),
            forall|i: int|
                0 <= i < tab_count() ==> r@[i]@ == Tab::spec_from_index(i).spec_title(),
    {
        let mut r: Vec<String> = Vec::new();
        r.push(Tab::Home.title());
        r.push(Tab::Start.title());
        r.push(Tab::Out.title());
        r.push(Tab::End.title());
        r.push(Tab::ClearState.title());
        r
    }
}

} // verus!
