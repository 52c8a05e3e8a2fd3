use vstd::prelude::*;

use crate::task::{blank, is_blank};

verus! {

/// What the user asks for at the menu.
#[derive(Debug, Clone, Copy, PartialEq, Eq, Structural)]
pub enum MenuAction {
    Create,
    Complete,
    Modify,
    Delete,
    ListIncomplete,
    Exit,
}

/// The action that a menu number selects: 1 create, 2 complete, 3 modify,
/// 4 delete, 5 list the incomplete tasks, 0 exit; any other number selects none.
pub open spec fn action_spec(option: int) -> Option<MenuAction> {
    if option == 1 {
        Some(MenuAction::Create)
    } else if option == 2 {
        Some(MenuAction::Complete)
    } else if option == 3 {
        Some(MenuAction::Modify)
    } else if option == 4 {
        Some(MenuAction::Delete)
    } else if option == 5 {
        Some(MenuAction::ListIncomplete)
    } else if option == 0 {
        Some(MenuAction::Exit)
    } else {
        None
    }
}

/// The action that the menu number `option` selects, if any.
pub fn action_for(option: i32) -> (r: Option<MenuAction>)
    ensures
        r == action_spec(option as int),
{
    match option {
        1 => Some(MenuAction::Create),
        2 => Some(MenuAction::Complete),
        3 => Some(MenuAction::Modify),
        4 => Some(MenuAction::Delete),
        5 => Some(MenuAction::ListIncomplete),
        0 => Some(MenuAction::Exit),
        _ => None,
    }
}

/// A field answer left blank means "keep the current value": it gives `None`;
/// any other answer is the new value.
pub fn field_if_given(answer: String) -> (r: Option<String>)
    ensures
        blank(answer@) <==> r is None,
        r matches Some(s) ==> s@ == answer@,
{
    if is_blank(answer.as_str()) {
        None
    } else {
        Some(answer)
    }
}

} // verus!
