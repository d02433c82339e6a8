//! View-layer state: menu options and the view objects the console program
//! drives. Prompting and printing stay with the caller; what can be computed
//! about a view is verified here.

use vstd::prelude::*;

use crate::console::Console;

verus! {

/// What the item menu offers.
#[derive(Clone, Copy, Debug, PartialEq, Eq, Structural)]
pub enum ItemMenuOption {
    DisplayItemInfo,
    EditItemInfo,
    GetItemInfo,
    Other,
}

impl ItemMenuOption {
    /// The menu option behind a selection index; any index off the menu is
    /// the catch-all `Other`.
    pub fn from_index(choice: usize) -> (r: ItemMenuOption)
        ensures
            choice == 0 ==> r == ItemMenuOption::DisplayItemInfo,
            choice == 1 ==> r == ItemMenuOption::EditItemInfo,
            choice == 2 ==> r == ItemMenuOption::GetItemInfo,
            choice >= 3 ==> r == ItemMenuOption::Other,
    {
        if choice == 0 {
            ItemMenuOption::DisplayItemInfo
        } else if choice == 1 {
            ItemMenuOption::EditItemInfo
        } else if choice == 2 {
            ItemMenuOption::GetItemInfo
        } else {
            ItemMenuOption::Other
        }
    }
}

/// The console-driven item view: it owns the console whose queued lines the
/// surrounding program prints.
#[derive(Debug)]
pub struct CliItemView {
    pub console: Console,
}

impl CliItemView {
    /// An item view over an empty console.
    pub fn new() -> (r: CliItemView)
        ensures
            r.console@ == Seq::<Seq<char>>::empty(),
    {
        CliItemView { console: Console::new() }
    }
}

/// The console-driven member view.
#[derive(Debug)]
pub struct MemberView;

impl MemberView {
    pub fn new() -> (r: MemberView) {
        MemberView {}
    }
}

} // verus!
