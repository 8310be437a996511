//! What the icon in the tray shows and does.
use crate::text::{joined3, same_text};
use vstd::prelude::*;

verus! {

pub const TRAY_MENU_SHOW: &'static str = "show_main_window";

pub const TRAY_MENU_QUIT: &'static str = "quit_app";

/// The popup of the tray.
pub struct Popup {
    pinned: bool,
}

impl Popup {
    /// Whether the popup stays when it is left.
    pub closed spec fn stays(self) -> bool {
        self.pinned
    }

    /// A popup that goes when it is left.
    pub fn new() -> (r: Popup)
        ensures
            !r.stays(),
    {
        Popup { pinned: false }
    }
}

/// Lets the popup stay when it is left, or go.
pub fn set_popup_pinned(popup: &mut Popup, pinned: bool)
    ensures
        final(popup).stays() == pinned,
{
    popup.pinned = pinned;
}

/// Whether the popup stays when it is left.
pub fn is_popup_pinned(popup: &Popup) -> (r: bool)
    ensures
        r == popup.stays(),
{
    popup.pinned
}

/// Whether the popup is hidden when something else is turned to: another
/// window, or the main one.
pub fn hides_when_left(popup: &Popup) -> (r: bool)
    ensures
        r == !popup.stays(),
{
    !popup.pinned
}

/// What a click on the icon does.
#[derive(Clone, Copy, Debug, PartialEq, Eq, Structural)]
pub enum ClickAction {
    Hide,
    /// Put it beside the icon and show it.
    Show,
    /// Make it, then put it beside the icon and show it.
    Create,
}

/// What a click on the icon does, given whether there is a popup and whether it
/// can be seen.
pub fn on_click(present: bool, visible: bool) -> (r: ClickAction)
    ensures
        r == if !present {
            ClickAction::Create
        } else if visible {
            ClickAction::Hide
        } else {
            ClickAction::Show
        },
{
    if !present {
        ClickAction::Create
    } else if visible {
        ClickAction::Hide
    } else {
        ClickAction::Show
    }
}

/// What an entry of the menu does.
#[derive(Clone, Copy, Debug, PartialEq, Eq, Structural)]
pub enum MenuAction {
    ShowMainWindow,
    Quit,
    Nothing,
}

/// What an entry of the menu does.
pub fn on_menu(id: &str) -> (r: MenuAction)
    ensures
        r == if id@ == TRAY_MENU_SHOW@ {
            MenuAction::ShowMainWindow
        } else if id@ == TRAY_MENU_QUIT@ {
            MenuAction::Quit
        } else {
            MenuAction::Nothing
        },
{
    if same_text(id, TRAY_MENU_SHOW) {
        MenuAction::ShowMainWindow
    } else if same_text(id, TRAY_MENU_QUIT) {
        MenuAction::Quit
    } else {
        MenuAction::Nothing
    }
}

/// The account in use, as the icon shows it. What is left of its quota is
/// written in whole percent.
#[derive(Clone, Debug)]
pub struct TrayAccount {
    pub name: String,
    /// What is left of five hours, and of the week.
    pub quota: Option<(String, String)>,
}

/// What is left of a quota.
pub open spec fn quota_text(quota: Option<(String, String)>) -> Seq<char> {
    match quota {
        Some(q) => " | 5H: "@ + q.0@ + "%  周: "@ + q.1@ + "%"@,
        None => ""@,
    }
}

/// What the icon shows. `account` is the one in use, where there is one by its
/// id.
pub open spec fn tooltip_text(in_use: bool, account: Option<TrayAccount>) -> Seq<char> {
    if !in_use {
        "Codex Switcher - 未登录"@
    } else {
        match account {
            Some(a) => "Codex Switcher - "@ + a.name@ + quota_text(a.quota),
            None => "Codex Switcher"@,
        }
    }
}

/// What the icon shows, given whether an account is in use, and the account.
pub fn tooltip(in_use: bool, account: &Option<TrayAccount>) -> (r: String)
    ensures
        r@ == tooltip_text(in_use, *account),
{
    if !in_use {
        return "Codex Switcher - 未登录".to_owned();
    }
    match account {
        Some(a) => {
            let quota = match &a.quota {
                Some((five_hour, weekly)) => {
                    let front = joined3(" | 5H: ", five_hour.as_str(), "%  周: ");
                    joined3(front.as_str(), weekly.as_str(), "%")
                },
                None => "".to_owned(),
            };
            joined3("Codex Switcher - ", a.name.as_str(), quota.as_str())
        },
        None => "Codex Switcher".to_owned(),
    }
}

/// The icon shows the account in use by its name, and behind it what is left of
/// five hours and of the week where that is known; where none is in use, it says
/// so whatever else there is.
pub proof fn icon_shows_the_account_in_use(account: TrayAccount, other: Option<TrayAccount>)
    ensures
        account.quota is None ==> tooltip_text(true, Some(account)) == "Codex Switcher - "@
            + account.name@,
        account.quota is Some ==> tooltip_text(true, Some(account)) == "Codex Switcher - "@
            + account.name@ + (" | 5H: "@ + account.quota->Some_0.0@ + "%  周: "@
            + account.quota->Some_0.1@ + "%"@),
        tooltip_text(true, None) == "Codex Switcher"@,
        tooltip_text(false, other) == "Codex Switcher - 未登录"@,
{
    reveal_strlit("");
    assert("Codex Switcher - "@ + account.name@ + ""@ =~= "Codex Switcher - "@ + account.name@);
}

} // verus!
