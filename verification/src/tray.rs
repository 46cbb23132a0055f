//! Decisions of the system-tray icon: the menu's layout, what a menu entry
//! does, and which pointer events open the window or the menu. The tray is
//! the user's main way into the app; the only window is the pairing /
//! status view.

use vstd::prelude::*;
use crate::text::str_equal;

verus! {

/// What a tray menu entry asks for.
#[derive(Clone, Copy, Debug, PartialEq, Eq, Structural)]
pub enum MenuAction {
    /// Show and focus the main window.
    ShowWindow,
    /// Open the log file in the system's handler.
    OpenLogs,
    /// Show the main window on its "about" view.
    ShowAbout,
    /// Quit the app.
    Quit,
    /// Unknown entry: nothing to do.
    Nothing,
}

/// One line of the tray menu.
#[derive(Clone, Copy, Debug, PartialEq, Eq)]
pub enum MenuEntry {
    /// A clickable entry: its id and label.
    Item { id: &'static str, label: &'static str },
    /// A separator line.
    Separator,
}

/// The mathematical content of a [`MenuEntry`].
pub enum MenuEntryView {
    Item { id: Seq<char>, label: Seq<char> },
    Separator,
}

impl View for MenuEntry {
    type V = MenuEntryView;

    open spec fn view(&self) -> MenuEntryView {
        match self {
            MenuEntry::Item { id, label } => MenuEntryView::Item { id: id@, label: label@ },
            MenuEntry::Separator => MenuEntryView::Separator,
        }
    }
}

/// The tray menu, top to bottom: open, open log file, a separator, about,
/// quit.
pub open spec fn menu_layout_spec() -> Seq<MenuEntryView> {
    seq![
        MenuEntryView::Item { id: "open"@, label: "Open Kefilex Desk"@ },
        MenuEntryView::Item { id: "open_logs"@, label: "Open log file"@ },
        MenuEntryView::Separator,
        MenuEntryView::Item { id: "about"@, label: "About Kefilex Desk…"@ },
        MenuEntryView::Item { id: "quit"@, label: "Quit"@ },
    ]
}

/// The tray menu, in display order.
pub fn menu_layout() -> (r: Vec<MenuEntry>)
    ensures
        r@.map_values(|e: MenuEntry| e@) == menu_layout_spec(),
{
    let mut r: Vec<MenuEntry> = Vec::new();
    r.push(MenuEntry::Item { id: "open", label: "Open Kefilex Desk" });
    r.push(MenuEntry::Item { id: "open_logs", label: "Open log file" });
    r.push(MenuEntry::Separator);
    r.push(MenuEntry::Item { id: "about", label: "About Kefilex Desk…" });
    r.push(MenuEntry::Item { id: "quit", label: "Quit" });
    assert(r@.map_values(|e: MenuEntry| e@) =~= menu_layout_spec());
    r
}

/// The action of a menu entry id.
pub open spec fn menu_action_spec(id: Seq<char>) -> MenuAction {
    if id == "open"@ {
        MenuAction::ShowWindow
    } else if id == "open_logs"@ {
        MenuAction::OpenLogs
    } else if id == "about"@ {
        MenuAction::ShowAbout
    } else if id == "quit"@ {
        MenuAction::Quit
    } else {
        MenuAction::Nothing
    }
}

/// The action of the menu entry with the given id.
pub fn menu_action(id: &str) -> (r: MenuAction)
    ensures
        r == menu_action_spec(id@),
{
    if str_equal(id, "open") {
        MenuAction::ShowWindow
    } else if str_equal(id, "open_logs") {
        MenuAction::OpenLogs
    } else if str_equal(id, "about") {
        MenuAction::ShowAbout
    } else if str_equal(id, "quit") {
        MenuAction::Quit
    } else {
        MenuAction::Nothing
    }
}

/// A pointer event on the tray icon.
#[derive(Clone, Copy, Debug, PartialEq, Eq)]
pub enum TrayPointerEvent {
    /// A click: which button, and whether it is the release.
    Click { left_button: bool, released: bool },
    /// Anything else (entering, moving over, leaving, double click).
    Other,
}

/// The tray icon's event opens the main window: the release of a left click.
/// Every other event leaves the window alone.
pub fn event_opens_window(ev: TrayPointerEvent) -> (r: bool)
    ensures
        r == (ev matches TrayPointerEvent::Click { left_button: true, released: true }),
{
    match ev {
        TrayPointerEvent::Click { left_button, released } => left_button && released,
        TrayPointerEvent::Other => false,
    }
}

/// Which clicks show the menu: only the right button; the left one opens
/// the window instead.
pub fn click_shows_menu(left_button: bool) -> (r: bool)
    ensures
        r == !left_button,
{
    !left_button
}

/// Every entry of the menu has the action its id names, and the separator
/// stands between the log entry and the about entry.
pub proof fn law_menu_entries_act(k: int)
    requires
        0 <= k < menu_layout_spec().len(),
    ensures
        menu_layout_spec()[k] matches MenuEntryView::Item { id, label } ==> menu_action_spec(id)
            != MenuAction::Nothing,
        menu_layout_spec()[k] is Separator <==> k == 2,
{
    reveal_strlit("open");
    reveal_strlit("open_logs");
    reveal_strlit("about");
    reveal_strlit("quit");
}

/// Each menu entry does what its label says: "Open Kefilex Desk" shows the
/// window, "Open log file" opens the logs, "About Kefilex Desk…" shows the
/// about box and "Quit" quits; no two entries do the same thing.
pub proof fn law_menu_labels_match_actions(j: int, k: int)
    requires
        0 <= j < menu_layout_spec().len(),
        0 <= k < menu_layout_spec().len(),
    ensures
        menu_layout_spec()[k] matches MenuEntryView::Item { id, label } ==> {
            &&& label == "Open Kefilex Desk"@ ==> menu_action_spec(id) == MenuAction::ShowWindow
            &&& label == "Open log file"@ ==> menu_action_spec(id) == MenuAction::OpenLogs
            &&& label == "About Kefilex Desk…"@ ==> menu_action_spec(id) == MenuAction::ShowAbout
            &&& label == "Quit"@ ==> menu_action_spec(id) == MenuAction::Quit
        },
        j != k && menu_layout_spec()[j] is Item && menu_layout_spec()[k] is Item ==> menu_action_spec(
            menu_layout_spec()[j]->Item_id,
        ) != menu_action_spec(menu_layout_spec()[k]->Item_id),
{
    reveal_strlit("open");
    reveal_strlit("open_logs");
    reveal_strlit("about");
    reveal_strlit("quit");
    reveal_strlit("Open Kefilex Desk");
    reveal_strlit("Open log file");
    reveal_strlit("About Kefilex Desk…");
    reveal_strlit("Quit");
    let m = menu_layout_spec();
    assert(j == 0 || j == 1 || j == 2 || j == 3 || j == 4);
    assert(k == 0 || k == 1 || k == 2 || k == 3 || k == 4);
    assert(m[0] == MenuEntryView::Item { id: "open"@, label: "Open Kefilex Desk"@ });
    assert(m[1] == MenuEntryView::Item { id: "open_logs"@, label: "Open log file"@ });
    assert(m[3] == MenuEntryView::Item { id: "about"@, label: "About Kefilex Desk…"@ });
    assert(m[4] == MenuEntryView::Item { id: "quit"@, label: "Quit"@ });
    assert(menu_action_spec("open"@) == MenuAction::ShowWindow);
    assert("open_logs"@.len() != "open"@.len());
    assert("about"@[0] != "open"@[0] && "about"@.len() != "open_logs"@.len());
    assert("quit"@[0] != "open"@[0] && "quit"@[0] != "about"@[0] && "quit"@.len() != "open_logs"@.len());
    assert(menu_action_spec("open_logs"@) == MenuAction::OpenLogs);
    assert(menu_action_spec("about"@) == MenuAction::ShowAbout);
    assert(menu_action_spec("quit"@) == MenuAction::Quit);
    assert("Quit"@.len() == 4 && "Open log file"@.len() == 13);
    assert("Open Kefilex Desk"@.len() == 17 && "About Kefilex Desk…"@.len() == 19);
}

} // verus!
