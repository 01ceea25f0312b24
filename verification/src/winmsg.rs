//! What Windows messages mean to Blackout: the point packed in a mouse
//! message, the tray icon's events, the tray menu's command ids, and the
//! keys and clicks of the wipe, About and hotkey dialogs.
use crate::i18n::Language;
use crate::menu::Command;
use crate::ui::{
    about_close_button, about_github_button, about_link_rect, bind_button_rects, button_pair,
    dialog_inset, fits, inset_fits, inside, link_fits, rect_contains, Rect,
};
use vstd::prelude::*;

verus! {

/// A 16-bit value read as signed.
pub open spec fn signed16(n: int) -> int {
    if n >= 0x8000 {
        n - 0x10000
    } else {
        n
    }
}

/// The client point of a mouse message: the low and high words of its
/// `LPARAM`, each signed (`GET_X_LPARAM`, `GET_Y_LPARAM`).
pub fn lparam_point(lparam: isize) -> (r: (i32, i32))
    ensures
        r.0 == signed16((lparam as u32) as int % 0x10000),
        r.1 == signed16((lparam as u32) as int / 0x10000),
{
    let v = #[verifier::truncate] (lparam as u32);
    let lo = v & 0xFFFF;
    let hi = (v >> 16) & 0xFFFF;
    assert(lo == v % 0x10000 && hi == v / 0x10000) by (bit_vector)
        requires
            lo == v & 0xFFFF,
            hi == (v >> 16) & 0xFFFF,
    ;
    let x: i32 = if lo >= 0x8000 {
        lo as i32 - 0x10000
    } else {
        lo as i32
    };
    let y: i32 = if hi >= 0x8000 {
        hi as i32 - 0x10000
    } else {
        hi as i32
    };
    (x, y)
}

/// What a tray icon event asks for.
#[derive(Clone, Copy, Debug, PartialEq, Eq, Structural)]
pub enum TrayEvent {
    /// A left click or a keyboard select: toggle.
    Toggle,
    /// A right click or the context-menu key: show the menu.
    Menu,
    Ignore,
}

/// The tray event in the low word of the callback's `LPARAM`
/// (`NOTIFYICON_VERSION_4`): `NIN_SELECT`, `NIN_KEYSELECT`, left button
/// up or double click toggle; right button up and `WM_CONTEXTMENU` open
/// the menu.
pub open spec fn tray_event_of(event: int) -> TrayEvent {
    if event == 0x400 || event == 0x401 || event == 0x202 || event == 0x203 {
        TrayEvent::Toggle
    } else if event == 0x205 || event == 0x7B {
        TrayEvent::Menu
    } else {
        TrayEvent::Ignore
    }
}

pub fn tray_event(lparam: isize) -> (r: TrayEvent)
    ensures
        r == tray_event_of((lparam as u32) as int % 0x10000),
{
    let v = #[verifier::truncate] (lparam as u32);
    let e = v & 0xFFFF;
    assert(e == v % 0x10000) by (bit_vector)
        requires
            e == v & 0xFFFF,
    ;
    if e == 0x400 || e == 0x401 || e == 0x202 || e == 0x203 {
        TrayEvent::Toggle
    } else if e == 0x205 || e == 0x7B {
        TrayEvent::Menu
    } else {
        TrayEvent::Ignore
    }
}

/// The id of a tray menu command (`WM_COMMAND`): 1 toggle, 2 quit, 3 black,
/// 4 frosted, 5 hotkey, 6 autostart, 7 wipe, 8 tint, 9 About, 20 and 21 the
/// languages.
pub open spec fn id_of(c: Command) -> int {
    match c {
        Command::Toggle => 1,
        Command::Quit => 2,
        Command::Solid => 3,
        Command::Frost => 4,
        Command::Hotkey => 5,
        Command::Autostart => 6,
        Command::Wipe => 7,
        Command::Tint => 8,
        Command::About => 9,
        Command::Lang(Language::Ru) => 20,
        Command::Lang(Language::En) => 21,
    }
}

pub fn command_id(c: Command) -> (r: usize)
    ensures
        r == id_of(c),
{
    match c {
        Command::Toggle => 1,
        Command::Quit => 2,
        Command::Solid => 3,
        Command::Frost => 4,
        Command::Hotkey => 5,
        Command::Autostart => 6,
        Command::Wipe => 7,
        Command::Tint => 8,
        Command::About => 9,
        Command::Lang(Language::Ru) => 20,
        Command::Lang(Language::En) => 21,
    }
}

/// The command a `WM_COMMAND` id stands for, if any.
pub fn command_of(id: usize) -> (r: Option<Command>)
    ensures
        r matches Some(c) ==> id_of(c) == id,
        r is None <==> !(1 <= id <= 9 || id == 20 || id == 21),
{
    match id {
        1 => Some(Command::Toggle),
        2 => Some(Command::Quit),
        3 => Some(Command::Solid),
        4 => Some(Command::Frost),
        5 => Some(Command::Hotkey),
        6 => Some(Command::Autostart),
        7 => Some(Command::Wipe),
        8 => Some(Command::Tint),
        9 => Some(Command::About),
        20 => Some(Command::Lang(Language::Ru)),
        21 => Some(Command::Lang(Language::En)),
        _ => None,
    }
}

/// Each command has its own id, between 1 and 21.
pub proof fn lemma_command_ids(c: Command, d: Command)
    ensures
        id_of(c) == id_of(d) ==> c == d,
        1 <= id_of(c) <= 21,
{
}

/// What a dialog does after a key or a click.
#[derive(Clone, Copy, Debug, PartialEq, Eq, Structural)]
pub enum DialogStep {
    /// Save (hotkey) or delete (wipe).
    Confirm,
    /// Cancel, or close the About dialog.
    Cancel,
    /// Open the project page.
    OpenGithub,
    Nothing,
}

/// A client rectangle whose inset and buttons stay in `i32`.
pub open spec fn click_fits(client: Rect) -> bool {
    &&& inset_fits(client)
    &&& fits(inset_of(client))
}

/// The same, with room for the About dialog's link line too.
pub open spec fn about_click_fits(client: Rect) -> bool {
    &&& inset_fits(client)
    &&& link_fits(inset_of(client))
}

pub open spec fn inset_of(client: Rect) -> Rect {
    Rect {
        left: (client.left + 2) as i32,
        top: (client.top + 2) as i32,
        right: (client.right - 2) as i32,
        bottom: (client.bottom - 2) as i32,
    }
}


/// A key in the wipe dialog: Esc cancels, Enter deletes.
pub fn wipe_key(vk: u32) -> (r: DialogStep)
    ensures
        r == (if vk == 0x1B {
            DialogStep::Cancel
        } else if vk == 0x0D {
            DialogStep::Confirm
        } else {
            DialogStep::Nothing
        }),
{
    if vk == 0x1B {
        DialogStep::Cancel
    } else if vk == 0x0D {
        DialogStep::Confirm
    } else {
        DialogStep::Nothing
    }
}

/// A key in the About dialog: Esc or Enter closes it.
pub fn about_key(vk: u32) -> (r: DialogStep)
    ensures
        r == (if vk == 0x1B || vk == 0x0D {
            DialogStep::Cancel
        } else {
            DialogStep::Nothing
        }),
{
    if vk == 0x1B || vk == 0x0D {
        DialogStep::Cancel
    } else {
        DialogStep::Nothing
    }
}

/// A left click in the wipe or hotkey dialog: the left button confirms, the
/// right one cancels.
pub fn buttons_click(client: Rect, x: i32, y: i32) -> (r: DialogStep)
    requires
        click_fits(client),
    ensures
        r == (if inside(button_pair(inset_of(client)).0, x as int, y as int) {
            DialogStep::Confirm
        } else if inside(button_pair(inset_of(client)).1, x as int, y as int) {
            DialogStep::Cancel
        } else {
            DialogStep::Nothing
        }),
{
    let inset = dialog_inset(client);
    let (ok, cancel) = bind_button_rects(inset);
    if rect_contains(ok, x, y) {
        DialogStep::Confirm
    } else if rect_contains(cancel, x, y) {
        DialogStep::Cancel
    } else {
        DialogStep::Nothing
    }
}

/// A left click in the About dialog: the link line or the GitHub button
/// opens the project page; the Close button closes.
pub fn about_click(client: Rect, x: i32, y: i32) -> (r: DialogStep)
    requires
        about_click_fits(client),
    ensures
        ({
            let inset = inset_of(client);
            let top = button_pair(inset).0.top;
            let link = Rect { left: (inset.left + 28) as i32, top: (top - 40) as i32, right: (inset.right - 28) as i32, bottom: (top - 18) as i32 };
            r == (if inside(link, x as int, y as int) || inside(button_pair(inset).0, x as int, y as int) {
                DialogStep::OpenGithub
            } else if inside(button_pair(inset).1, x as int, y as int) {
                DialogStep::Cancel
            } else {
                DialogStep::Nothing
            })
        }),
{
    let inset = dialog_inset(client);
    if rect_contains(about_link_rect(inset), x, y) || rect_contains(about_github_button(inset), x, y) {
        DialogStep::OpenGithub
    } else if rect_contains(about_close_button(inset), x, y) {
        DialogStep::Cancel
    } else {
        DialogStep::Nothing
    }
}

} // verus!
