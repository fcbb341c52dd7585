//! The notification-area icon: its commands, and the picture it shows.
//!
//! The icon handle itself belongs to the windowing program; the library keeps
//! the command channel and draws the picture.

use vstd::prelude::*;

use std::sync::mpsc::Receiver;

use crate::text::str_chars;

verus! {

/// Menu entry that brings the window back.
pub const MENU_SHOW: &'static str = "autossh-show";

/// Menu entry that quits.
pub const MENU_EXIT: &'static str = "autossh-exit";

/// Side length of the drawn icon, in pixels.
pub const ICON_SIZE: usize = 32;

/// What the tray asks of the application.
#[derive(Clone, Copy, Debug, PartialEq, Eq, Structural)]
pub enum TrayCommand {
    Show,
    Exit,
}

/// The command of a menu entry, by its id.
pub open spec fn menu_command_of(id: Seq<char>) -> Option<TrayCommand> {
    if id == MENU_SHOW@ {
        Some(TrayCommand::Show)
    } else if id == MENU_EXIT@ {
        Some(TrayCommand::Exit)
    } else {
        None
    }
}

pub fn menu_command(id: &str) -> (r: Option<TrayCommand>)
    ensures
        r == menu_command_of(id@),
{
    let cs = str_chars(id);
    if crate::text::eq_text(cs.as_slice(), MENU_SHOW) {
        Some(TrayCommand::Show)
    } else if crate::text::eq_text(cs.as_slice(), MENU_EXIT) {
        Some(TrayCommand::Exit)
    } else {
        None
    }
}

/// A click on the icon: a left-button release or a left double click shows
/// the window.
pub open spec fn click_shows_spec(left_button: bool, released: bool, double_click: bool) -> bool {
    left_button && (released || double_click)
}

pub fn click_shows(left_button: bool, released: bool, double_click: bool) -> (r: bool)
    ensures
        r == click_shows_spec(left_button, released, double_click),
{
    left_button && (released || double_click)
}

/// What the window does on a frame.
#[derive(Clone, Copy, Debug, PartialEq, Eq, Structural)]
pub enum WindowAction {
    /// Un-minimise, show and focus it.
    Restore,
    /// Close the application.
    Close,
    /// Hide a minimised window, leaving only the tray icon.
    HideToTray,
    Keep,
}

/// A tray command decides first; otherwise a window minimised while shown
/// is hidden into the tray. Returns the action and whether the window is
/// hidden in the tray afterwards.
pub open spec fn window_action_of(
    command: Option<TrayCommand>,
    minimized: bool,
    hidden: bool,
) -> (WindowAction, bool) {
    match command {
        Some(TrayCommand::Show) => (WindowAction::Restore, false),
        Some(TrayCommand::Exit) => (WindowAction::Close, hidden),
        None => if minimized && !hidden {
            (WindowAction::HideToTray, true)
        } else {
            (WindowAction::Keep, hidden)
        },
    }
}

pub fn window_action(command: Option<TrayCommand>, minimized: bool, hidden: bool) -> (r: (
    WindowAction,
    bool,
))
    ensures
        r == window_action_of(command, minimized, hidden),
{
    match command {
        Some(TrayCommand::Show) => (WindowAction::Restore, false),
        Some(TrayCommand::Exit) => (WindowAction::Close, hidden),
        None => if minimized && !hidden {
            (WindowAction::HideToTray, true)
        } else {
            (WindowAction::Keep, hidden)
        },
    }
}

/// `std::sync::mpsc::Receiver`, held opaquely.
#[verifier::external_type_specification]
#[verifier::external_body]
#[verifier::reject_recursive_types(T)]
pub struct ExReceiver<T>(Receiver<T>);

/// `std::sync::mpsc::Receiver::try_recv`: the next command already sent, if
/// any. What is waiting depends on the other threads, so nothing is stated.
#[verifier::external_body]
fn next_command(commands: &Receiver<TrayCommand>) -> Option<TrayCommand> {
    commands.try_recv().ok()
}

/// The tray's command channel, read once per frame.
pub struct WindowsTray {
    commands: Receiver<TrayCommand>,
}

impl WindowsTray {
    /// The channel that the tray reads its commands from.
    pub closed spec fn channel(&self) -> Receiver<TrayCommand> {
        self.commands
    }

    /// A tray that reads from the given channel.
    pub fn from_receiver(commands: Receiver<TrayCommand>) -> (r: Self)
        ensures
            r.channel() == commands,
    {
        WindowsTray { commands }
    }

    /// A command sent by the tray since the last call, if any.
    pub fn try_recv(&self) -> Option<TrayCommand> {
        next_command(&self.commands)
    }
}

/// The icon's blue disc.
pub open spec fn in_disc(x: int, y: int) -> bool {
    (x - 15) * (x - 15) + (y - 15) * (y - 15) <= 14 * 14
}

/// The two white bars.
pub open spec fn in_bars(x: int, y: int) -> bool {
    8 <= x < 24 && ((10 <= y < 13) || (19 <= y < 22))
}

/// The arrowheads: one opening left at the upper bar, one right at the
/// lower bar, each three pixels thick.
pub open spec fn in_heads(x: int, y: int) -> bool {
    ||| (7 <= x < 13 && 11 - (x - 7) <= y < 14 - (x - 7))
    ||| (19 <= x < 25 && 18 + (24 - x) <= y < 21 + (24 - x))
}

/// The RGBA colour of a pixel: white arrows over a blue disc on a clear
/// background.
pub open spec fn icon_pixel(x: int, y: int) -> Seq<u8> {
    if in_bars(x, y) || in_heads(x, y) {
        seq![245u8, 248u8, 250u8, 255u8]
    } else if in_disc(x, y) {
        seq![24u8, 132u8, 166u8, 255u8]
    } else {
        seq![0u8, 0u8, 0u8, 0u8]
    }
}

fn pixel(x: usize, y: usize) -> (r: [u8; 4])
    requires
        x < 32,
        y < 32,
    ensures
        r@ == icon_pixel(x as int, y as int),
{
    let xi = x as i64;
    let yi = y as i64;
    let bar = 8 <= xi && xi < 24 && ((10 <= yi && yi < 13) || (19 <= yi && yi < 22));
    let head = (7 <= xi && xi < 13 && 11 - (xi - 7) <= yi && yi < 14 - (xi - 7)) || (19 <= xi
        && xi < 25 && 18 + (24 - xi) <= yi && yi < 21 + (24 - xi));
    let dx = xi - 15;
    let dy = yi - 15;
    assert(dx * dx <= 256 && dy * dy <= 256) by (nonlinear_arith)
        requires
            -15 <= dx <= 16,
            -15 <= dy <= 16,
    ;
    assert(dx * dx >= 0 && dy * dy >= 0) by (nonlinear_arith);
    let disc = dx * dx + dy * dy <= 14 * 14;
    let r: [u8; 4] = if bar || head {
        [245, 248, 250, 255]
    } else if disc {
        [24, 132, 166, 255]
    } else {
        [0, 0, 0, 0]
    };
    assert(r@ =~= icon_pixel(x as int, y as int));
    r
}

/// The 32×32 RGBA picture of the tray icon, row by row.
pub fn tray_icon() -> (r: Vec<u8>)
    ensures
        r@.len() == 32 * 32 * 4,
        forall|x: int, y: int, c: int|
            0 <= x < 32 && 0 <= y < 32 && 0 <= c < 4 ==> #[trigger] r@[(y * 32 + x) * 4 + c]
                == icon_pixel(x, y)[c],
{
    let mut rgba: Vec<u8> = Vec::new();
    let mut y: usize = 0;
    while y < ICON_SIZE
        invariant
            y <= 32,
            rgba@.len() == y * 128,
            forall|px: int, py: int, c: int|
                0 <= px < 32 && 0 <= py < y && 0 <= c < 4 ==> #[trigger] rgba@[(py * 32 + px) * 4 + c]
                    == icon_pixel(px, py)[c],
        decreases 32 - y,
    {
        let mut x: usize = 0;
        while x < ICON_SIZE
            invariant
                y < 32,
                x <= 32,
                rgba@.len() == y * 128 + x * 4,
                forall|px: int, py: int, c: int|
                    0 <= px < 32 && 0 <= py < y && 0 <= c < 4 ==> #[trigger] rgba@[(py * 32 + px) * 4
                        + c] == icon_pixel(px, py)[c],
                forall|px: int, c: int|
                    0 <= px < x && 0 <= c < 4 ==> #[trigger] rgba@[(y * 32 + px) * 4 + c]
                        == icon_pixel(px, y as int)[c],
            decreases 32 - x,
        {
            let p = pixel(x, y);
            let ghost before = rgba@;
            rgba.push(p[0]);
            rgba.push(p[1]);
            rgba.push(p[2]);
            rgba.push(p[3]);
            assert forall|px: int, py: int, c: int|
                0 <= px < 32 && 0 <= py < y && 0 <= c < 4 implies #[trigger] rgba@[(py * 32 + px) * 4
                + c] == icon_pixel(px, py)[c] by {
                assert((py * 32 + px) * 4 + c < y * 128) by (nonlinear_arith)
                    requires
                        0 <= px < 32,
                        0 <= py < y,
                        0 <= c < 4,
                ;
                assert(rgba@[(py * 32 + px) * 4 + c] == before[(py * 32 + px) * 4 + c]);
            }
            assert forall|px: int, c: int|
                0 <= px < x + 1 && 0 <= c < 4 implies #[trigger] rgba@[(y * 32 + px) * 4 + c]
                == icon_pixel(px, y as int)[c] by {
                if px < x {
                    assert(rgba@[(y * 32 + px) * 4 + c] == before[(y * 32 + px) * 4 + c]);
                } else {
                    assert(px == x);
                    assert((y * 32 + px) * 4 + c == before.len() + c);
                }
            }
            x = x + 1;
        }
        assert forall|px: int, py: int, c: int|
            0 <= px < 32 && 0 <= py < y + 1 && 0 <= c < 4 implies #[trigger] rgba@[(py * 32 + px) * 4
            + c] == icon_pixel(px, py)[c] by {
            if py == y {
            }
        }
        y = y + 1;
    }
    rgba
}

} // verus!
