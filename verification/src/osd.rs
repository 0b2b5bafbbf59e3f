//! How the OSD window answers the messages it receives: the decisions of its
//! window procedure.  The program around the library turns each message into
//! an [`OsdMessage`], asks [`osd_action`] what to do, and does it.

use vstd::prelude::*;
use crate::opacity_menu::{
    command_of, context_menu_entries, decode_command, lemma_chosen_step_checked, step_opacity,
    MenuCommand, MenuEntry, OPACITY_ID_BASE, OPACITY_STEPS,
};
use crate::settings::{with_location, with_opacity, Settings};

verus! {

/// Width of the OSD window in pixels.
pub const OSD_WIDTH: i32 = 160;

/// Height of the OSD window in pixels.
pub const OSD_HEIGHT: i32 = 50;

/// Where the OSD window opens, how large and how opaque it is.
#[derive(Debug, Clone, Copy, PartialEq, Eq, Structural)]
pub struct OsdLayout {
    pub x: i32,
    pub y: i32,
    pub width: i32,
    pub height: i32,
    pub opacity: u8,
}

/// The OSD window opens where the settings place it, with the opacity they give.
pub fn osd_layout(settings: Settings) -> (r: OsdLayout)
    ensures
        r == (OsdLayout {
            x: settings.x,
            y: settings.y,
            width: OSD_WIDTH,
            height: OSD_HEIGHT,
            opacity: settings.opacity,
        }),
{
    OsdLayout {
        x: settings.x,
        y: settings.y,
        width: OSD_WIDTH,
        height: OSD_HEIGHT,
        opacity: settings.opacity,
    }
}

/// The messages the OSD window distinguishes.
#[derive(Debug, Clone, Copy, PartialEq, Eq, Structural)]
pub enum OsdMessage {
    /// The window is being created; it carries the shared text of the OSD.
    NonClientCreate,
    /// The left mouse button went down on the window.
    LeftButtonDown,
    /// The user finished moving the window, whose top-left corner is now at (`left`, `top`).
    ExitSizeMove { left: i32, top: i32 },
    /// The right mouse button was released on the window.
    RightButtonUp,
    /// A menu command arrived; `wparam` is the message's word parameter.
    Command { wparam: usize },
    /// The window must be painted.
    Paint,
    /// The window is being destroyed.
    Destroy,
    /// Any other message.
    Other,
}

/// What the window does in answer to a message.
#[derive(Debug, Clone, Copy, PartialEq, Eq, Structural)]
pub enum OsdAction {
    /// Keep the shared text handed over at creation, then apply the default handling.
    AttachText,
    /// Let the system move the window with the mouse.
    BeginDrag,
    /// Save the window's new position in the settings.
    SaveLocation { x: i32, y: i32 },
    /// Show the context menu at the cursor.
    ShowContextMenu,
    /// End the program.
    Quit,
    /// Make the window this opaque and save the opacity in the settings.
    ApplyOpacity { opacity: u8 },
    /// Draw the frame and the current text.
    Repaint,
    /// Release the shared text and end the program.
    Release,
    /// Leave the message to the default window procedure.
    Default,
}

/// The menu command id carried by a command message: the low 16 bits of its word parameter.
pub open spec fn command_id_of(wparam: usize) -> u16 {
    (wparam % 0x10000) as u16
}

/// The answer of the OSD window to `msg`.
pub open spec fn action_of(msg: OsdMessage) -> OsdAction {
    match msg {
        OsdMessage::NonClientCreate => OsdAction::AttachText,
        OsdMessage::LeftButtonDown => OsdAction::BeginDrag,
        OsdMessage::ExitSizeMove { left, top } => OsdAction::SaveLocation { x: left, y: top },
        OsdMessage::RightButtonUp => OsdAction::ShowContextMenu,
        OsdMessage::Command { wparam } => match command_of(command_id_of(wparam)) {
            MenuCommand::Quit => OsdAction::Quit,
            MenuCommand::SetOpacity(o) => OsdAction::ApplyOpacity { opacity: o },
            MenuCommand::Unhandled => OsdAction::Default,
        },
        OsdMessage::Paint => OsdAction::Repaint,
        OsdMessage::Destroy => OsdAction::Release,
        OsdMessage::Other => OsdAction::Default,
    }
}

/// The menu command id in a command message's word parameter.
pub fn command_id(wparam: usize) -> (r: u16)
    ensures
        r == command_id_of(wparam),
        r as int == wparam as int % 0x10000,
{
    (wparam % 0x10000) as u16
}

/// What the OSD window does in answer to `msg`.
pub fn osd_action(msg: OsdMessage) -> (r: OsdAction)
    ensures
        r == action_of(msg),
{
    match msg {
        OsdMessage::NonClientCreate => OsdAction::AttachText,
        OsdMessage::LeftButtonDown => OsdAction::BeginDrag,
        OsdMessage::ExitSizeMove { left, top } => OsdAction::SaveLocation { x: left, y: top },
        OsdMessage::RightButtonUp => OsdAction::ShowContextMenu,
        OsdMessage::Command { wparam } => match decode_command(command_id(wparam)) {
            MenuCommand::Quit => OsdAction::Quit,
            MenuCommand::SetOpacity(o) => OsdAction::ApplyOpacity { opacity: o },
            MenuCommand::Unhandled => OsdAction::Default,
        },
        OsdMessage::Paint => OsdAction::Repaint,
        OsdMessage::Destroy => OsdAction::Release,
        OsdMessage::Other => OsdAction::Default,
    }
}

/// The window's answers to the messages other than menu commands: creation
/// keeps the shared text, a left click starts a drag, the end of a move saves
/// the new position, a right click opens the context menu, painting repaints,
/// destruction releases the text, and anything else goes to the default
/// procedure.
pub proof fn lemma_message_answers(left: i32, top: i32)
    ensures
        action_of(OsdMessage::NonClientCreate) == OsdAction::AttachText,
        action_of(OsdMessage::LeftButtonDown) == OsdAction::BeginDrag,
        action_of(OsdMessage::ExitSizeMove { left, top }) == (OsdAction::SaveLocation { x: left, y: top }),
        action_of(OsdMessage::RightButtonUp) == OsdAction::ShowContextMenu,
        action_of(OsdMessage::Paint) == OsdAction::Repaint,
        action_of(OsdMessage::Destroy) == OsdAction::Release,
        action_of(OsdMessage::Other) == OsdAction::Default,
{
}

/// The menu command id of a command message is the low 16 bits of its word parameter.
pub proof fn lemma_command_id_is_low_word(wparam: usize)
    ensures
        command_id_of(wparam) as int == wparam as int % 0x10000,
{
}

/// A command message whose low word is 1000 + `step` (1 <= step <= 10), the
/// id of the `10 * step`% entry, makes the window 255 * step / 10 opaque and
/// saves that opacity; whatever the high word holds.
pub proof fn lemma_opacity_command_applies_step(wparam: usize, step: int)
    requires
        1 <= step <= 10,
        wparam as int % 0x10000 == 1000 + step,
    ensures
        action_of(OsdMessage::Command { wparam }) == (OsdAction::ApplyOpacity { opacity: (255 * step / 10) as u8 }),
{
}

/// A command message whose low word is 1011, the id of the close entry, ends the program.
pub proof fn lemma_close_command_quits(wparam: usize)
    requires
        wparam as int % 0x10000 == 1011,
    ensures
        action_of(OsdMessage::Command { wparam }) == OsdAction::Quit,
{
}

/// A command message whose low word is no id of the context menu is left to
/// the default window procedure.
pub proof fn lemma_foreign_command_default(wparam: usize)
    requires
        wparam as int % 0x10000 < 1001 || wparam as int % 0x10000 > 1011,
    ensures
        action_of(OsdMessage::Command { wparam }) == OsdAction::Default,
{
}

/// Picking opacity entry `step` in the context menu sets that step's opacity,
/// saves it in the settings, and the next time the menu opens from those
/// settings it carries the check mark on that entry and on no other.
pub proof fn lemma_picked_opacity_checked_next_time(s: Settings, wparam: usize, step: int, i: int)
    requires
        1 <= step <= OPACITY_STEPS,
        wparam as int % 0x10000 == 1000 + step,
        0 <= i < OPACITY_STEPS,
    ensures
        action_of(OsdMessage::Command { wparam }) == (OsdAction::ApplyOpacity { opacity: step_opacity(step) as u8 }),
        context_menu_entries(with_opacity(s, step_opacity(step) as u8).opacity)[i] matches MenuEntry::Opacity { checked, .. }
            && (checked <==> i + 1 == step),
{
    lemma_chosen_step_checked(step, i);
}

/// Moving the window and releasing it saves exactly the position it was
/// released at, and leaves the opacity as it was.
pub proof fn lemma_move_saves_position(s: Settings, left: i32, top: i32)
    ensures
        action_of(OsdMessage::ExitSizeMove { left, top }) == (OsdAction::SaveLocation { x: left, y: top }),
        with_location(s, left, top).x == left,
        with_location(s, left, top).y == top,
        with_location(s, left, top).opacity == s.opacity,
{
}

} // verus!
