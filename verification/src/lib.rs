//! Verified core of DeskHop: a virtual-desktop switcher that listens for
//! Alt+1 .. Alt+9, shows an on-screen display (OSD) naming the current
//! desktop, and keeps the OSD's position and opacity in a settings file.
//!
//! Everything that decides something lives here: the settings model and its
//! updates, the opacity menu of the OSD and the commands it sends back, the
//! texts the OSD shows, the reaction of the OSD window to its messages, and
//! the dispatch of hotkey events to desktop switches.  The program around it
//! (window creation, the system tray, the hotkey registration and the file
//! I/O) performs the actions that these functions choose.

pub mod hotkeys;
pub mod labels;
pub mod opacity_menu;
pub mod osd;
pub mod settings;
