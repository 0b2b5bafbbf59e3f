# deskhop

DeskHop switches Windows virtual desktops with Alt+1 .. Alt+9 and shows the
current desktop in a small on-screen display (OSD) that can be dragged and made
more or less opaque from its context menu.

- `src/` is the verified library (Verus): the settings model (`settings`), the
  OSD's opacity menu and its commands (`opacity_menu`), the OSD's texts
  (`labels`), the OSD window's reaction to its messages (`osd`), and the hotkey
  bindings and main-loop dispatch (`hotkeys`).
- `app/` is the Windows program around it: window creation and painting, the
  tray icon, hotkey registration, desktop switching and the settings file.
- `tests/` runs the library on concrete values.
