//! Application shell logic: keyboard shortcuts, the command bar, context menus
//! and desktop integration files.
pub mod keybinds;
pub mod omnibar;
pub mod context_menu;
pub mod desktop_entry;
