use swal_files::files_app::context_menu::{
    ContextMenuBuilder, MenuActionKind, MenuItem, SelectionContext,
};
use swal_files::files_app::desktop_entry::{generate_desktop_file, DesktopIntegration, HyprlandWindowRule};
use swal_files::files_app::keybinds::{KeyAction, KeyModifier, KeybindManager, ShortcutBinding};
use swal_files::files_app::omnibar::{expand_path_with_home, Breadcrumb, Omnibar, OmnibarIntent};

// ---------------------------------------------------------------- keybinds

#[test]
fn test_default_keybindings_dispatch() {
    let manager = KeybindManager::new();

    assert_eq!(manager.dispatch("t", &KeyModifier::ctrl()), Some(KeyAction::NewTab));
    assert_eq!(manager.dispatch("w", &KeyModifier::ctrl()), Some(KeyAction::CloseTab));
    assert_eq!(manager.dispatch("f6", &KeyModifier::none()), Some(KeyAction::SwitchPane));
    assert_eq!(manager.dispatch("space", &KeyModifier::none()), Some(KeyAction::ToggleSelection));
    assert_eq!(manager.dispatch("l", &KeyModifier::ctrl()), Some(KeyAction::FocusOmnibar));
    assert_eq!(manager.dispatch("backspace", &KeyModifier::none()), Some(KeyAction::NavigateParent));
    assert_eq!(manager.dispatch("enter", &KeyModifier::none()), Some(KeyAction::OpenItem));
    assert_eq!(manager.dispatch("esc", &KeyModifier::none()), Some(KeyAction::Cancel));
}

#[test]
fn test_case_insensitivity_and_unmatched() {
    let manager = KeybindManager::new();

    assert_eq!(manager.dispatch("T", &KeyModifier::ctrl()), Some(KeyAction::NewTab));
    assert_eq!(manager.dispatch("W", &KeyModifier::ctrl()), Some(KeyAction::CloseTab));
    assert_eq!(manager.dispatch("x", &KeyModifier::ctrl()), None);
    assert_eq!(manager.dispatch("t", &KeyModifier::none()), None);
}

#[test]
fn test_custom_binding_register_and_unregister() {
    let mut manager = KeybindManager::new();
    let custom = ShortcutBinding::new("g", KeyModifier::ctrl(), KeyAction::Custom("GitStatus".to_string()));

    manager.register(custom);
    assert_eq!(
        manager.dispatch("g", &KeyModifier::ctrl()),
        Some(KeyAction::Custom("GitStatus".to_string()))
    );

    assert!(manager.unregister("g", &KeyModifier::ctrl()));
    assert_eq!(manager.dispatch("g", &KeyModifier::ctrl()), None);
    assert!(!manager.unregister("g", &KeyModifier::ctrl()));
}

#[test]
fn test_override_existing_binding() {
    let mut manager = KeybindManager::new();
    let override_binding =
        ShortcutBinding::new("t", KeyModifier::ctrl(), KeyAction::Custom("CustomNewTab".to_string()));

    manager.register(override_binding);
    assert_eq!(
        manager.dispatch("t", &KeyModifier::ctrl()),
        Some(KeyAction::Custom("CustomNewTab".to_string()))
    );
}

#[test]
fn test_clear_bindings() {
    let mut manager = KeybindManager::new();
    assert!(!manager.bindings().is_empty());
    manager.clear();
    assert!(manager.bindings().is_empty());
    assert_eq!(manager.dispatch("t", &KeyModifier::ctrl()), None);
}

#[test]
fn register_then_dispatch_with_modifiers() {
    let mut manager = KeybindManager::new();
    let m = KeyModifier::new(true, false, true, false);
    manager.register(ShortcutBinding::new("N", m, KeyAction::Custom("x".to_string())));
    assert_eq!(manager.dispatch("n", &m), Some(KeyAction::Custom("x".to_string())));
    assert_eq!(manager.dispatch("n", &KeyModifier::ctrl()), None);
    let before = manager.bindings().len();
    manager.register(ShortcutBinding::new("n", m, KeyAction::Cancel));
    assert_eq!(manager.bindings().len(), before);
    assert_eq!(manager.dispatch("N", &m), Some(KeyAction::Cancel));
}

// ---------------------------------------------------------------- omnibar

#[test]
fn test_intent_parse_empty() {
    assert_eq!(OmnibarIntent::parse(""), OmnibarIntent::Empty);
    assert_eq!(OmnibarIntent::parse("   "), OmnibarIntent::Empty);
    assert!(OmnibarIntent::Empty.is_empty());
}

#[test]
fn test_intent_parse_search() {
    let intent = OmnibarIntent::parse("? rust files");
    assert_eq!(intent, OmnibarIntent::Search("rust files".to_string()));
    assert!(intent.is_search());
}

#[test]
fn test_intent_parse_shell_command() {
    let intent = OmnibarIntent::parse("> cargo build");
    assert_eq!(intent, OmnibarIntent::ShellCommand("cargo build".to_string()));
    assert!(intent.is_shell_command());
}

#[test]
fn test_intent_parse_agent_query() {
    let intent = OmnibarIntent::parse("@ explain changes");
    assert_eq!(intent, OmnibarIntent::AgentQuery("explain changes".to_string()));
    assert!(intent.is_agent_query());
}

#[test]
fn test_intent_parse_navigation() {
    let intent = OmnibarIntent::parse("/usr/local/bin");
    assert_eq!(intent, OmnibarIntent::Navigation("/usr/local/bin".to_string()));
    assert!(intent.is_navigation());
}

#[test]
fn test_expand_path_tilde() {
    assert_eq!(expand_path_with_home("~", Some("/home/me")), "/home/me");
    assert_eq!(expand_path_with_home("~/documents", Some("/home/me")), "/home/me/documents");
    assert_eq!(expand_path_with_home("~/documents", None), "~/documents");
    assert_eq!(expand_path_with_home("/abs", Some("/home/me")), "/abs");
    assert_eq!(
        OmnibarIntent::parse_with_home("~/x", Some("/h")),
        OmnibarIntent::Navigation("/h/x".to_string())
    );
}

#[test]
fn test_breadcrumb_parse_absolute() {
    let crumbs = Breadcrumb::parse("/home/user/docs");
    assert_eq!(crumbs.len(), 4);
    assert!(crumbs[0].is_root);
    assert!(!crumbs[0].is_last);
    assert_eq!(crumbs[0].name, "/");

    assert_eq!(crumbs[1].name, "home");
    assert_eq!(crumbs[2].name, "user");
    assert_eq!(crumbs[3].name, "docs");
    assert!(crumbs[3].is_last);
    assert_eq!(crumbs[3].path, "/home/user/docs");
}

#[test]
fn test_omnibar_state_and_history() {
    let mut omnibar = Omnibar::new("/home/user");
    assert_eq!(omnibar.current_path, "/home/user");
    assert!(!omnibar.is_focused);

    omnibar.focus();
    assert!(omnibar.is_focused);
    omnibar.toggle_focus();
    assert!(!omnibar.is_focused);

    omnibar.set_input("> cargo check".to_string());
    assert_eq!(omnibar.active_intent, OmnibarIntent::ShellCommand("cargo check".to_string()));

    let intent = omnibar.submit();
    assert_eq!(intent, OmnibarIntent::ShellCommand("cargo check".to_string()));
    assert_eq!(omnibar.history, vec!["> cargo check".to_string()]);

    omnibar.set_input("? search_term".to_string());
    omnibar.submit();

    assert_eq!(omnibar.history.len(), 2);

    omnibar.history_prev();
    assert_eq!(omnibar.input, "? search_term");
    omnibar.history_prev();
    assert_eq!(omnibar.input, "> cargo check");

    omnibar.history_next();
    assert_eq!(omnibar.input, "? search_term");
    omnibar.history_next();
    assert_eq!(omnibar.input, "");
}

#[test]
fn omnibar_submit_empty_records_nothing() {
    let mut omnibar = Omnibar::new("/");
    omnibar.set_input("   ".to_string());
    assert_eq!(omnibar.submit(), OmnibarIntent::Empty);
    assert!(omnibar.history.is_empty());
    omnibar.history_prev();
    assert_eq!(omnibar.input, "   ");
}

// ---------------------------------------------------------------- context menu

#[test]
fn test_menu_item_constructors() {
    let item = MenuItem::action("Cut", MenuActionKind::Cut).with_shortcut("Ctrl+X");
    assert_eq!(item.label(), Some("Cut"));
    assert!(item.is_enabled());
    assert!(!item.is_separator());

    let disabled_item = item.disabled();
    assert!(!disabled_item.is_enabled());

    let sep = MenuItem::separator();
    assert!(sep.is_separator());
    assert_eq!(sep.label(), None);
}

#[test]
fn test_empty_space_context_menu() {
    let ctx = SelectionContext::empty_space("/tmp", false);
    let menu = ContextMenuBuilder::build_for_selection(&ctx);

    assert!(!menu.is_empty());
    let paste = menu.iter().find(|m| m.label() == Some("Paste"));
    assert!(paste.is_some());
    assert!(!paste.unwrap().is_enabled());

    let ctx_with_clip = SelectionContext::empty_space("/tmp", true);
    let menu2 = ContextMenuBuilder::build_for_selection(&ctx_with_clip);
    let paste2 = menu2.iter().find(|m| m.label() == Some("Paste"));
    assert!(paste2.unwrap().is_enabled());
}

#[test]
fn test_single_file_context_menu() {
    let mut ctx = SelectionContext::single_file("/tmp/doc.txt", "/tmp");
    ctx.is_git_tracked = true;
    ctx.is_git_staged = false;

    let menu = ContextMenuBuilder::build_for_selection(&ctx);
    assert!(menu.iter().any(|m| m.label() == Some("Open File")));
    assert!(menu.iter().any(|m| m.label() == Some("Stage Git Change")));
    assert!(menu.iter().any(
        |m| matches!(m, MenuItem::Action { action: MenuActionKind::XavierPrompt(p), .. } if p.contains("doc.txt"))
    ));
}

#[test]
fn test_single_dir_context_menu() {
    let ctx = SelectionContext::single_dir("/tmp/subfolder", "/tmp");
    let menu = ContextMenuBuilder::build_for_selection(&ctx);
    assert!(menu.iter().any(|m| m.label() == Some("Open Directory")));
    assert!(menu.iter().any(|m| m.label() == Some("Paste Into")));
}

#[test]
fn test_multi_selection_context_menu() {
    let ctx = SelectionContext {
        selected_paths: vec!["/tmp/a.txt".to_string(), "/tmp/b.txt".to_string()],
        is_directory: false,
        has_clipboard: false,
        is_git_tracked: true,
        is_git_staged: true,
        parent_dir: "/tmp".to_string(),
    };

    let menu = ContextMenuBuilder::build_for_selection(&ctx);
    assert!(menu.iter().any(|m| m.label() == Some("Open (2)")));
    assert!(menu.iter().any(|m| m.label() == Some("Unstage All Selected")));
}

#[test]
fn builder_keeps_items_in_order() {
    let menu = ContextMenuBuilder::new()
        .add_item(MenuItem::action("A", MenuActionKind::Open))
        .add_separator()
        .add_item(MenuItem::action("B", MenuActionKind::Refresh))
        .build();
    assert_eq!(menu.len(), 3);
    assert_eq!(menu[0].label(), Some("A"));
    assert!(menu[1].is_separator());
    assert_eq!(menu[2].label(), Some("B"));
}

// ---------------------------------------------------------------- desktop entry

#[test]
fn test_hyprland_window_rule_formatting() {
    let rule = HyprlandWindowRule::new("swal-files", "float");
    assert_eq!(rule.to_config_line(), "windowrulev2 = float, class:^(swal-files)$");
}

#[test]
fn test_generate_desktop_file() {
    let mimes = vec!["inode/directory".to_string(), "x-scheme-handler/file".to_string()];
    let content = generate_desktop_file("SWAL Files", "swal-files %U", "folder-open", &mimes);

    assert!(content.contains("[Desktop Entry]"));
    assert!(content.contains("Name=SWAL Files"));
    assert!(content.contains("Exec=swal-files %U"));
    assert!(content.contains("MimeType=inode/directory;x-scheme-handler/file;\n"));
    assert!(content.contains("StartupWMClass=swal-files"));
}

#[test]
fn test_desktop_integration_hyprland_presets() {
    let integration = DesktopIntegration::default();
    let floating_rules = integration.generate_hyprland_rules(true);
    assert_eq!(floating_rules.len(), 3);
    assert_eq!(floating_rules[0].to_config_line(), "windowrulev2 = float, class:^(swal-files)$");

    let tiling_rules = integration.generate_hyprland_rules(false);
    assert_eq!(tiling_rules.len(), 1);
    assert_eq!(tiling_rules[0].to_config_line(), "windowrulev2 = tile, class:^(swal-files)$");
}

#[test]
fn test_generate_mime_associations() {
    let integration = DesktopIntegration::default();
    let assoc = integration.generate_mime_associations();
    assert!(assoc.contains("[Default Applications]"));
    assert!(assoc.contains("inode/directory=swal-files.desktop"));
    assert!(assoc.contains("x-scheme-handler/file=swal-files.desktop"));
}

#[test]
fn desktop_entry_content() {
    let integration = DesktopIntegration::default();
    let content = integration.generate_desktop_entry();
    assert!(content.contains("Name=SWAL Files"));
}
