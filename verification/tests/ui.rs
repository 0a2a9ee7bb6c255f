use jarvis::ui::{
    assistant_key, blank_overlay_script, bookmark_listed, cursor_zone, escape_js_single_quoted, game_needs_opaque_webview,
    game_url, new_pane_allowed, normalize_url, overlay_state_script, palette_key, paste_script, plugin_url, resize_axis,
    should_submit, signed_resize_delta, AssistantKey, CursorZone, PaletteKey, ResizeDirection, SplitDirection,
    BLANK_SCRIPT_HEAD, BLANK_SCRIPT_TAIL,
};

#[test]
fn cursor_zone_col_resize() {
    assert_eq!(cursor_zone(Some(SplitDirection::Horizontal)), CursorZone::ColResize);
}

#[test]
fn cursor_zone_row_resize() {
    assert_eq!(cursor_zone(Some(SplitDirection::Vertical)), CursorZone::RowResize);
}

#[test]
fn cursor_zone_none() {
    assert_eq!(cursor_zone(None), CursorZone::NoBorder);
}

#[test]
fn blank_script_sets_flag() {
    let on = blank_overlay_script(true);
    let off = blank_overlay_script(false);
    assert_eq!(on, format!("{BLANK_SCRIPT_HEAD}true{BLANK_SCRIPT_TAIL}"));
    assert_eq!(off, format!("{BLANK_SCRIPT_HEAD}false{BLANK_SCRIPT_TAIL}"));
    assert!(on.contains("if(true){"));
    assert!(!on.contains("__BLANKED__"));
    assert!(on.starts_with("(function(){") && on.ends_with("})();"));
}

#[test]
fn overlay_script_flag() {
    assert_eq!(
        overlay_state_script(true),
        "if(window.jarvis&&window.jarvis._setOverlayActive)window.jarvis._setOverlayActive(true);"
    );
    assert!(overlay_state_script(false).ends_with("(false);"));
}

#[test]
fn urls_get_a_scheme() {
    assert_eq!(normalize_url("example.com"), "https://example.com");
    assert_eq!(normalize_url("http://example.com"), "http://example.com");
    assert_eq!(game_url("tetris"), "jarvis://localhost/games/tetris.html");
    assert!(game_needs_opaque_webview("emulator"));
    assert!(!game_needs_opaque_webview("tetris"));
    assert_eq!(plugin_url("p1", "index.html"), "jarvis://localhost/plugins/p1/index.html");
    assert!(bookmark_listed("n", "u"));
    assert!(!bookmark_listed("", "u"));
}

#[test]
fn paste_text_is_escaped() {
    assert_eq!(escape_js_single_quoted("a\\b'c\nd\re"), "a\\\\b\\'c\\nd\\re");
    assert_eq!(paste_script(""), None);
    let s = paste_script("it's").unwrap();
    assert!(s.starts_with("(function(){var t='it\\'s';"));
    assert!(s.ends_with("})()"));
}

#[test]
fn pane_limits_and_resize_directions() {
    assert!(new_pane_allowed(3, 4));
    assert!(!new_pane_allowed(4, 4));
    assert_eq!(resize_axis(ResizeDirection::Left), SplitDirection::Horizontal);
    assert_eq!(resize_axis(ResizeDirection::Down), SplitDirection::Vertical);
    assert_eq!(signed_resize_delta(ResizeDirection::Right, 5), 5);
    assert_eq!(signed_resize_delta(ResizeDirection::Up, 5), -5);
}

#[test]
fn palette_keys() {
    assert_eq!(palette_key("Escape", true), PaletteKey::BackToActions);
    assert_eq!(palette_key("Escape", false), PaletteKey::Close);
    assert_eq!(palette_key("Enter", false), PaletteKey::Confirm);
    assert_eq!(palette_key("Tab", false), PaletteKey::SelectNext);
    assert_eq!(palette_key("Q", false), PaletteKey::Type('q'));
    assert_eq!(palette_key("Q", true), PaletteKey::Type('Q'));
    assert_eq!(palette_key("F1", false), PaletteKey::Unhandled);
}

#[test]
fn assistant_keys() {
    assert_eq!(assistant_key("Escape"), AssistantKey::Close);
    assert_eq!(assistant_key("Up"), AssistantKey::ScrollUp);
    assert_eq!(assistant_key("x"), AssistantKey::Type('x'));
    assert_eq!(assistant_key("é"), AssistantKey::Unhandled);
    assert!(should_submit("hi", false));
    assert!(!should_submit("hi", true));
    assert!(!should_submit("", false));
}

use jarvis::ui::{config_panel_to_pane_kind, panel_kind_default_title, panel_kind_to_url, PaneKind, PanelKind};

#[test]
fn configured_panels_map_to_panes_pages_and_titles() {
    assert_eq!(config_panel_to_pane_kind(PanelKind::Terminal), PaneKind::Terminal);
    assert_eq!(config_panel_to_pane_kind(PanelKind::Settings), PaneKind::WebView);
    assert_eq!(config_panel_to_pane_kind(PanelKind::Presence), PaneKind::WebView);
    assert_eq!(panel_kind_to_url(PanelKind::Chat), "jarvis://localhost/chat/index.html");
    assert_eq!(panel_kind_default_title(PanelKind::Assistant), "Assistant");
}
