use tmux_agent_sidebar::text::map::TextMap;
use tmux_agent_sidebar::tmux::options;
use tmux_agent_sidebar::ui::bottom_panel_height_from_options;
use tmux_agent_sidebar::ui::pet_enabled_from_options;
use tmux_agent_sidebar::ui::BOTTOM_PANEL_HEIGHT;

fn opts_with(key: &str, value: &str) -> TextMap<String> {
    let mut m = TextMap::new();
    m.insert(key.into(), value.into());
    m
}

#[test]
fn bottom_height_defaults_when_option_missing() {
    let opts = TextMap::new();
    assert_eq!(bottom_panel_height_from_options(&opts), BOTTOM_PANEL_HEIGHT);
}

#[test]
fn bottom_height_parses_valid_value() {
    let opts = opts_with(options::SIDEBAR_BOTTOM_HEIGHT, "12");
    assert_eq!(bottom_panel_height_from_options(&opts), 12);
}

#[test]
fn bottom_height_trims_whitespace() {
    let opts = opts_with(options::SIDEBAR_BOTTOM_HEIGHT, "  8  ");
    assert_eq!(bottom_panel_height_from_options(&opts), 8);
}

#[test]
fn bottom_height_zero_hides_panel() {
    let opts = opts_with(options::SIDEBAR_BOTTOM_HEIGHT, "0");
    assert_eq!(bottom_panel_height_from_options(&opts), 0);
}

#[test]
fn bottom_height_falls_back_on_invalid_value() {
    let opts = opts_with(options::SIDEBAR_BOTTOM_HEIGHT, "abc");
    assert_eq!(bottom_panel_height_from_options(&opts), BOTTOM_PANEL_HEIGHT);
}

#[test]
fn bottom_height_falls_back_on_empty_value() {
    let opts = opts_with(options::SIDEBAR_BOTTOM_HEIGHT, "");
    assert_eq!(bottom_panel_height_from_options(&opts), BOTTOM_PANEL_HEIGHT);
}

#[test]
fn pet_defaults_off_when_option_missing() {
    let opts = TextMap::new();
    assert!(!pet_enabled_from_options(&opts));
}

#[test]
fn pet_enabled_when_on() {
    for value in ["on", "ON", "true", "1", "yes"] {
        let opts = opts_with(options::SIDEBAR_PET, value);
        assert!(
            pet_enabled_from_options(&opts),
            "expected {value} to enable"
        );
    }
}

#[test]
fn pet_disabled_when_off() {
    for value in ["off", "false", "0", "no", ""] {
        let opts = opts_with(options::SIDEBAR_PET, value);
        assert!(
            !pet_enabled_from_options(&opts),
            "expected {value} to disable"
        );
    }
}
