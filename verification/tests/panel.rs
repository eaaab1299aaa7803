use clippy2::nspanel::PanelState;

#[test]
fn panel_starts_hidden_and_follows_show_and_hide() {
    let mut panel = PanelState::new();
    assert!(!panel.is_visible());
    panel.show();
    assert!(panel.is_visible());
    panel.show();
    assert!(panel.is_visible());
    panel.set_hidden();
    assert!(!panel.is_visible());
}
