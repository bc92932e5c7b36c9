use speaktype_cloud::theme::colors;

#[test]
fn colors_are_consistent() {
    assert_eq!(colors::TEXT_LINK, colors::ACCENT_BLUE);
    assert!(colors::BG_BASE != colors::BG_CARD);
}

#[test]
fn colors_split_into_channels() {
    assert_eq!(colors::rgb_components(colors::ACCENT_BLUE), (0x00, 0x7A, 0xFF));
    assert_eq!(colors::rgb_components(colors::BG_BASE), (0xF5, 0xF5, 0xF7));
}
