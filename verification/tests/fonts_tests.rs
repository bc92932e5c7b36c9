use speaktype_cloud::fonts::{missing_font_message, CJK_FONT_KEY, WINDOWS_CJK_FONT_FILES};

#[test]
fn missing_font_warning_lists_every_checked_path() {
    let checked = vec!["/a/msjh.ttc".to_string(), "/b/msyh.ttc".to_string()];
    assert_eq!(
        missing_font_message(&checked),
        "找不到可用的中文字型，介面中文可能無法顯示。已檢查：/a/msjh.ttc, /b/msyh.ttc"
    );
    assert_eq!(missing_font_message(&[]), "找不到可用的中文字型，介面中文可能無法顯示。已檢查：");
}

#[test]
fn cjk_font_names_are_fixed() {
    assert_eq!(CJK_FONT_KEY, "speaktype-cjk");
    assert_eq!(WINDOWS_CJK_FONT_FILES[0], "msjh.ttc");
    assert_eq!(WINDOWS_CJK_FONT_FILES.len(), 7);
}
