use speaktype_cloud::history::{
    audio_path, audio_stem, entries_without, partition_expired, preview_text, stored_audio_path,
};
use speaktype_cloud::paths::history_audio_dir;

#[test]
fn preview_truncates_long_text() {
    assert_eq!(preview_text("Hello world"), "Hello world");

    let long_text = "A".repeat(100);
    let preview = preview_text(&long_text);
    assert!(preview.ends_with('…'));
    assert_eq!(preview.chars().count(), 73);
}

#[test]
fn preview_is_one_trimmed_line() {
    assert_eq!(preview_text("  first\nsecond  "), "first second");
    assert_eq!(preview_text(&"A".repeat(72)), "A".repeat(72));
}

#[test]
fn preview_counts_characters_not_bytes() {
    let short = "字".repeat(30);
    assert_eq!(preview_text(&short), short);
    let long = "字".repeat(80);
    assert_eq!(preview_text(&long), format!("{}…", "字".repeat(72)));
    let mixed = format!("{}{}", "A".repeat(71), "字".repeat(5));
    assert_eq!(preview_text(&mixed), format!("{}字…", "A".repeat(71)));
}

#[test]
fn audio_files_are_named_after_the_entry() {
    assert_eq!(audio_stem("20260719_123456_0000"), "20260719_123456_0000.wav");
    assert_eq!(audio_path("x"), history_audio_dir().join("x.wav"));
}

#[test]
fn cleanup_removes_old_entries() {
    let now = 1_000_000_i64;
    let old = now - 10 * 86_400;
    let recent = now - 86_400;
    let cutoff = now - 7 * 86_400;
    let (keep, removed) = partition_expired(&[old, recent], cutoff);

    assert_eq!(keep, vec![1]);
    assert_eq!(removed, 1);
    assert_eq!(partition_expired(&[cutoff], cutoff), (vec![0], 0));
}

#[test]
fn delete_entry_removes_jsonl_line_and_audio() {
    let ids = vec!["a".to_string(), "b".to_string(), "a".to_string()];
    assert_eq!(entries_without(&ids, "a"), vec![1]);
    assert_eq!(entries_without(&ids, "c"), vec![0, 1, 2]);
}

#[test]
fn an_entry_finds_its_audio_in_the_audio_dir() {
    assert_eq!(stored_audio_path(&None), None);
    let stem = audio_stem("20260719_123456_0000");
    assert_eq!(stored_audio_path(&Some(stem.clone())), Some(history_audio_dir().join(&stem)));
    assert_eq!(stored_audio_path(&Some(stem)), Some(audio_path("20260719_123456_0000")));
}
