use speaktype_cloud::config::{ChineseVariant, DictionaryEntry, TextProcessingConfig, VoiceCommand, VoiceCommandAction};
use speaktype_cloud::postprocess::{
    apply_dictionary_once, clean_transcript, convert_chinese_variant, fix_cjk_spacing, format_transcript,
    normalize_chinese_punctuation, process_transcript, remove_spaces_around_cjk_punctuation, DeliveryMode,
};

#[test]
fn removes_spaces_between_chinese_characters() {
    assert_eq!(clean_transcript("你 好 世 界", false), "你好世界");
}

#[test]
fn clean_transcript_appends_a_space_on_request() {
    assert_eq!(clean_transcript("  hello   world  ", true), "hello world ");
}

#[test]
fn normalizes_chinese_punctuation_without_touching_decimal_points() {
    assert_eq!(
        normalize_chinese_punctuation("你好,世界!版本 3.14 ok?"),
        "你好，世界！版本 3.14 ok?"
    );
}

#[test]
fn spaces_around_cjk_punctuation_are_removed() {
    assert_eq!(remove_spaces_around_cjk_punctuation("你好 ， 世界"), "你好，世界");
    assert_eq!(fix_cjk_spacing("中 文 text"), "中文 text");
}

#[test]
fn converts_between_taiwan_traditional_and_simplified() {
    assert_eq!(
        convert_chinese_variant("软件和鼠标", ChineseVariant::Traditional),
        "軟體和滑鼠"
    );
    assert_eq!(
        convert_chinese_variant("軟體和滑鼠", ChineseVariant::Simplified),
        "软件和鼠标"
    );
    assert_eq!(
        convert_chinese_variant("原樣", ChineseVariant::Preserve),
        "原樣"
    );
}

#[test]
fn dictionary_uses_safe_ascii_word_boundaries_and_cjk_phrases() {
    let entries = vec![
        DictionaryEntry {
            source: "cat".to_string(),
            replacement: "dog".to_string(),
        },
        DictionaryEntry {
            source: "OpenAI".to_string(),
            replacement: "歐噴 AI".to_string(),
        },
        DictionaryEntry {
            source: "語音輸入".to_string(),
            replacement: "SpeakType".to_string(),
        },
    ];

    assert_eq!(
        apply_dictionary_once("concatenate cat OpenAIx OpenAI 好用的語音輸入", &entries),
        "concatenate dog OpenAIx 歐噴 AI 好用的SpeakType"
    );
}

#[test]
fn dictionary_replacements_are_not_processed_recursively() {
    let entries = vec![DictionaryEntry {
        source: "a".to_string(),
        replacement: "aa".to_string(),
    }];

    assert_eq!(apply_dictionary_once("a", &entries), "aa");
}

fn command_config(action: VoiceCommandAction) -> TextProcessingConfig {
    TextProcessingConfig {
        voice_commands_enabled: true,
        voice_commands: vec![VoiceCommand {
            phrase: "刪除輸出".to_string(),
            action,
        }],
        ..TextProcessingConfig::default()
    }
}

#[test]
fn voice_command_requires_strict_full_match() {
    let config = command_config(VoiceCommandAction::Discard);

    let matched = process_transcript("刪除輸出", &config, false).expect("process command");
    assert_eq!(matched.delivery, DeliveryMode::Discard);

    for phrase in ["請刪除輸出", "刪除輸出。", "刪除輸出吧"] {
        let result = process_transcript(phrase, &config, false).expect("process text");
        assert_eq!(result.delivery, DeliveryMode::Normal);
        assert!(!result.text.is_empty());
    }
}

#[test]
fn voice_commands_are_disabled_by_default() {
    let mut config = command_config(VoiceCommandAction::Discard);
    config.voice_commands_enabled = false;

    let result = process_transcript("刪除輸出", &config, false).expect("process text");

    assert_eq!(result.delivery, DeliveryMode::Normal);
    assert_eq!(result.text, "刪除輸出");
}

#[test]
fn voice_command_can_insert_text_or_force_copy_only() {
    let insert = command_config(VoiceCommandAction::InsertText {
        text: "\n".to_string(),
    });
    let copy = command_config(VoiceCommandAction::CopyOnly {
        text: "安全文字".to_string(),
    });

    let inserted = process_transcript("刪除輸出", &insert, false).expect("insert text");
    let copied = process_transcript("刪除輸出", &copy, false).expect("copy text");

    assert_eq!(inserted.text, "\n");
    assert_eq!(inserted.delivery, DeliveryMode::Normal);
    assert_eq!(copied.text, "安全文字");
    assert_eq!(copied.delivery, DeliveryMode::CopyOnly);
}

#[test]
fn blank_command_phrase_is_a_configuration_error() {
    let config = TextProcessingConfig {
        voice_commands_enabled: true,
        voice_commands: vec![VoiceCommand { phrase: String::new(), action: VoiceCommandAction::Discard }],
        ..TextProcessingConfig::default()
    };
    assert!(process_transcript("", &config, false).is_err());
}

#[test]
fn formatting_applies_punctuation_and_dictionary() {
    let config = TextProcessingConfig {
        dictionary: vec![DictionaryEntry { source: "世界".to_string(), replacement: "地球".to_string() }],
        ..TextProcessingConfig::default()
    };
    assert_eq!(format_transcript("你好,世界", &config, false), "你好，地球");
}

#[test]
fn asking_for_a_trailing_space_adds_exactly_one() {
    for text in ["", "   ", "hello", "hello \n", "你 好 ", "a\u{0}b\t"] {
        assert_eq!(clean_transcript(text, true), format!("{} ", clean_transcript(text, false)));
    }
}

#[test]
fn cleaning_twice_changes_nothing() {
    for text in ["  hello   world  ", "你 好 世 界", "中 a 文", "x\u{feff}\u{fffd} y\r\n z", ""] {
        let once = clean_transcript(text, false);
        assert_eq!(clean_transcript(&once, false), once);
    }
}

#[test]
fn plain_formatting_is_cleaning() {
    let mut config = TextProcessingConfig::default();
    config.normalize_chinese_punctuation = false;
    config.chinese_variant = ChineseVariant::Preserve;
    config.dictionary = vec![DictionaryEntry { source: String::new(), replacement: "x".to_string() }];
    for text in ["  hello   world ", "你 好,世界!", "", "a\u{0}b"] {
        for append_space in [false, true] {
            assert_eq!(format_transcript(text, &config, append_space), clean_transcript(text, append_space));
        }
    }
}
