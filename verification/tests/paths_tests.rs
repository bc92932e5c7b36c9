use speaktype_cloud::history::{audio_path_in, audio_stem, stored_audio_path_in};
use speaktype_cloud::paths::{
    config_path, config_path_in, data_dir, data_dir_in, history_audio_dir, history_audio_dir_in, history_path,
    history_path_in, platform_dirs, recordings_dir, recordings_dir_in,
};

#[test]
fn files_live_under_the_data_directory() {
    let data = data_dir();
    assert_eq!(history_path(), data.join("history").join("entries.jsonl"));
    assert_eq!(history_audio_dir(), data.join("history").join("audio"));
    assert_eq!(recordings_dir(), data.join("recordings"));
    assert!(config_path().ends_with("config.toml"));
}

#[test]
fn one_set_of_platform_directories_ties_the_paths_together() {
    for dirs in [platform_dirs(), None] {
        let data = data_dir_in(&dirs);
        let history = history_path_in(&dirs);
        let audio = history_audio_dir_in(&dirs);
        assert_eq!(history, data.join("history").join("entries.jsonl"));
        assert_eq!(audio, data.join("history").join("audio"));
        assert_eq!(history.parent(), audio.parent());
        assert_eq!(recordings_dir_in(&dirs), data.join("recordings"));
        assert!(config_path_in(&dirs).ends_with("config.toml"));
        let id = "20260719_123456_0000";
        assert_eq!(audio_path_in(&dirs, id), audio.join(audio_stem(id)));
        assert_eq!(stored_audio_path_in(&dirs, &Some(audio_stem(id))), Some(audio_path_in(&dirs, id)));
        assert_eq!(stored_audio_path_in(&dirs, &None), None);
    }
    assert_eq!(data_dir_in(&None), std::path::PathBuf::from("data"));
}
