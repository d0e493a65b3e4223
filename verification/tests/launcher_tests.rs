use mineplace3d_launcher::launcher::{
    ButtonMessage, DownloadUpdate, Effect, InputMessage, Launcher, LauncherSettings, Message,
    Page, VersionsFileError, versions_from_json,
};
use mineplace3d_launcher::version::{Version, VersionStage};

fn v(major: u32, minor: u32, patch: u32, stage: VersionStage, build: u32) -> Version {
    Version { major, minor, patch, stage, build }
}

fn launcher() -> Launcher {
    Launcher::new(LauncherSettings { game_dir: "/games/mp3d".to_string() })
}

fn type_version(l: &mut Launcher, text: &str) {
    let o = l.update(Message::Input(InputMessage::VersionContentChanged(text.to_string())));
    assert!(o.log.is_none());
    assert!(matches!(o.effect, Effect::Nothing));
}

#[test]
fn new_launcher_starts_empty_on_main_page() {
    let l = launcher();
    assert_eq!(l.game_dir(), "/games/mp3d");
    assert_eq!(l.input_game_dir_content(), "/games/mp3d");
    assert_eq!(l.input_version_content(), "");
    assert!(!l.version_downloading());
    assert_eq!(l.version_download_update(), DownloadUpdate::Idle);
    assert_eq!(l.page(), Page::Main);
    assert!(l.installed_versions_desc().is_empty());
    assert!(!l.download_enabled());
    assert_eq!(l.download_button_label(), "Download Version");
}

#[test]
fn settings_come_from_the_file_or_the_default() {
    let s = LauncherSettings::from_config(Some("/a".to_string()), Some("/b".to_string())).unwrap();
    assert_eq!(s.game_dir, "/a");
    let s = LauncherSettings::from_config(None, Some("/b".to_string())).unwrap();
    assert_eq!(s.game_dir, "/b");
    assert_eq!(
        LauncherSettings::from_config(None, None).err(),
        Some("game_dir is required".to_string())
    );
}

#[test]
fn versions_file_is_read_skipping_bad_entries() {
    let mut l = launcher();
    let text = r#"["1.2.3", "bad", "v0.3.0-alpha.1", "1.2.3", " 1.2.3 "]"#;
    assert_eq!(l.load_versions(Some(text)), Ok(()));
    assert_eq!(
        l.installed_versions_desc(),
        vec![v(1, 2, 3, VersionStage::Release, 0), v(0, 3, 0, VersionStage::Alpha, 1)]
    );
    assert!(l.is_installed(v(1, 2, 3, VersionStage::Release, 0)));
    assert!(!l.is_installed(v(1, 2, 4, VersionStage::Release, 0)));
}

#[test]
fn unreadable_versions_file_leaves_launcher_alone() {
    let mut l = launcher();
    l.load_versions(Some(r#"["1.0.0"]"#)).unwrap();
    assert_eq!(l.load_versions(Some("not json")), Err(VersionsFileError::NotAStringArray));
    assert_eq!(l.load_versions(Some(r#"{"a": 1}"#)), Err(VersionsFileError::NotAStringArray));
    assert_eq!(l.load_versions(Some("[1, 2]")), Err(VersionsFileError::NotAStringArray));
    assert_eq!(l.installed_versions_desc(), vec![v(1, 0, 0, VersionStage::Release, 0)]);
    assert_eq!(l.load_versions(None), Ok(()));
    assert!(l.installed_versions_desc().is_empty());
    assert_eq!(versions_from_json("[]"), Ok(vec![]));
}

#[test]
fn saved_versions_are_read_back() {
    let mut l = launcher();
    l.load_versions(Some(r#"["0.1.0", "0.3.0-beta.2", "0.2.2", "0.3.0-alpha"]"#)).unwrap();
    let text = l.versions_json().expect("serializable");
    assert_eq!(
        text,
        "[\n  \"0.3.0-beta.2\",\n  \"0.3.0-alpha\",\n  \"0.2.2\",\n  \"0.1.0\"\n]"
    );
    let mut other = launcher();
    other.load_versions(Some(&text)).unwrap();
    assert_eq!(other.installed_versions_desc(), l.installed_versions_desc());
}

#[test]
fn installed_versions_are_listed_newest_first() {
    let mut l = launcher();
    l.load_versions(Some(r#"["0.2.2", "1.0.0-alpha", "1.0.0", "0.10.0", "1.0.0-beta.3", "1.0.0-beta.10"]"#))
        .unwrap();
    let list: Vec<String> = l.installed_versions_desc().iter().map(|v| v.to_string()).collect();
    assert_eq!(
        list,
        vec!["1.0.0", "1.0.0-beta.10", "1.0.0-beta.3", "1.0.0-alpha", "0.10.0", "0.2.2"]
    );
}

#[test]
fn download_button_starts_a_download_of_a_new_version() {
    let mut l = launcher();
    type_version(&mut l, "0.3.0-alpha.1");
    assert!(l.download_enabled());
    let o = l.update(Message::Button(ButtonMessage::DownloadVersion));
    assert!(o.log.is_none());
    match o.effect {
        Effect::StartDownload { game_dir, version } => {
            assert_eq!(game_dir, "/games/mp3d");
            assert_eq!(version, v(0, 3, 0, VersionStage::Alpha, 1));
        }
        _ => panic!("expected a download"),
    }
    assert!(l.version_downloading());
    assert!(!l.download_enabled());
    assert_eq!(l.download_button_label(), "Downloading...");
}

#[test]
fn download_button_rejects_text_that_is_no_version() {
    let mut l = launcher();
    type_version(&mut l, "latest");
    assert!(!l.download_enabled());
    let o = l.update(Message::Button(ButtonMessage::DownloadVersion));
    assert_eq!(o.log, Some("Invalid version format: latest".to_string()));
    assert!(matches!(o.effect, Effect::Nothing));
    assert!(!l.version_downloading());
}

#[test]
fn a_downloaded_version_is_installed_and_not_downloaded_again() {
    let mut l = launcher();
    type_version(&mut l, "1.2.3");
    l.update(Message::Button(ButtonMessage::DownloadVersion));
    let o = l.update(Message::VersionDownloaded(v(1, 2, 3, VersionStage::Release, 0)));
    assert!(o.log.is_none());
    assert!(matches!(o.effect, Effect::SaveVersions));
    assert!(!l.version_downloading());
    assert!(l.is_installed(v(1, 2, 3, VersionStage::Release, 0)));
    assert!(!l.download_enabled());
    let o = l.update(Message::Button(ButtonMessage::DownloadVersion));
    assert!(o.log.is_none());
    assert!(matches!(o.effect, Effect::Nothing));
    assert!(!l.version_downloading());
    // A second report of the same download keeps it once.
    l.update(Message::VersionDownloaded(v(1, 2, 3, VersionStage::Release, 0)));
    assert_eq!(l.installed_versions_desc().len(), 1);
}

#[test]
fn run_button_launches_only_installed_versions() {
    let mut l = launcher();
    type_version(&mut l, "1.2.3");
    let o = l.update(Message::Button(ButtonMessage::RunVersion));
    assert_eq!(
        o.log,
        Some("Error running version: Version v1.2.3 is not available".to_string())
    );
    assert!(matches!(o.effect, Effect::Nothing));
    assert_eq!(
        l.run_version(v(1, 2, 3, VersionStage::Release, 0)),
        Err("Version v1.2.3 is not available".to_string())
    );
    l.update(Message::VersionDownloaded(v(1, 2, 3, VersionStage::Release, 0)));
    let o = l.update(Message::Button(ButtonMessage::RunVersion));
    assert!(o.log.is_none());
    assert!(matches!(o.effect, Effect::Launch { version } if version == v(1, 2, 3, VersionStage::Release, 0)));
    assert_eq!(l.run_version(v(1, 2, 3, VersionStage::Release, 0)), Ok(()));
    type_version(&mut l, "1,2,3");
    let o = l.update(Message::Button(ButtonMessage::RunVersion));
    assert_eq!(o.log, Some("Invalid version format: 1,2,3".to_string()));
}

#[test]
fn settings_pages_and_saving() {
    let mut l = launcher();
    assert!(matches!(l.update(Message::Button(ButtonMessage::OpenSettings)).effect, Effect::Nothing));
    assert_eq!(l.page(), Page::Settings);
    l.update(Message::Input(InputMessage::GameDirContentChanged("/new/place".to_string())));
    assert_eq!(l.input_game_dir_content(), "/new/place");
    assert_eq!(l.game_dir(), "/games/mp3d");
    let o = l.update(Message::Button(ButtonMessage::SaveSettings));
    assert!(o.log.is_none());
    match o.effect {
        Effect::ApplySettings { old_game_dir, new_game_dir } => {
            assert_eq!(old_game_dir, "/games/mp3d");
            assert_eq!(new_game_dir, "/new/place");
        }
        _ => panic!("expected new settings"),
    }
    assert_eq!(l.game_dir(), "/new/place");
    assert_eq!(l.page(), Page::Main);
    l.update(Message::Button(ButtonMessage::OpenSettings));
    l.update(Message::Button(ButtonMessage::ExitSettings));
    assert_eq!(l.page(), Page::Main);
    assert_eq!(l.game_dir(), "/new/place");
}

#[test]
fn download_status_follows_reports() {
    let mut l = launcher();
    let progress = DownloadUpdate::Progress { progress: 0.5f32.to_bits(), speed: 1024.0f32.to_bits() };
    assert!(l.update(Message::VersionDownloadUpdate(progress)).log.is_none());
    assert_eq!(l.version_download_update(), progress);
    let o = l.update(Message::VersionDownloadFailed("boom".to_string()));
    assert_eq!(o.log, Some("Version download failed: boom".to_string()));
    assert!(matches!(o.effect, Effect::ClearLater));
    assert_eq!(
        l.version_download_update(),
        DownloadUpdate::Failed { last_progress: Some(0.5f32.to_bits()) }
    );
    l.update(Message::VersionDownloadClear);
    assert_eq!(l.version_download_update(), DownloadUpdate::Idle);
    l.update(Message::VersionDownloadUpdate(DownloadUpdate::Finished));
    l.update(Message::VersionDownloadFailed("again".to_string()));
    assert_eq!(l.version_download_update(), DownloadUpdate::Failed { last_progress: None });
    assert_eq!(DownloadUpdate::default(), DownloadUpdate::Idle);
}
