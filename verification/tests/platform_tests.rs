use mineplace3d_launcher::download::{stalled, ChunkOutcome, DownloadMeter, ProgressSample};
use mineplace3d_launcher::platform::{
    asset_name, executable_name, find_asset_download_url, release_url, sdl2_listed, ReleaseAsset,
    TargetArch, TargetOs,
};
use mineplace3d_launcher::version::{Version, VersionStage};

fn asset(name: Option<&str>, url: Option<&str>) -> ReleaseAsset {
    ReleaseAsset {
        name: name.map(|s| s.to_string()),
        browser_download_url: url.map(|s| s.to_string()),
    }
}

fn alpha() -> Version {
    Version { major: 0, minor: 3, patch: 0, stage: VersionStage::Alpha, build: 1 }
}

#[test]
fn asset_names_per_platform() {
    assert_eq!(asset_name(TargetOs::Linux, TargetArch::X86_64), "mineplace3d-linux-x86_64");
    assert_eq!(asset_name(TargetOs::Windows, TargetArch::Aarch64), "mineplace3d-windows-aarch64.exe");
    assert_eq!(asset_name(TargetOs::MacOs, TargetArch::Aarch64), "mineplace3d-macos-aarch64.app");
    assert_eq!(asset_name(TargetOs::Other, TargetArch::Other), "mineplace3d-unknown-unknown");
}

#[test]
fn executable_names_and_release_address() {
    assert_eq!(executable_name(alpha(), TargetOs::Linux), "0.3.0-alpha.1");
    assert_eq!(executable_name(alpha(), TargetOs::Windows), "0.3.0-alpha.1.exe");
    assert_eq!(executable_name(alpha(), TargetOs::MacOs), "0.3.0-alpha.1.app");
    assert_eq!(
        release_url(alpha()),
        "https://api.github.com/repos/Muhtasim-Rasheed/mineplace3d/releases/tags/v0.3.0-alpha.1"
    );
}

#[test]
fn first_matching_asset_is_chosen() {
    let assets = Some(vec![
        asset(None, Some("https://x/none")),
        asset(Some("mineplace3d-linux-aarch64"), Some("https://x/arm")),
        asset(Some("mineplace3d-linux-x86_64"), Some("https://x/first")),
        asset(Some("mineplace3d-linux-x86_64"), Some("https://x/second")),
    ]);
    assert_eq!(
        find_asset_download_url(&assets, "mineplace3d-linux-x86_64", alpha()),
        Ok("https://x/first".to_string())
    );
}

#[test]
fn missing_asset_or_address_is_reported() {
    let no_list: Option<Vec<ReleaseAsset>> = None;
    assert_eq!(
        find_asset_download_url(&no_list, "mineplace3d-linux-x86_64", alpha()),
        Err("No suitable asset found for version v0.3.0-alpha.1".to_string())
    );
    let assets = Some(vec![asset(Some("other"), Some("https://x/o"))]);
    assert_eq!(
        find_asset_download_url(&assets, "mineplace3d-linux-x86_64", alpha()),
        Err("No suitable asset found for version v0.3.0-alpha.1".to_string())
    );
    let assets = Some(vec![asset(Some("mineplace3d-linux-x86_64"), None)]);
    assert_eq!(
        find_asset_download_url(&assets, "mineplace3d-linux-x86_64", alpha()),
        Err("Invalid asset download URL for version v0.3.0-alpha.1".to_string())
    );
}

#[test]
fn sdl2_is_found_in_the_library_listing() {
    let listing = "123 libs found in cache\n\tlibSDL2-2.0.so.0 (libc6,x86-64) => /usr/lib/libSDL2-2.0.so.0\n";
    assert!(sdl2_listed(true, listing));
    assert!(!sdl2_listed(false, listing));
    assert!(!sdl2_listed(true, "libSDL3.so"));
    assert!(!sdl2_listed(true, ""));
}

#[test]
fn meter_reports_once_a_period_is_over() {
    let mut m = DownloadMeter::new();
    assert_eq!(m.on_chunk(100, 10, Some(1000)), ChunkOutcome::Continue);
    assert_eq!(m.on_chunk(200, 249, Some(1000)), ChunkOutcome::Continue);
    assert_eq!(
        m.on_chunk(50, 250, Some(1000)),
        ChunkOutcome::PeriodEnded(Some(ProgressSample { downloaded: 350, total: 1000, since_last: 350 }))
    );
    assert_eq!(m.downloaded_since_last, 0);
    assert_eq!(m.on_chunk(10, 300, None), ChunkOutcome::PeriodEnded(None));
    assert_eq!(m.downloaded, 360);
    assert!(!stalled(9_999));
    assert!(stalled(10_000));
}
