use chrome_for_testing_manager::cache::{CacheDir, ExecutableLayout, LayoutEntry};
use chrome_for_testing_manager::catalog::{Download, Platform, Version};
use chrome_for_testing_manager::error::{Artifact, ManagerError};
use chrome_for_testing_manager::mgr::{
    Catalog, CacheProbe, ChromeForTestingManager, SelectedVersion, VersionRequest,
};

fn mgr(platform: Platform) -> ChromeForTestingManager {
    ChromeForTestingManager::for_platform(CacheDir::new("/cache".to_string()), platform)
}

fn selection() -> SelectedVersion {
    SelectedVersion {
        channel: None,
        version: Version::new(135, 0, 7019, 0),
        revision: "1".to_string(),
        chrome: Some(Download { platform: Platform::Linux64, url: "https://x/chrome.zip".into() }),
        chromedriver: Some(Download {
            platform: Platform::Linux64,
            url: "https://x/chromedriver.zip".into(),
        }),
    }
}

#[test]
fn cache_dir_path_is_root() {
    let dir = CacheDir::new("/home/u/.cache/chromedriver-manager".to_string());
    assert_eq!(dir.path(), "/home/u/.cache/chromedriver-manager");
}

#[test]
fn version_dir_layout() {
    let m = mgr(Platform::Linux64);
    assert_eq!(m.version_dir(Version::new(135, 0, 7019, 0)), vec!["/cache", "135.0.7019.0"]);
}

#[test]
fn linux_paths() {
    let paths = mgr(Platform::Linux64).cache_paths(Version::new(135, 0, 7019, 0)).unwrap();
    assert_eq!(paths.platform_dir, vec!["/cache", "135.0.7019.0", "linux64"]);
    assert_eq!(
        paths.package.chrome_executable,
        vec!["/cache", "135.0.7019.0", "linux64", "chrome-linux64", "chrome"]
    );
    assert_eq!(
        paths.package.chromedriver_executable,
        vec!["/cache", "135.0.7019.0", "linux64", "chromedriver-linux64", "chromedriver"]
    );
}

#[test]
fn mac_and_windows_paths() {
    let mac = mgr(Platform::MacArm64).cache_paths(Version::new(1, 2, 3, 4)).unwrap();
    assert_eq!(
        mac.package.chrome_executable,
        vec![
            "/cache",
            "1.2.3.4",
            "mac-arm64",
            "chrome-mac-arm64",
            "Google Chrome for Testing.app",
            "Contents",
            "MacOS",
            "Google Chrome for Testing"
        ]
    );
    let mac_x64 = mgr(Platform::MacX64).cache_paths(Version::new(1, 2, 3, 4)).unwrap();
    assert_eq!(
        mac_x64.package.chrome_executable,
        vec!["/cache", "1.2.3.4", "mac-x64", "chrome-mac-x64", "chrome"]
    );
    assert_eq!(
        mac_x64.package.chromedriver_executable,
        vec!["/cache", "1.2.3.4", "mac-x64", "chromedriver-mac-x64", "chromedriver"]
    );
    let win = mgr(Platform::Win32).cache_paths(Version::new(1, 2, 3, 4)).unwrap();
    assert_eq!(
        win.package.chrome_executable,
        vec!["/cache", "1.2.3.4", "win32", "chrome-win32", "chrome.exe"]
    );
    assert_eq!(
        win.package.chromedriver_executable,
        vec!["/cache", "1.2.3.4", "win32", "chromedriver-win32", "chromedriver.exe"]
    );
}

#[test]
fn injected_layout_is_used() {
    let layout = ExecutableLayout {
        entries: vec![LayoutEntry {
            platform: Platform::Linux64,
            chrome: vec!["fake-chrome".to_string()],
            chromedriver: vec!["bin".to_string(), "fake-driver".to_string()],
        }],
    };
    let m = ChromeForTestingManager::with_layout(
        CacheDir::new("/tmp/c".to_string()),
        Platform::Linux64,
        layout,
    );
    let paths = m.cache_paths(Version::new(1, 0, 0, 0)).unwrap();
    assert_eq!(paths.package.chromedriver_executable, vec!["/tmp/c", "1.0.0.0", "linux64", "bin", "fake-driver"]);
    let other = ChromeForTestingManager::with_layout(
        CacheDir::new("/tmp/c".to_string()),
        Platform::Win64,
        ExecutableLayout { entries: Vec::new() },
    );
    assert!(matches!(
        other.cache_paths(Version::new(1, 0, 0, 0)),
        Err(ManagerError::NoLayoutForPlatform { platform: Platform::Win64 })
    ));
}

#[test]
fn standard_layout_covers_every_platform() {
    let layout = ExecutableLayout::standard();
    for p in [
        Platform::Linux64,
        Platform::LinuxArm64,
        Platform::MacArm64,
        Platform::MacX64,
        Platform::Win32,
        Platform::Win64,
    ] {
        assert_eq!(layout.lookup(p).unwrap().platform, p);
    }
}

#[test]
fn empty_cache_plans_both_downloads() {
    let steps = mgr(Platform::Linux64)
        .install_steps(
            &selection(),
            CacheProbe { chrome_installed: false, chromedriver_installed: false },
        )
        .unwrap();
    assert_eq!(steps.len(), 2);
    assert_eq!(steps[0].artifact, Artifact::Chrome);
    assert_eq!(steps[0].url, "https://x/chrome.zip");
    assert_eq!(steps[0].archive_name(), "chrome.zip");
    assert_eq!(steps[1].artifact, Artifact::ChromeDriver);
    assert_eq!(steps[1].url, "https://x/chromedriver.zip");
    assert_eq!(steps[1].archive_name(), "chromedriver.zip");
}

#[test]
fn populated_cache_plans_no_download() {
    let m = mgr(Platform::Linux64);
    let first = m
        .install_steps(&selection(), CacheProbe { chrome_installed: false, chromedriver_installed: true })
        .unwrap();
    assert_eq!(first.len(), 1);
    assert_eq!(first[0].artifact, Artifact::Chrome);
    let second = m
        .install_steps(&selection(), CacheProbe { chrome_installed: true, chromedriver_installed: true })
        .unwrap();
    assert!(second.is_empty());
}

#[test]
fn selection_without_archives_cannot_be_installed() {
    let m = mgr(Platform::Linux64);
    let mut sel = selection();
    sel.chromedriver = None;
    let probe = CacheProbe { chrome_installed: true, chromedriver_installed: true };
    assert!(matches!(
        m.install_steps(&sel, probe),
        Err(ManagerError::AssetUnavailableForPlatform { artifact: Artifact::ChromeDriver, .. })
    ));
    sel.chrome = None;
    assert!(matches!(
        m.install_steps(&sel, probe),
        Err(ManagerError::AssetUnavailableForPlatform { artifact: Artifact::Chrome, .. })
    ));
}

#[test]
fn manager_resolves_through_dispatch() {
    let m = mgr(Platform::Linux64);
    let r = m.resolve_version(VersionRequest::Latest, &Catalog::KnownGood(Vec::new()));
    assert!(matches!(r, Err(ManagerError::VersionNotFound)));
}

#[test]
fn manager_for_this_machine_detects_its_platform() {
    let m = ChromeForTestingManager::new(CacheDir::new("/cache".to_string()))
        .expect("the machine running the tests is a supported platform");
    assert_eq!(m.layout.lookup(m.platform).unwrap().platform, m.platform);
    assert_eq!(m.cache_dir.path(), "/cache");
}
