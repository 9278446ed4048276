use chrome_for_testing_manager::catalog::{
    find_download, Channel, ChannelVersion, Download, KnownGoodVersion, Platform, Version,
};
use chrome_for_testing_manager::error::{Artifact, ManagerError};
use chrome_for_testing_manager::mgr::{
    resolve_fixed, resolve_in_channel, resolve_latest, Catalog, SelectedVersion, VersionRequest,
};

fn dl(platform: Platform, url: &str) -> Download {
    Download { platform, url: url.to_string() }
}

fn entry(v: Version) -> KnownGoodVersion {
    let text = v.to_string();
    KnownGoodVersion {
        version: v,
        revision: format!("rev-{text}"),
        chrome: vec![
            dl(Platform::Win64, &format!("https://example.test/{text}/win64/chrome.zip")),
            dl(Platform::Linux64, &format!("https://example.test/{text}/linux64/chrome.zip")),
        ],
        chromedriver: Some(vec![dl(
            Platform::Linux64,
            &format!("https://example.test/{text}/linux64/chromedriver.zip"),
        )]),
    }
}

fn synthetic_catalog() -> Vec<KnownGoodVersion> {
    vec![
        entry(Version::new(1, 0, 0, 0)),
        entry(Version::new(2, 3, 4, 5)),
        entry(Version::new(2, 3, 4, 4)),
    ]
}

#[test]
fn latest_picks_highest_version() {
    let sel = resolve_latest(&synthetic_catalog(), Platform::Linux64).unwrap();
    assert_eq!(sel.version, Version::new(2, 3, 4, 5));
    assert_eq!(sel.channel, None);
    assert_eq!(sel.revision, "rev-2.3.4.5");
    assert_eq!(sel.chrome.unwrap().url, "https://example.test/2.3.4.5/linux64/chrome.zip");
    assert_eq!(
        sel.chromedriver.unwrap().url,
        "https://example.test/2.3.4.5/linux64/chromedriver.zip"
    );
}

#[test]
fn latest_on_ties_keeps_first_entry() {
    let mut first = entry(Version::new(3, 0, 0, 0));
    first.revision = "first".to_string();
    let mut second = entry(Version::new(3, 0, 0, 0));
    second.revision = "second".to_string();
    let catalog = vec![entry(Version::new(1, 0, 0, 0)), first, second];
    let sel = resolve_latest(&catalog, Platform::Linux64).unwrap();
    assert_eq!(sel.revision, "first");
}

#[test]
fn latest_of_empty_catalog_is_not_found() {
    let r = resolve_latest(&Vec::new(), Platform::Linux64);
    assert!(matches!(r, Err(ManagerError::VersionNotFound)));
}

#[test]
fn fixed_present_version_is_selected() {
    let catalog = synthetic_catalog();
    for v in [Version::new(1, 0, 0, 0), Version::new(2, 3, 4, 5), Version::new(2, 3, 4, 4)] {
        let sel = resolve_fixed(&catalog, v, Platform::Linux64).unwrap();
        assert_eq!(sel.version, v);
    }
}

#[test]
fn fixed_absent_version_is_not_found() {
    let r = resolve_fixed(&synthetic_catalog(), Version::new(135, 0, 7019, 0), Platform::Linux64);
    assert!(matches!(r, Err(ManagerError::VersionNotFound)));
}

#[test]
fn missing_browser_for_platform_is_reported() {
    let r = resolve_fixed(&synthetic_catalog(), Version::new(2, 3, 4, 5), Platform::MacArm64);
    assert!(matches!(
        r,
        Err(ManagerError::AssetUnavailableForPlatform {
            artifact: Artifact::Chrome,
            platform: Platform::MacArm64
        })
    ));
}

#[test]
fn missing_driver_for_platform_is_reported() {
    let r = resolve_fixed(&synthetic_catalog(), Version::new(2, 3, 4, 5), Platform::Win64);
    assert!(matches!(
        r,
        Err(ManagerError::AssetUnavailableForPlatform {
            artifact: Artifact::ChromeDriver,
            platform: Platform::Win64
        })
    ));
}

#[test]
fn unpublished_driver_is_reported() {
    let mut e = entry(Version::new(100, 0, 0, 0));
    e.chromedriver = None;
    let r = SelectedVersion::from_known_good(&e, Platform::Linux64);
    assert!(matches!(
        r,
        Err(ManagerError::AssetUnavailableForPlatform { artifact: Artifact::ChromeDriver, .. })
    ));
}

fn channel_entry(channel: Channel, v: Version) -> ChannelVersion {
    ChannelVersion {
        channel,
        version: v,
        revision: "1".to_string(),
        chrome: vec![dl(Platform::Linux64, "https://example.test/c.zip")],
        chromedriver: vec![dl(Platform::Linux64, "https://example.test/d.zip")],
    }
}

#[test]
fn channel_lookup_selects_its_version() {
    let catalog = vec![
        channel_entry(Channel::Stable, Version::new(131, 0, 6778, 204)),
        channel_entry(Channel::Beta, Version::new(132, 0, 6834, 57)),
    ];
    let sel = resolve_in_channel(&catalog, Channel::Beta, Platform::Linux64).unwrap();
    assert_eq!(sel.version, Version::new(132, 0, 6834, 57));
    assert_eq!(sel.channel, Some(Channel::Beta));
    let missing = resolve_in_channel(&catalog, Channel::Canary, Platform::Linux64);
    assert!(matches!(missing, Err(ManagerError::VersionNotFound)));
}

#[test]
fn version_order_and_text() {
    assert!(Version::new(1, 0, 0, 1).is_newer_than(&Version::new(1, 0, 0, 0)));
    assert!(Version::new(2, 0, 0, 0).is_newer_than(&Version::new(1, 9, 9, 9)));
    assert!(!Version::new(1, 0, 0, 0).is_newer_than(&Version::new(1, 0, 0, 0)));
    assert!(!Version::new(1, 0, 1, 0).is_newer_than(&Version::new(1, 1, 0, 0)));
    assert_eq!(Version::new(115, 785, 5763, 42).to_string(), "115.785.5763.42");
    assert_eq!(
        Version::new(u32::MAX, 0, 10, 9).to_string(),
        "4294967295.0.10.9"
    );
}

#[test]
fn download_lookup_takes_first_for_platform() {
    let list = vec![
        dl(Platform::Win32, "a"),
        dl(Platform::Linux64, "b"),
        dl(Platform::Linux64, "c"),
    ];
    assert_eq!(find_download(&list, Platform::Linux64).unwrap().url, "b");
    assert!(find_download(&list, Platform::MacX64).is_none());
}

#[test]
fn platform_tags() {
    assert_eq!(Platform::Linux64.tag(), "linux64");
    assert_eq!(Platform::LinuxArm64.tag(), "linux-arm64");
    assert_eq!(Platform::MacArm64.tag(), "mac-arm64");
    assert_eq!(Platform::MacX64.tag(), "mac-x64");
    assert_eq!(Platform::Win32.tag(), "win32");
    assert_eq!(Platform::Win64.tag(), "win64");
}

#[test]
fn request_reads_matching_catalog() {
    assert!(VersionRequest::LatestIn(Channel::Stable).reads_channel_catalog());
    assert!(!VersionRequest::Latest.reads_channel_catalog());
    assert!(!VersionRequest::Fixed(Version::new(1, 2, 3, 4)).reads_channel_catalog());
    let _ = Catalog::KnownGood(Vec::new());
}
