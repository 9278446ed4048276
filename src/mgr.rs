//! Version resolution against a release catalog, and the manager that ties
//! resolution to the artifact cache.
use vstd::prelude::*;

use crate::catalog::{
    download_for, find_download, version_lt, Channel, ChannelVersion, Download, KnownGoodVersion,
    Platform, Version,
};
use crate::cache::{is_standard_layout, layout_for, parts, CacheDir, ExecutableLayout};
use crate::catalog::{platform_tag, version_text};
use crate::error::{Artifact, ManagerError};

verus! {

/// Which version to provision.
#[derive(Debug, Clone, Copy, PartialEq, Eq, Structural)]
pub enum VersionRequest {
    /// The newest known-good version, which may not have reached any channel.
    Latest,
    /// The version a release channel is currently pinned to.
    LatestIn(Channel),
    /// Exactly this version.
    Fixed(Version),
}

impl VersionRequest {
    /// Whether this request is answered from the per-channel catalog rather
    /// than from the catalog of all known-good versions.
    pub fn reads_channel_catalog(&self) -> (r: bool)
        ensures
            r == (*self is LatestIn),
    {
        match self {
            VersionRequest::LatestIn(_) => true,
            _ => false,
        }
    }
}

/// A catalog as fetched for one request.
#[derive(Debug)]
pub enum Catalog {
    /// All known-good versions, in catalog order.
    KnownGood(Vec<KnownGoodVersion>),
    /// The current version of each channel.
    Channels(Vec<ChannelVersion>),
}

/// A resolved version together with the archives to install for one platform.
#[derive(Debug)]
pub struct SelectedVersion {
    pub channel: Option<Channel>,
    pub version: Version,
    pub revision: String,
    pub chrome: Option<Download>,
    pub chromedriver: Option<Download>,
}

/// The driver download of a known-good entry for `p`; none where the entry
/// publishes no drivers at all.
pub open spec fn known_driver_for(e: KnownGoodVersion, p: Platform) -> Option<Download> {
    match e.chromedriver {
        None => None,
        Some(list) => download_for(list@, p),
    }
}

/// The selection a catalog entry gives for platform `p`: both archives, or the
/// first one missing for the platform (the browser is looked at first).
pub open spec fn select_assets(
    channel: Option<Channel>,
    version: Version,
    revision: String,
    chrome: Option<Download>,
    driver: Option<Download>,
    p: Platform,
) -> Result<SelectedVersion, ManagerError> {
    if chrome is None {
        Err(ManagerError::AssetUnavailableForPlatform { artifact: Artifact::Chrome, platform: p })
    } else if driver is None {
        Err(
            ManagerError::AssetUnavailableForPlatform {
                artifact: Artifact::ChromeDriver,
                platform: p,
            },
        )
    } else {
        Ok(SelectedVersion { channel, version, revision, chrome, chromedriver: driver })
    }
}

pub open spec fn selected_from_known(e: KnownGoodVersion, p: Platform) -> Result<
    SelectedVersion,
    ManagerError,
> {
    select_assets(None, e.version, e.revision, download_for(e.chrome@, p), known_driver_for(e, p), p)
}

pub open spec fn selected_from_channel(e: ChannelVersion, p: Platform) -> Result<
    SelectedVersion,
    ManagerError,
> {
    select_assets(
        Some(e.channel),
        e.version,
        e.revision,
        download_for(e.chrome@, p),
        download_for(e.chromedriver@, p),
        p,
    )
}

fn assemble(
    channel: Option<Channel>,
    version: Version,
    revision: &String,
    chrome: Option<Download>,
    driver: Option<Download>,
    p: Platform,
) -> (r: Result<SelectedVersion, ManagerError>)
    ensures
        r == select_assets(channel, version, *revision, chrome, driver, p),
{
    if chrome.is_none() {
        Err(ManagerError::AssetUnavailableForPlatform { artifact: Artifact::Chrome, platform: p })
    } else if driver.is_none() {
        Err(
            ManagerError::AssetUnavailableForPlatform {
                artifact: Artifact::ChromeDriver,
                platform: p,
            },
        )
    } else {
        Ok(
            SelectedVersion {
                channel,
                version,
                revision: revision.clone(),
                chrome,
                chromedriver: driver,
            },
        )
    }
}

impl SelectedVersion {
    /// The selection of a known-good catalog entry for `platform`.
    pub fn from_known_good(entry: &KnownGoodVersion, platform: Platform) -> (r: Result<
        SelectedVersion,
        ManagerError,
    >)
        ensures
            r == selected_from_known(*entry, platform),
    {
        let chrome = find_download(&entry.chrome, platform);
        let driver = match &entry.chromedriver {
            None => None,
            Some(list) => find_download(list, platform),
        };
        assemble(None, entry.version, &entry.revision, chrome, driver, platform)
    }

    /// The selection of a per-channel catalog entry for `platform`.
    pub fn from_channel(entry: &ChannelVersion, platform: Platform) -> (r: Result<
        SelectedVersion,
        ManagerError,
    >)
        ensures
            r == selected_from_channel(*entry, platform),
    {
        let chrome = find_download(&entry.chrome, platform);
        let driver = find_download(&entry.chromedriver, platform);
        assemble(Some(entry.channel), entry.version, &entry.revision, chrome, driver, platform)
    }
}

/// `i` is the first entry of `s` whose version is `v`.
pub open spec fn is_first_with_version(s: Seq<KnownGoodVersion>, v: Version, i: int) -> bool {
    &&& 0 <= i < s.len()
    &&& s[i].version == v
    &&& forall|j: int| 0 <= j < i ==> s[j].version != v
}

pub open spec fn has_version(s: Seq<KnownGoodVersion>, v: Version) -> bool {
    exists|i: int| 0 <= i < s.len() && s[i].version == v
}

/// `i` is the first entry of `s` with a maximal version: no entry is newer,
/// and every earlier entry is strictly older.
pub open spec fn is_first_latest(s: Seq<KnownGoodVersion>, i: int) -> bool {
    &&& 0 <= i < s.len()
    &&& forall|j: int| 0 <= j < s.len() ==> !version_lt(#[trigger] s[i].version, s[j].version)
    &&& forall|j: int| 0 <= j < i ==> version_lt(#[trigger] s[j].version, s[i].version)
}

/// `i` is the first entry of `s` for channel `c`.
pub open spec fn is_first_in_channel(s: Seq<ChannelVersion>, c: Channel, i: int) -> bool {
    &&& 0 <= i < s.len()
    &&& s[i].channel == c
    &&& forall|j: int| 0 <= j < i ==> s[j].channel != c
}

pub open spec fn has_channel(s: Seq<ChannelVersion>, c: Channel) -> bool {
    exists|i: int| 0 <= i < s.len() && s[i].channel == c
}

/// Linear search for the first entry with version `v`.
pub fn position_of_version(catalog: &Vec<KnownGoodVersion>, v: Version) -> (r: Option<usize>)
    ensures
        r is None <==> !has_version(catalog@, v),
        r matches Some(i) ==> is_first_with_version(catalog@, v, i as int),
{
    let n = catalog.len();
    let mut i: usize = 0;
    while i < n
        invariant
            n == catalog@.len(),
            i <= n,
            forall|j: int| 0 <= j < i ==> catalog@[j].version != v,
        decreases n - i,
    {
        if catalog[i].version == v {
            return Some(i);
        }
        i = i + 1;
    }
    None
}

/// The first entry with a maximal version, by strict ordinal comparison.
pub fn position_of_latest(catalog: &Vec<KnownGoodVersion>) -> (r: Option<usize>)
    ensures
        r is None <==> catalog@.len() == 0,
        r matches Some(i) ==> is_first_latest(catalog@, i as int),
{
    let n = catalog.len();
    if n == 0 {
        return None;
    }
    let mut latest: usize = 0;
    let mut i: usize = 1;
    while i < n
        invariant
            n == catalog@.len(),
            1 <= i <= n,
            latest < i,
            forall|j: int| 0 <= j < i ==> !version_lt(catalog@[latest as int].version, #[trigger] catalog@[j].version),
            forall|j: int| 0 <= j < latest ==> version_lt(#[trigger] catalog@[j].version, catalog@[latest as int].version),
        decreases n - i,
    {
        if catalog[i].version.is_newer_than(&catalog[latest].version) {
            latest = i;
        }
        i = i + 1;
    }
    Some(latest)
}

/// Linear search for the first entry of channel `c`.
pub fn position_of_channel(catalog: &Vec<ChannelVersion>, c: Channel) -> (r: Option<usize>)
    ensures
        r is None <==> !has_channel(catalog@, c),
        r matches Some(i) ==> is_first_in_channel(catalog@, c, i as int),
{
    let n = catalog.len();
    let mut i: usize = 0;
    while i < n
        invariant
            n == catalog@.len(),
            i <= n,
            forall|j: int| 0 <= j < i ==> catalog@[j].channel != c,
        decreases n - i,
    {
        if catalog[i].channel == c {
            return Some(i);
        }
        i = i + 1;
    }
    None
}

pub open spec fn not_found() -> Result<SelectedVersion, ManagerError> {
    Err(ManagerError::VersionNotFound)
}

/// What resolving `Fixed(v)` against `s` gives: not found exactly when no
/// entry has version `v`, else the selection of the first entry that has it.
pub open spec fn fixed_resolution(
    s: Seq<KnownGoodVersion>,
    v: Version,
    p: Platform,
    r: Result<SelectedVersion, ManagerError>,
) -> bool {
    &&& !has_version(s, v) <==> r == not_found()
    &&& forall|i: int| is_first_with_version(s, v, i) ==> r == selected_from_known(s[i], p)
}

/// What resolving `Latest` against `s` gives: not found exactly when `s` is
/// empty, else the selection of the first entry with a maximal version.
pub open spec fn latest_resolution(
    s: Seq<KnownGoodVersion>,
    p: Platform,
    r: Result<SelectedVersion, ManagerError>,
) -> bool {
    &&& s.len() == 0 <==> r == not_found()
    &&& forall|i: int| is_first_latest(s, i) ==> r == selected_from_known(s[i], p)
}

/// What resolving `LatestIn(c)` against `s` gives: not found exactly when no
/// entry is for channel `c`, else the selection of that entry.
pub open spec fn channel_resolution(
    s: Seq<ChannelVersion>,
    c: Channel,
    p: Platform,
    r: Result<SelectedVersion, ManagerError>,
) -> bool {
    &&& !has_channel(s, c) <==> r == not_found()
    &&& forall|i: int| is_first_in_channel(s, c, i) ==> r == selected_from_channel(s[i], p)
}

/// Whether entry `e` publishes both archives for platform `p`.
pub open spec fn covers_platform(e: KnownGoodVersion, p: Platform) -> bool {
    download_for(e.chrome@, p) is Some && known_driver_for(e, p) is Some
}

proof fn lemma_first_with_version_exists(s: Seq<KnownGoodVersion>, v: Version, i: int)
    requires
        0 <= i < s.len(),
        s[i].version == v,
    ensures
        exists|k: int| is_first_with_version(s, v, k),
    decreases i,
{
    if exists|j: int| 0 <= j < i && s[j].version == v {
        let j = choose|j: int| 0 <= j < i && s[j].version == v;
        lemma_first_with_version_exists(s, v, j);
    } else {
        assert(is_first_with_version(s, v, i));
    }
}

/// Resolving `Fixed(v)` against a catalog that holds `v`, where every entry
/// with that version publishes both archives for the platform, gives a
/// selection of exactly version `v`; against a catalog without `v` it gives
/// `VersionNotFound`.
pub proof fn lemma_fixed_resolution_finds_present_version(
    s: Seq<KnownGoodVersion>,
    v: Version,
    p: Platform,
    r: Result<SelectedVersion, ManagerError>,
)
    requires
        fixed_resolution(s, v, p, r),
    ensures
        !has_version(s, v) ==> r == not_found(),
        has_version(s, v) && (forall|i: int|
            0 <= i < s.len() && s[i].version == v ==> covers_platform(s[i], p)) ==> (r matches Ok(
            sel,
        ) && sel.version == v && sel.channel is None),
{
    if has_version(s, v) && (forall|i: int|
        0 <= i < s.len() && s[i].version == v ==> covers_platform(s[i], p)) {
        let i = choose|i: int| 0 <= i < s.len() && s[i].version == v;
        lemma_first_with_version_exists(s, v, i);
        let k = choose|k: int| is_first_with_version(s, v, k);
        assert(covers_platform(s[k], p));
    }
}

/// Resolves `Fixed(v)`: the first catalog entry with version `v`.
pub fn resolve_fixed(catalog: &Vec<KnownGoodVersion>, v: Version, platform: Platform) -> (r: Result<
    SelectedVersion,
    ManagerError,
>)
    ensures
        fixed_resolution(catalog@, v, platform, r),
        r matches Ok(sel) ==> sel.version == v && sel.channel is None,
{
    match position_of_version(catalog, v) {
        None => Err(ManagerError::VersionNotFound),
        Some(i) => SelectedVersion::from_known_good(&catalog[i], platform),
    }
}

/// Resolves `Latest`: the first entry with a maximal version.
pub fn resolve_latest(catalog: &Vec<KnownGoodVersion>, platform: Platform) -> (r: Result<
    SelectedVersion,
    ManagerError,
>)
    ensures
        latest_resolution(catalog@, platform, r),
{
    match position_of_latest(catalog) {
        None => Err(ManagerError::VersionNotFound),
        Some(i) => {
            proof {
                assert forall|k: int| is_first_latest(catalog@, k) implies k == i by {
                    if k < i {
                        assert(version_lt(catalog@[k].version, catalog@[i as int].version));
                    } else if k > i {
                        assert(version_lt(catalog@[i as int].version, catalog@[k].version));
                    }
                }
            }
            SelectedVersion::from_known_good(&catalog[i], platform)
        },
    }
}

/// Resolves `LatestIn(c)`: the entry of channel `c`.
pub fn resolve_in_channel(catalog: &Vec<ChannelVersion>, c: Channel, platform: Platform) -> (r:
    Result<SelectedVersion, ManagerError>)
    ensures
        channel_resolution(catalog@, c, platform, r),
        r matches Ok(sel) ==> sel.channel == Some(c),
{
    match position_of_channel(catalog, c) {
        None => Err(ManagerError::VersionNotFound),
        Some(i) => SelectedVersion::from_channel(&catalog[i], platform),
    }
}

/// The executables of an installed version.
#[derive(Debug)]
pub struct LoadedChromePackage {
    pub chrome_executable: Vec<String>,
    pub chromedriver_executable: Vec<String>,
}

/// Where one version is cached: its platform directory, into which both
/// archives unpack, and the executables inside it.
#[derive(Debug)]
pub struct CachePaths {
    pub platform_dir: Vec<String>,
    pub package: LoadedChromePackage,
}

/// Which executables were found as regular files in the cache.
#[derive(Debug, Clone, Copy, PartialEq, Eq, Structural)]
pub struct CacheProbe {
    pub chrome_installed: bool,
    pub chromedriver_installed: bool,
}

/// One archive to download into the platform directory and unpack there.
#[derive(Debug)]
pub struct InstallStep {
    pub artifact: Artifact,
    pub url: String,
}

pub open spec fn archive_name_of(a: Artifact) -> Seq<char> {
    match a {
        Artifact::Chrome => "chrome.zip"@,
        Artifact::ChromeDriver => "chromedriver.zip"@,
    }
}

impl InstallStep {
    /// The file name the archive is saved under in the platform directory
    /// until it is unpacked.
    pub fn archive_name(&self) -> (r: &'static str)
        ensures
            r@ == archive_name_of(self.artifact),
    {
        match self.artifact {
            Artifact::Chrome => "chrome.zip",
            Artifact::ChromeDriver => "chromedriver.zip",
        }
    }
}

pub open spec fn step_view(s: InstallStep) -> (Artifact, Seq<char>) {
    (s.artifact, s.url@)
}

/// The downloads that make a selection present in the cache: each artifact
/// whose executable was not found, browser first. An executable that exists is
/// taken as proof that its artifact is installed.
pub open spec fn planned_steps(sel: SelectedVersion, probe: CacheProbe) -> Seq<(Artifact, Seq<char>)>
    recommends
        sel.chrome is Some,
        sel.chromedriver is Some,
{
    let chrome: Seq<(Artifact, Seq<char>)> = if probe.chrome_installed {
        seq![]
    } else {
        seq![(Artifact::Chrome, sel.chrome->Some_0.url@)]
    };
    let driver: Seq<(Artifact, Seq<char>)> = if probe.chromedriver_installed {
        seq![]
    } else {
        seq![(Artifact::ChromeDriver, sel.chromedriver->Some_0.url@)]
    };
    chrome + driver
}

/// The cache as probed again once `steps` have been carried out: each
/// downloaded artifact has unpacked its executable.
pub open spec fn probe_after(probe: CacheProbe, steps: Seq<(Artifact, Seq<char>)>) -> CacheProbe {
    CacheProbe {
        chrome_installed: probe.chrome_installed || exists|i: int|
            0 <= i < steps.len() && steps[i].0 == Artifact::Chrome,
        chromedriver_installed: probe.chromedriver_installed || exists|i: int|
            0 <= i < steps.len() && steps[i].0 == Artifact::ChromeDriver,
    }
}

/// Ensuring a selection a second time, once the downloads planned the first
/// time have been carried out, plans no download at all.
pub proof fn lemma_second_ensure_downloads_nothing(sel: SelectedVersion, probe: CacheProbe)
    requires
        sel.chrome is Some,
        sel.chromedriver is Some,
    ensures
        planned_steps(sel, probe_after(probe, planned_steps(sel, probe))).len() == 0,
{
    let steps = planned_steps(sel, probe);
    let again = probe_after(probe, steps);
    if !probe.chrome_installed {
        assert(steps[0].0 == Artifact::Chrome);
    }
    if !probe.chromedriver_installed {
        let k = steps.len() - 1;
        assert(steps[k].0 == Artifact::ChromeDriver);
    }
    assert(again.chrome_installed);
    assert(again.chromedriver_installed);
}

/// The platform of the running machine, learned from
/// `chrome_for_testing::Platform::detect`: none where the machine's operating
/// system and architecture are not supported.
#[verifier::external_body]
fn detect_platform() -> (r: Option<Platform>) {
    match chrome_for_testing::Platform::detect() {
        Ok(chrome_for_testing::Platform::Linux64) => Some(Platform::Linux64),
        Ok(chrome_for_testing::Platform::LinuxArm64) => Some(Platform::LinuxArm64),
        Ok(chrome_for_testing::Platform::MacArm64) => Some(Platform::MacArm64),
        Ok(chrome_for_testing::Platform::MacX64) => Some(Platform::MacX64),
        Ok(chrome_for_testing::Platform::Win32) => Some(Platform::Win32),
        Ok(chrome_for_testing::Platform::Win64) => Some(Platform::Win64),
        Err(_) => None,
    }
}

fn joined(base: &Vec<String>, rel: &Vec<String>) -> (r: Vec<String>)
    ensures
        r@ == base@ + rel@,
{
    let mut r: Vec<String> = Vec::new();
    let mut i: usize = 0;
    while i < base.len()
        invariant
            i <= base@.len(),
            r@ == base@.subrange(0, i as int),
        decreases base@.len() - i,
    {
        r.push(base[i].clone());
        i = i + 1;
        assert(r@ =~= base@.subrange(0, i as int));
    }
    let mut j: usize = 0;
    while j < rel.len()
        invariant
            j <= rel@.len(),
            r@ == base@ + rel@.subrange(0, j as int),
        decreases rel@.len() - j,
    {
        r.push(rel[j].clone());
        j = j + 1;
        assert(r@ =~= base@ + rel@.subrange(0, j as int));
    }
    assert(base@.subrange(0, base@.len() as int) =~= base@);
    assert(rel@.subrange(0, rel@.len() as int) =~= rel@);
    r
}

/// Resolves versions, lays out the cache, and plans installs for the
/// platform it was made for.
#[derive(Debug)]
pub struct ChromeForTestingManager {
    pub cache_dir: CacheDir,
    pub platform: Platform,
    pub layout: ExecutableLayout,
}

impl ChromeForTestingManager {
    /// A manager for the running machine's platform, with the standard
    /// executable layout; none where the platform is not supported.
    pub fn new(cache_dir: CacheDir) -> (r: Option<ChromeForTestingManager>)
        ensures
            r matches Some(m) ==> m.cache_dir == cache_dir && is_standard_layout(m.layout),
    {
        match detect_platform() {
            None => None,
            Some(platform) => Some(ChromeForTestingManager::for_platform(cache_dir, platform)),
        }
    }

    /// A manager for `platform` with the standard executable layout.
    pub fn for_platform(cache_dir: CacheDir, platform: Platform) -> (r: ChromeForTestingManager)
        ensures
            r.cache_dir == cache_dir,
            r.platform == platform,
            is_standard_layout(r.layout),
    {
        ChromeForTestingManager { cache_dir, platform, layout: ExecutableLayout::standard() }
    }

    /// A manager for `platform` whose executables are found through `layout`.
    pub fn with_layout(cache_dir: CacheDir, platform: Platform, layout: ExecutableLayout) -> (r:
        ChromeForTestingManager)
        ensures
            r.cache_dir == cache_dir,
            r.platform == platform,
            r.layout == layout,
    {
        ChromeForTestingManager { cache_dir, platform, layout }
    }

    /// The directory of one version: `<root>/<version>`.
    pub fn version_dir(&self, version: Version) -> (r: Vec<String>)
        ensures
            parts(r@) == seq![self.cache_dir.root@, version_text(version)],
    {
        let mut r: Vec<String> = Vec::new();
        r.push(self.cache_dir.root.clone());
        r.push(version.to_string());
        assert(parts(r@) =~= seq![self.cache_dir.root@, version_text(version)]);
        r
    }

    /// The platform directory of a version, `<root>/<version>/<platform>`,
    /// and the executables inside it as the layout table places them.
    pub fn cache_paths(&self, version: Version) -> (r: Result<CachePaths, ManagerError>)
        ensures
            layout_for(self.layout.entries@, self.platform) is None ==> r == Err::<
                CachePaths,
                ManagerError,
            >(ManagerError::NoLayoutForPlatform { platform: self.platform }),
            layout_for(self.layout.entries@, self.platform) matches Some(e) ==> (r matches Ok(
                paths,
            ) && {
                let dir = seq![self.cache_dir.root@, version_text(version), platform_tag(self.platform)];
                &&& parts(paths.platform_dir@) == dir
                &&& parts(paths.package.chrome_executable@) == dir + parts(e.chrome@)
                &&& parts(paths.package.chromedriver_executable@) == dir + parts(e.chromedriver@)
            }),
    {
        let entry = match self.layout.lookup(self.platform) {
            None => {
                return Err(ManagerError::NoLayoutForPlatform { platform: self.platform });
            },
            Some(e) => e,
        };
        let mut platform_dir = self.version_dir(version);
        let ghost before = platform_dir@;
        let tag = self.platform.tag().to_owned();
        platform_dir.push(tag);
        assert(platform_dir@ == before.push(tag));
        assert(parts(before).len() == 2);
        assert(before.len() == 2);
        assert(parts(platform_dir@)[0] == before[0]@);
        assert(parts(before)[0] == before[0]@);
        assert(parts(platform_dir@)[1] == before[1]@);
        assert(parts(before)[1] == before[1]@);
        let ghost dir = seq![self.cache_dir.root@, version_text(version), platform_tag(self.platform)];
        assert(parts(platform_dir@) =~= dir);
        let chrome_executable = joined(&platform_dir, &entry.chrome);
        let chromedriver_executable = joined(&platform_dir, &entry.chromedriver);
        assert(parts(chrome_executable@) =~= dir + parts(entry.chrome@));
        assert(parts(chromedriver_executable@) =~= dir + parts(entry.chromedriver@));
        Ok(
            CachePaths {
                platform_dir,
                package: LoadedChromePackage { chrome_executable, chromedriver_executable },
            },
        )
    }

    /// The downloads that install `selected`, given which executables were
    /// found in the cache. A selection without a browser or a driver archive
    /// cannot be installed.
    pub fn install_steps(&self, selected: &SelectedVersion, probe: CacheProbe) -> (r: Result<
        Vec<InstallStep>,
        ManagerError,
    >)
        ensures
            selected.chrome is None ==> r == Err::<Vec<InstallStep>, ManagerError>(
                ManagerError::AssetUnavailableForPlatform {
                    artifact: Artifact::Chrome,
                    platform: self.platform,
                },
            ),
            selected.chrome is Some && selected.chromedriver is None ==> r == Err::<
                Vec<InstallStep>,
                ManagerError,
            >(
                ManagerError::AssetUnavailableForPlatform {
                    artifact: Artifact::ChromeDriver,
                    platform: self.platform,
                },
            ),
            selected.chrome is Some && selected.chromedriver is Some ==> (r matches Ok(steps)
                && steps@.map_values(|s: InstallStep| step_view(s)) == planned_steps(*selected, probe)),
    {
        let chrome = match &selected.chrome {
            None => {
                return Err(
                    ManagerError::AssetUnavailableForPlatform {
                        artifact: Artifact::Chrome,
                        platform: self.platform,
                    },
                );
            },
            Some(d) => d,
        };
        let driver = match &selected.chromedriver {
            None => {
                return Err(
                    ManagerError::AssetUnavailableForPlatform {
                        artifact: Artifact::ChromeDriver,
                        platform: self.platform,
                    },
                );
            },
            Some(d) => d,
        };
        let mut steps: Vec<InstallStep> = Vec::new();
        if !probe.chrome_installed {
            steps.push(InstallStep { artifact: Artifact::Chrome, url: chrome.url.clone() });
        }
        if !probe.chromedriver_installed {
            steps.push(InstallStep { artifact: Artifact::ChromeDriver, url: driver.url.clone() });
        }
        assert(steps@.map_values(|s: InstallStep| step_view(s)) =~= planned_steps(*selected, probe));
        Ok(steps)
    }

    /// Resolves `request` against the catalog that the request reads (see
    /// `VersionRequest::reads_channel_catalog`), for this manager's platform.
    pub fn resolve_version(&self, request: VersionRequest, catalog: &Catalog) -> (r: Result<
        SelectedVersion,
        ManagerError,
    >)
        requires
            request is LatestIn <==> catalog is Channels,
        ensures
            request matches VersionRequest::Latest ==> (catalog matches Catalog::KnownGood(c)
                && latest_resolution(c@, self.platform, r)),
            request matches VersionRequest::Fixed(v) ==> (catalog matches Catalog::KnownGood(c)
                && fixed_resolution(c@, v, self.platform, r)),
            request matches VersionRequest::LatestIn(ch) ==> (catalog matches Catalog::Channels(c)
                && channel_resolution(c@, ch, self.platform, r)),
    {
        match (request, catalog) {
            (VersionRequest::Latest, Catalog::KnownGood(c)) => resolve_latest(c, self.platform),
            (VersionRequest::Fixed(v), Catalog::KnownGood(c)) => resolve_fixed(c, v, self.platform),
            (VersionRequest::LatestIn(ch), Catalog::Channels(c)) => resolve_in_channel(
                c,
                ch,
                self.platform,
            ),
            (_, _) => Err(ManagerError::VersionNotFound),
        }
    }
}

} // verus!
