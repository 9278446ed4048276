//! The on-disk artifact cache: its root, and where each platform's archives
//! unpack their executables.
use vstd::prelude::*;

use crate::catalog::{platform_tag, Platform};

verus! {

/// The text of each component of a path given as a list of components.
pub open spec fn parts(v: Seq<String>) -> Seq<Seq<char>> {
    v.map_values(|s: String| s@)
}

/// The root directory of the artifact cache.
#[derive(Debug)]
pub struct CacheDir {
    pub root: String,
}

impl CacheDir {
    pub fn new(root: String) -> (r: CacheDir)
        ensures
            r.root == root,
    {
        CacheDir { root }
    }

    /// The cache root.
    pub fn path(&self) -> (r: &String)
        ensures
            r == &self.root,
    {
        &self.root
    }
}

/// Where the browser and the driver executables lie inside a platform's
/// cache directory, as lists of path components.
#[derive(Debug)]
pub struct LayoutEntry {
    pub platform: Platform,
    pub chrome: Vec<String>,
    pub chromedriver: Vec<String>,
}

/// A lookup table from platform to executable locations.
#[derive(Debug)]
pub struct ExecutableLayout {
    pub entries: Vec<LayoutEntry>,
}

/// The first entry of `s` for platform `p`, if any.
pub open spec fn layout_for(s: Seq<LayoutEntry>, p: Platform) -> Option<LayoutEntry>
    decreases s.len(),
{
    if s.len() == 0 {
        None
    } else if s[0].platform == p {
        Some(s[0])
    } else {
        layout_for(s.drop_first(), p)
    }
}

/// Where the published browser archive of `p` unpacks its executable.
pub open spec fn standard_chrome_path(p: Platform) -> Seq<Seq<char>> {
    let top = "chrome-"@ + platform_tag(p);
    match p {
        Platform::Linux64 | Platform::LinuxArm64 | Platform::MacX64 => seq![top, "chrome"@],
        Platform::MacArm64 => seq![
            top,
            "Google Chrome for Testing.app"@,
            "Contents"@,
            "MacOS"@,
            "Google Chrome for Testing"@,
        ],
        Platform::Win32 | Platform::Win64 => seq![top, "chrome.exe"@],
    }
}

/// Where the published driver archive of `p` unpacks its executable.
pub open spec fn standard_driver_path(p: Platform) -> Seq<Seq<char>> {
    let top = "chromedriver-"@ + platform_tag(p);
    match p {
        Platform::Win32 | Platform::Win64 => seq![top, "chromedriver.exe"@],
        _ => seq![top, "chromedriver"@],
    }
}

/// The platforms in the order of the standard table.
pub open spec fn standard_platform(i: int) -> Platform {
    if i == 0 {
        Platform::Linux64
    } else if i == 1 {
        Platform::LinuxArm64
    } else if i == 2 {
        Platform::MacArm64
    } else if i == 3 {
        Platform::MacX64
    } else if i == 4 {
        Platform::Win32
    } else {
        Platform::Win64
    }
}

fn unpack_dir(prefix: &str, p: Platform) -> (r: String)
    ensures
        r@ == prefix@ + platform_tag(p),
{
    let mut s = prefix.to_owned();
    s.append(p.tag());
    s
}

fn standard_entry(p: Platform) -> (r: LayoutEntry)
    ensures
        r.platform == p,
        parts(r.chrome@) == standard_chrome_path(p),
        parts(r.chromedriver@) == standard_driver_path(p),
{
    let mut chrome: Vec<String> = Vec::new();
    chrome.push(unpack_dir("chrome-", p));
    match p {
        Platform::Linux64 | Platform::LinuxArm64 | Platform::MacX64 => {
            chrome.push("chrome".to_owned());
        },
        Platform::MacArm64 => {
            chrome.push("Google Chrome for Testing.app".to_owned());
            chrome.push("Contents".to_owned());
            chrome.push("MacOS".to_owned());
            chrome.push("Google Chrome for Testing".to_owned());
        },
        Platform::Win32 | Platform::Win64 => {
            chrome.push("chrome.exe".to_owned());
        },
    }
    let mut chromedriver: Vec<String> = Vec::new();
    chromedriver.push(unpack_dir("chromedriver-", p));
    match p {
        Platform::Win32 | Platform::Win64 => {
            chromedriver.push("chromedriver.exe".to_owned());
        },
        _ => {
            chromedriver.push("chromedriver".to_owned());
        },
    }
    assert(parts(chrome@) =~= standard_chrome_path(p));
    assert(parts(chromedriver@) =~= standard_driver_path(p));
    LayoutEntry { platform: p, chrome, chromedriver }
}

/// `l` is the standard table: one entry per platform, in the order of
/// `standard_platform`, each with the standard executable locations.
pub open spec fn is_standard_layout(l: ExecutableLayout) -> bool {
    &&& l.entries@.len() == 6
    &&& forall|i: int|
        0 <= i < 6 ==> {
            &&& (#[trigger] l.entries@[i]).platform == standard_platform(i)
            &&& parts(l.entries@[i].chrome@) == standard_chrome_path(standard_platform(i))
            &&& parts(l.entries@[i].chromedriver@) == standard_driver_path(standard_platform(i))
        }
}

impl ExecutableLayout {
    /// The layout of the published archives, one entry per platform.
    pub fn standard() -> (r: ExecutableLayout)
        ensures
            is_standard_layout(r),
    {
        let mut entries: Vec<LayoutEntry> = Vec::new();
        entries.push(standard_entry(Platform::Linux64));
        entries.push(standard_entry(Platform::LinuxArm64));
        entries.push(standard_entry(Platform::MacArm64));
        entries.push(standard_entry(Platform::MacX64));
        entries.push(standard_entry(Platform::Win32));
        entries.push(standard_entry(Platform::Win64));
        ExecutableLayout { entries }
    }

    /// The table's entry for `platform`.
    pub fn lookup(&self, platform: Platform) -> (r: Option<&LayoutEntry>)
        ensures
            r matches Some(e) ==> layout_for(self.entries@, platform) == Some(*e),
            r is None <==> layout_for(self.entries@, platform) is None,
    {
        let n = self.entries.len();
        let mut i: usize = 0;
        assert(self.entries@.subrange(0, n as int) =~= self.entries@);
        while i < n
            invariant
                n == self.entries@.len(),
                i <= n,
                layout_for(self.entries@, platform) == layout_for(self.entries@.subrange(i as int, n as int), platform),
            decreases n - i,
        {
            let ghost rest = self.entries@.subrange(i as int, n as int);
            assert(rest.drop_first() =~= self.entries@.subrange(i + 1, n as int));
            if self.entries[i].platform == platform {
                return Some(&self.entries[i]);
            }
            i = i + 1;
        }
        assert(self.entries@.subrange(n as int, n as int) =~= Seq::<LayoutEntry>::empty());
        None
    }
}

} // verus!
