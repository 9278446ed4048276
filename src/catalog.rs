//! The data a release catalog is made of: versions, channels, platforms and
//! per-platform download descriptors.
use vstd::prelude::*;

use crate::text::{decimal, push_decimal};

verus! {

/// A four-part version number, `major.minor.patch.build`.
#[derive(Debug, Clone, Copy, PartialEq, Eq, Structural)]
pub struct Version {
    pub major: u32,
    pub minor: u32,
    pub patch: u32,
    pub build: u32,
}

/// Strict ordinal order on versions: part by part, the first differing part
/// decides.
pub open spec fn version_lt(a: Version, b: Version) -> bool {
    if a.major != b.major {
        a.major < b.major
    } else if a.minor != b.minor {
        a.minor < b.minor
    } else if a.patch != b.patch {
        a.patch < b.patch
    } else {
        a.build < b.build
    }
}

/// The dotted text of a version, e.g. `135.0.7019.0`.
pub open spec fn version_text(v: Version) -> Seq<char> {
    decimal(v.major as nat) + "."@ + decimal(v.minor as nat) + "."@ + decimal(v.patch as nat)
        + "."@ + decimal(v.build as nat)
}

impl Version {
    pub fn new(major: u32, minor: u32, patch: u32, build: u32) -> (r: Version)
        ensures
            r == (Version { major, minor, patch, build }),
    {
        Version { major, minor, patch, build }
    }

    /// Whether `self` comes strictly after `other` in version order.
    pub fn is_newer_than(&self, other: &Version) -> (r: bool)
        ensures
            r == version_lt(*other, *self),
    {
        if self.major != other.major {
            self.major > other.major
        } else if self.minor != other.minor {
            self.minor > other.minor
        } else if self.patch != other.patch {
            self.patch > other.patch
        } else {
            self.build > other.build
        }
    }

    /// The dotted text of this version, used as a cache directory name.
    pub fn to_string(&self) -> (r: String)
        ensures
            r@ == version_text(*self),
    {
        let mut s = String::new();
        push_decimal(&mut s, self.major);
        s.append(".");
        push_decimal(&mut s, self.minor);
        s.append(".");
        push_decimal(&mut s, self.patch);
        s.append(".");
        push_decimal(&mut s, self.build);
        assert(s@ =~= version_text(*self));
        s
    }
}

/// A named release track, each pinned to one current version.
#[derive(Debug, Clone, Copy, PartialEq, Eq, Structural)]
pub enum Channel {
    Stable,
    Beta,
    Dev,
    Canary,
}

/// An operating system and architecture that artifacts are published for.
#[derive(Debug, Clone, Copy, PartialEq, Eq, Structural)]
pub enum Platform {
    Linux64,
    LinuxArm64,
    MacArm64,
    MacX64,
    Win32,
    Win64,
}

/// The tag a platform goes by in catalogs, archive names and the cache layout.
pub open spec fn platform_tag(p: Platform) -> Seq<char> {
    match p {
        Platform::Linux64 => "linux64"@,
        Platform::LinuxArm64 => "linux-arm64"@,
        Platform::MacArm64 => "mac-arm64"@,
        Platform::MacX64 => "mac-x64"@,
        Platform::Win32 => "win32"@,
        Platform::Win64 => "win64"@,
    }
}

impl Platform {
    /// The platform's tag, e.g. `linux64`.
    pub fn tag(&self) -> (r: &'static str)
        ensures
            r@ == platform_tag(*self),
    {
        match self {
            Platform::Linux64 => "linux64",
            Platform::LinuxArm64 => "linux-arm64",
            Platform::MacArm64 => "mac-arm64",
            Platform::MacX64 => "mac-x64",
            Platform::Win32 => "win32",
            Platform::Win64 => "win64",
        }
    }
}

/// Where the archive of one artifact for one platform can be downloaded.
#[derive(Debug)]
pub struct Download {
    pub platform: Platform,
    pub url: String,
}

impl Download {
    pub fn copy(&self) -> (r: Download)
        ensures
            r == *self,
    {
        Download { platform: self.platform, url: self.url.clone() }
    }
}

/// The first download in `s` published for platform `p`, if any.
pub open spec fn download_for(s: Seq<Download>, p: Platform) -> Option<Download>
    decreases s.len(),
{
    if s.len() == 0 {
        None
    } else if s[0].platform == p {
        Some(s[0])
    } else {
        download_for(s.drop_first(), p)
    }
}

/// Looks up the download published for `platform` (the first one, should the
/// list name the platform twice).
pub fn find_download(downloads: &Vec<Download>, platform: Platform) -> (r: Option<Download>)
    ensures
        r == download_for(downloads@, platform),
{
    let n = downloads.len();
    let mut i: usize = 0;
    assert(downloads@.subrange(0, n as int) =~= downloads@);
    while i < n
        invariant
            n == downloads@.len(),
            i <= n,
            download_for(downloads@, platform) == download_for(downloads@.subrange(i as int, n as int), platform),
        decreases n - i,
    {
        let ghost rest = downloads@.subrange(i as int, n as int);
        assert(rest.drop_first() =~= downloads@.subrange(i + 1, n as int));
        if downloads[i].platform == platform {
            return Some(downloads[i].copy());
        }
        i = i + 1;
    }
    assert(downloads@.subrange(n as int, n as int) =~= Seq::<Download>::empty());
    None
}

/// One entry of the catalog of all known-good versions.
#[derive(Debug)]
pub struct KnownGoodVersion {
    pub version: Version,
    pub revision: String,
    /// Browser archives, by platform.
    pub chrome: Vec<Download>,
    /// Driver archives, by platform; absent where no driver was published.
    pub chromedriver: Option<Vec<Download>>,
}

/// One entry of the per-channel catalog: the version a channel is pinned to.
#[derive(Debug)]
pub struct ChannelVersion {
    pub channel: Channel,
    pub version: Version,
    pub revision: String,
    pub chrome: Vec<Download>,
    pub chromedriver: Vec<Download>,
}

} // verus!
