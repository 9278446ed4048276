//! The browser capabilities a session is opened with.
use vstd::prelude::*;

use thirtyfour::error::WebDriverError;
use thirtyfour::ChromeCapabilities;
use thirtyfour::ChromiumLikeCapabilities;

verus! {

#[verifier::external_type_specification]
#[verifier::external_body]
pub struct ExChromeCapabilities(ChromeCapabilities);

#[verifier::external_type_specification]
#[verifier::external_body]
pub struct ExWebDriverError(WebDriverError);

/// The browser command-line arguments that capabilities hold, as
/// `ChromiumLikeCapabilities::args` reads them.
pub uninterp spec fn browser_args(c: ChromeCapabilities) -> Set<Seq<char>>;

/// The browser executable that capabilities name, as
/// `ChromiumLikeCapabilities::binary` reads it: empty where none is named,
/// else the one path.
pub uninterp spec fn browser_binary(c: ChromeCapabilities) -> Set<Seq<char>>;

/// Relies on `thirtyfour::ChromeCapabilities::new`: capabilities that only name
/// the browser, with no browser options, so no arguments and no executable.
#[verifier::external_body]
fn new_capabilities() -> (r: ChromeCapabilities)
    ensures
        browser_args(r) == Set::<Seq<char>>::empty(),
        browser_binary(r) == Set::<Seq<char>>::empty(),
{
    ChromeCapabilities::new()
}

/// Relies on `ChromiumLikeCapabilities::set_headless`: adds the `--headless`
/// argument to the browser options and leaves the other options as they were.
/// It can fail only where serialising a list of strings fails, which it does
/// not.
#[verifier::external_body]
fn set_headless(caps: &mut ChromeCapabilities) -> (r: Result<(), WebDriverError>)
    ensures
        r is Ok,
        browser_args(*final(caps)) == browser_args(*old(caps)).insert("--headless"@),
        browser_binary(*final(caps)) == browser_binary(*old(caps)),
{
    caps.set_headless()
}

/// Relies on `ChromiumLikeCapabilities::set_binary`: records `path` as the
/// `binary` browser option and leaves the other options as they were. It can
/// fail only where serialising a string fails, which it does not.
#[verifier::external_body]
fn set_binary(caps: &mut ChromeCapabilities, path: &str) -> (r: Result<(), WebDriverError>)
    ensures
        r is Ok,
        browser_binary(*final(caps)) == set![path@],
        browser_args(*final(caps)) == browser_args(*old(caps)),
{
    caps.set_binary(path)
}

/// Capabilities that launch the browser at `chrome_binary`, headless, with no
/// other argument.
pub fn prepare_caps(chrome_binary: &str) -> (r: ChromeCapabilities)
    ensures
        browser_args(r) == set!["--headless"@],
        browser_binary(r) == set![chrome_binary@],
{
    let mut caps = new_capabilities();
    let _headless = set_headless(&mut caps);
    let _binary = set_binary(&mut caps, chrome_binary);
    assert(browser_args(caps) =~= set!["--headless"@]);
    caps
}

} // verus!
