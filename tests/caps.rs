use chrome_for_testing_manager::caps::prepare_caps;
use thirtyfour::{BrowserCapabilitiesHelper, ChromiumLikeCapabilities};

#[test]
fn capabilities_name_binary_and_run_headless() {
    let mut caps = prepare_caps("/cache/1.2.3.4/linux64/chrome-linux64/chrome");
    assert_eq!(caps.binary().as_deref(), Some("/cache/1.2.3.4/linux64/chrome-linux64/chrome"));
    assert!(caps.is_headless());
    assert_eq!(caps.args(), vec!["--headless".to_string()]);
}
