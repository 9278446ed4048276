use chrome_for_testing_manager::port::Port;
use chrome_for_testing_manager::readiness::ready_port;

#[test]
fn readiness_line_yields_port() {
    assert_eq!(ready_port("Started successfully on port 9222."), Some(Port(9222)));
}

#[test]
fn driver_banner_yields_port() {
    assert_eq!(
        ready_port("ChromeDriver was started successfully on port 9515."),
        Some(Port(9515))
    );
    assert_eq!(ready_port("  \"ChromeDriver was started successfully on port 3333.\"  "), Some(Port(3333)));
}

#[test]
fn unrelated_lines_yield_nothing() {
    assert_eq!(ready_port("Starting ChromeDriver 135.0.7019.0 on port 9515"), None);
    assert_eq!(ready_port(""), None);
    assert_eq!(ready_port("Only local connections are allowed."), None);
}

#[test]
fn malformed_ports_yield_nothing() {
    assert_eq!(ready_port("started successfully on port 65536."), None);
    assert_eq!(ready_port("started successfully on port abc"), None);
    assert_eq!(ready_port("started successfully on port "), None);
    assert_eq!(ready_port("started successfully on port 65535"), Some(Port(65535)));
    assert_eq!(ready_port("started successfully on port +80"), Some(Port(80)));
}
