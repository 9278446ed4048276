use chrome_for_testing_manager::catalog::Platform;
use chrome_for_testing_manager::error::ManagerError;
use chrome_for_testing_manager::launcher::{
    check_runtime, creation_flags, driver_args, driver_url, Launch, LaunchAction, LaunchState,
    LogLevel, CREATE_NO_WINDOW, READINESS_TIMEOUT_MS,
};
use chrome_for_testing_manager::port::{Port, PortRequest};

#[test]
fn args_with_specific_port() {
    assert_eq!(
        driver_args(PortRequest::Specific(Port(3333)), LogLevel::Info),
        vec!["--port=3333", "--log-level=INFO"]
    );
}

#[test]
fn args_with_any_port() {
    assert_eq!(driver_args(PortRequest::Any, LogLevel::Severe), vec!["--log-level=SEVERE"]);
    assert_eq!(driver_args(PortRequest::Specific(Port(0)), LogLevel::Off), vec!["--port=0", "--log-level=OFF"]);
}

#[test]
fn console_window_suppressed_on_windows_only() {
    assert_eq!(creation_flags(Platform::Win64), CREATE_NO_WINDOW);
    assert_eq!(creation_flags(Platform::Win32), 0x08000000);
    assert_eq!(creation_flags(Platform::Linux64), 0);
    assert_eq!(creation_flags(Platform::MacArm64), 0);
}

#[test]
fn runtime_check() {
    assert!(check_runtime(true, "MultiThread".to_string()).is_ok());
    match check_runtime(false, "CurrentThread".to_string()) {
        Err(ManagerError::UnsupportedRuntime { flavor }) => assert_eq!(flavor, "CurrentThread"),
        other => panic!("unexpected {other:?}"),
    }
}

#[test]
fn session_url() {
    assert_eq!(driver_url(Port(9515)), "http://localhost:9515");
}

#[test]
fn readiness_line_makes_launch_ready() {
    let mut launch = Launch::new();
    assert_eq!(launch.readiness_timeout_ms, READINESS_TIMEOUT_MS);
    assert_eq!(launch.on_line("Starting ChromeDriver 135.0.7019.0"), LaunchAction::KeepWaiting);
    assert_eq!(
        launch.on_line("Started successfully on port 9222."),
        LaunchAction::Listening(Port(9222))
    );
    assert_eq!(launch.on_deadline(), LaunchAction::Idle);
    assert!(matches!(launch.outcome(), Some(Ok(Port(9222)))));
}

#[test]
fn silent_driver_is_terminated_then_times_out() {
    let mut launch = Launch::new();
    assert_eq!(launch.on_line("Only local connections are allowed."), LaunchAction::KeepWaiting);
    assert!(launch.outcome().is_none());
    assert_eq!(launch.on_deadline(), LaunchAction::Terminate);
    assert_eq!(launch.state, LaunchState::Terminating);
    assert!(launch.outcome().is_none());
    assert_eq!(launch.on_terminated(), LaunchAction::Fail);
    assert!(matches!(launch.outcome(), Some(Err(ManagerError::ReadinessTimeout))));
}
