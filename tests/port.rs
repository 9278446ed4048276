use chrome_for_testing_manager::port::{Port, PortRequest};

#[test]
fn port_from_and_text() {
    let p = Port::from(8080u16);
    assert_eq!(p, Port(8080));
    assert_eq!(*p.as_ref(), 8080);
    assert_eq!(p.to_string(), "8080");
    assert_eq!(Port(0).to_string(), "0");
    assert_eq!(Port(65535).to_string(), "65535");
    assert_ne!(PortRequest::Any, PortRequest::Specific(p));
}
