//! HTTP front-end settings.
use sanctifier_core::serve::ServeArgs;

#[test]
fn default_listens_on_localhost_9100() {
    let args = ServeArgs::default();
    assert_eq!(args.port, 9100);
    assert_eq!(args.bind, "127.0.0.1");
    assert_eq!(args.listen_address(), "127.0.0.1:9100");
}

#[test]
fn listen_address_joins_bind_and_port() {
    let args = ServeArgs { port: 0, bind: "0.0.0.0".to_string() };
    assert_eq!(args.listen_address(), "0.0.0.0:0");
    let args = ServeArgs { port: 65535, bind: "::1".to_string() };
    assert_eq!(args.listen_address(), "::1:65535");
}
