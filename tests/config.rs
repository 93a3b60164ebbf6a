use udp_latency::config::{init, plan, Cli, Role, Strategy};

#[test]
fn defaults_probe_local_server() {
    let c = Cli::default();
    assert!(!c.emode);
    assert_eq!(c.server_addr, "127.0.0.1");
    assert_eq!(c.port, 7001);
    assert_eq!(c.interval, 100);
    assert!(!c.async_mode);
    assert_eq!(c.whttp_port, 8080);
}

#[test]
fn init_shares_the_settings() {
    let mut c = Cli::default();
    c.port = 9000;
    let shared = init(c);
    assert_eq!(shared.port, 9000);
    assert_eq!(shared.server_addr, "127.0.0.1");
}

#[test]
fn client_plan_serves_metrics() {
    let mut c = Cli::default();
    c.async_mode = true;
    c.interval = 50;
    let p = plan(&c);
    assert_eq!(p.strategy, Strategy::Tasks);
    assert_eq!(p.metrics_port, Some(8080));
    match p.role {
        Role::Client { server_addr, port, interval_ms } => {
            assert_eq!(server_addr, "127.0.0.1");
            assert_eq!(port, 7001);
            assert_eq!(interval_ms, 50);
        }
        Role::Server { .. } => panic!("expected a client"),
    }
}

#[test]
fn server_plan_serves_no_metrics() {
    let mut c = Cli::default();
    c.emode = true;
    c.port = 7100;
    let p = plan(&c);
    assert_eq!(p.strategy, Strategy::Threads);
    assert_eq!(p.metrics_port, None);
    match p.role {
        Role::Server { port } => assert_eq!(port, 7100),
        Role::Client { .. } => panic!("expected a server"),
    }
}
