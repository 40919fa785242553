use monitor_server::auth::{AuthDecision, AuthMiddleware, AuthOutcome, UNAUTHORIZED_STATUS};
use monitor_server::credentials::parse_htpasswd;
use monitor_server::errors::SystemError;
use monitor_server::services::{check_services, ServiceProbe};
use monitor_server::status::{
    containers_from, first_local_ipv4, service_statuses, ContainerStatus, InterfaceAddress,
    SourceReadings, StatusTemplate,
};
use std::sync::Arc;

fn s(t: &str) -> String {
    t.to_string()
}

fn healthy() -> SourceReadings {
    SourceReadings {
        hostname: Some(s("box")),
        system_version: s("Debian GNU/Linux 12 (bookworm)"),
        kernel_version: s("6.1.0-18-amd64"),
        uptime: Ok(s("1 days, 2 hours, 3 minutes")),
        memory: Ok((1024, 4096)),
        disk: Ok((10, 20)),
        network: Ok((300, 400)),
        temperature: Ok(s("41.50 °C")),
        containers: Ok(vec![ContainerStatus { image: s("nginx"), state: s("running") }]),
        services: vec![s("ssh"), s("cron")],
        active_services: vec![s("cron")],
        local_ip: Some(s("10.0.0.2")),
        public_ip: Some(s("203.0.113.9")),
        current_year: 2024,
    }
}

#[test]
fn healthy_readings_pass_through() {
    let t = StatusTemplate::assemble(healthy());
    assert_eq!(t.hostname, "box");
    assert_eq!(t.system_version, "Debian GNU/Linux 12 (bookworm)");
    assert_eq!(t.kernel_info, "6.1.0-18-amd64");
    assert_eq!(t.uptime, "1 days, 2 hours, 3 minutes");
    assert_eq!((t.memory_used, t.memory_total), (1024, 4096));
    assert_eq!((t.disk_available, t.disk_total), (10, 20));
    assert_eq!((t.network_in, t.network_out), (300, 400));
    assert_eq!(t.temperature, "41.50 °C");
    assert_eq!(t.containers.len(), 1);
    assert_eq!(t.containers[0].image, "nginx");
    assert_eq!(t.services_status, vec![(s("ssh"), false), (s("cron"), true)]);
    assert_eq!(t.current_year, 2024);
    assert_eq!(t.local_ip, "10.0.0.2");
    assert_eq!(t.public_ip, "203.0.113.9");
}

#[test]
fn each_failed_source_gets_its_sentinel_alone() {
    let mut r = healthy();
    r.memory = Err(SystemError::MemoryInfoUnavailable);
    let t = StatusTemplate::assemble(r);
    assert_eq!((t.memory_used, t.memory_total), (0, 0));
    assert_eq!((t.disk_available, t.disk_total), (10, 20));
    assert_eq!(t.hostname, "box");

    let mut r = healthy();
    r.disk = Err(SystemError::DiskInfoUnavailable);
    let t = StatusTemplate::assemble(r);
    assert_eq!((t.disk_available, t.disk_total), (0, 0));
    assert_eq!((t.memory_used, t.memory_total), (1024, 4096));

    let mut r = healthy();
    r.network = Err(SystemError::NetworkTrafficUnavailable);
    let t = StatusTemplate::assemble(r);
    assert_eq!((t.network_in, t.network_out), (0, 0));

    let mut r = healthy();
    r.uptime = Err(SystemError::UptimeUnavailable);
    let t = StatusTemplate::assemble(r);
    assert_eq!(t.uptime, "Unknown");
    assert_eq!(t.temperature, "41.50 °C");

    let mut r = healthy();
    r.temperature = Err(SystemError::TemperatureSensorsUnavailable);
    let t = StatusTemplate::assemble(r);
    assert_eq!(t.temperature, "Unavailable");
    assert_eq!(t.uptime, "1 days, 2 hours, 3 minutes");

    let mut r = healthy();
    r.containers = Err(SystemError::DockerConnectionFailed);
    let t = StatusTemplate::assemble(r);
    assert!(t.containers.is_empty());

    let mut r = healthy();
    r.hostname = None;
    r.local_ip = None;
    r.public_ip = Some(s(""));
    let t = StatusTemplate::assemble(r);
    assert_eq!(t.hostname, "Unknown");
    assert_eq!(t.local_ip, "Unknown");
    assert_eq!(t.public_ip, "Unknown");
    assert_eq!(t.kernel_info, "6.1.0-18-amd64");

    let mut r = healthy();
    r.system_version = s("");
    r.kernel_version = s("");
    let t = StatusTemplate::assemble(r);
    assert_eq!(t.system_version, "Unknown System");
    assert_eq!(t.kernel_info, "Unknown Kernel");
}

#[test]
fn unchanged_state_gives_the_same_snapshot() {
    let a = StatusTemplate::assemble(healthy());
    let mut later = healthy();
    later.uptime = Ok(s("1 days, 2 hours, 4 minutes"));
    later.network = Ok((900, 1000));
    let b = StatusTemplate::assemble(later);
    assert_eq!(a.hostname, b.hostname);
    assert_eq!(a.memory_used, b.memory_used);
    assert_eq!(a.services_status, b.services_status);
    assert_eq!(a.local_ip, b.local_ip);
    assert_ne!(a.uptime, b.uptime);
    assert_ne!(a.network_in, b.network_in);
}

#[test]
fn service_activation_keeps_configured_order() {
    let services = vec![s("ssh"), s("cron"), s("nginx")];
    let probes: Vec<ServiceProbe> = vec![
        ServiceProbe { name: s("ssh"), output: Some(s("inactive\n")) },
        ServiceProbe { name: s("cron"), output: Some(s("active\n")) },
        ServiceProbe { name: s("nginx"), output: None },
    ];
    let active = check_services(&probes);
    assert_eq!(active, vec![s("cron")]);
    assert_eq!(
        service_statuses(&services, &active),
        vec![(s("ssh"), false), (s("cron"), true), (s("nginx"), false)]
    );
}

#[test]
fn a_service_listed_twice_appears_twice() {
    let services = vec![s("cron"), s("cron")];
    let active = vec![s("cron")];
    assert_eq!(
        service_statuses(&services, &active),
        vec![(s("cron"), true), (s("cron"), true)]
    );
    assert!(service_statuses(&vec![], &active).is_empty());
}

#[test]
fn containers_keep_the_runtime_order() {
    let listing = vec![
        (Some(s("redis:7")), Some(s("exited"))),
        (None, Some(s("running"))),
        (Some(s("nginx")), None),
    ];
    let cs = containers_from(&listing);
    assert_eq!(cs.len(), 3);
    assert_eq!((cs[0].image.as_str(), cs[0].state.as_str()), ("redis:7", "exited"));
    assert_eq!((cs[1].image.as_str(), cs[1].state.as_str()), ("", "running"));
    assert_eq!((cs[2].image.as_str(), cs[2].state.as_str()), ("nginx", ""));
}

#[test]
fn local_ip_is_the_first_non_loopback_ipv4() {
    let ifaces = vec![
        InterfaceAddress { is_loopback: true, ipv4: Some(s("127.0.0.1")) },
        InterfaceAddress { is_loopback: false, ipv4: None },
        InterfaceAddress { is_loopback: false, ipv4: Some(s("192.168.1.5")) },
        InterfaceAddress { is_loopback: false, ipv4: Some(s("10.0.0.1")) },
    ];
    assert_eq!(first_local_ipv4(&ifaces), Some(s("192.168.1.5")));
    let none = vec![
        InterfaceAddress { is_loopback: true, ipv4: Some(s("127.0.0.1")) },
        InterfaceAddress { is_loopback: false, ipv4: None },
    ];
    assert_eq!(first_local_ipv4(&none), None);
}

#[test]
fn end_to_end_status_request() {
    let store = parse_htpasswd("alice:{SHA}Hpmwn264NTBVVcxDw+B2ixo5Ims=\n");
    let guard = AuthMiddleware::new(Arc::new(store));
    let outcome = guard.authorize(Some(b"Basic YWxpY2U6Y29ycmVjdHBhc3M="));
    assert_eq!(outcome.decision(), AuthDecision::Authorized);
    let mut r = healthy();
    r.hostname = hostname::get().ok().map(|h| h.to_string_lossy().into_owned());
    let t = StatusTemplate::assemble(r);
    assert!(!t.hostname.is_empty());

    let outcome = guard.authorize(Some(b"Basic YWxpY2U6d3JvbmdwYXNz"));
    assert_eq!(outcome, AuthOutcome::BadCredentials);
    assert_eq!(outcome.decision(), AuthDecision::Rejected);
    assert_eq!(UNAUTHORIZED_STATUS, 401);
}
