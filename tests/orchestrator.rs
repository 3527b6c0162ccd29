use wol_bot::auth::AllowList;
use wol_bot::command::{parse_command, Command};
use wol_bot::mac::encode;
use wol_bot::orchestrator::{network_status_reply, status_reply, Orchestrator, Step, WakeAction, WakePhase};
use wol_bot::registry::{DeviceRegistry, RawDevice};
use wol_bot::reply::Reply;

fn raw(name: &str, mac: &str, ip: &str, timeout: Option<&str>) -> RawDevice {
    RawDevice {
        name: name.to_string(),
        hardware_address: mac.to_string(),
        network_address: ip.to_string(),
        timeout: timeout.map(|t| t.to_string()),
    }
}

fn setup() -> Orchestrator {
    let raws = vec![
        raw("pc", "AA:BB:CC:DD:EE:FF", "192.168.1.10", Some("60")),
        raw("nas", "11-22-33-44-55-66", "192.168.1.20", None),
    ];
    let (reg, _) = DeviceRegistry::build(&raws);
    Orchestrator::new(reg, AllowList::new(vec![7, 42]))
}

fn wake(name: &str) -> Command {
    Command::Wake { name: name.to_string() }
}

#[test]
fn allow_list_check() {
    let a = AllowList::new(vec![7, 42]);
    assert!(a.check(7));
    assert!(a.check(42));
    assert!(!a.check(0));
    assert!(!a.check(8));
    assert!(!AllowList::new(Vec::new()).check(7));
}

#[test]
fn unauthorized_caller_gets_no_reply() {
    let o = setup();
    for cmd in [Command::Help, Command::List, Command::StatusAll, wake("pc"), wake("nope")] {
        assert!(matches!(o.handle(1, &cmd), Step::Silent));
    }
}

#[test]
fn unknown_device_gives_one_not_found_reply() {
    let o = setup();
    match o.handle(7, &wake("printer")) {
        Step::Reply { reply: Reply::DeviceNotFound } => {}
        _ => panic!("expected the not-found reply"),
    }
}

#[test]
fn known_device_sends_then_acknowledges_then_reports() {
    let o = setup();
    let (packet, mut req) = match o.handle(42, &wake("pc")) {
        Step::Transmit { packet, request } => (packet, request),
        _ => panic!("expected a transmission"),
    };
    let mac = o.registry().lookup("pc").unwrap().mac;
    assert_eq!(packet, encode(&mac));
    assert_eq!(req.phase, WakePhase::Transmitting);
    match req.transmitted(true) {
        WakeAction::AckAndVerify { ack, delay_secs, network_address } => {
            assert_eq!(delay_secs, 60);
            assert_eq!(network_address, "192.168.1.10");
            assert_eq!(ack.text(), "🚀 Packet sent to <code>pc</code>. Verifying in 60s...");
        }
        _ => panic!("expected an acknowledgment"),
    }
    assert_eq!(req.phase, WakePhase::Verifying);
    let report = req.probed(false);
    assert_eq!(req.phase, WakePhase::Reported);
    assert_eq!(report.text(), "Result for <code>pc</code>: ⚠️ STILL OFFLINE");
}

#[test]
fn report_depends_only_on_probe_result() {
    let o = setup();
    let mut reqs = Vec::new();
    for _ in 0..2 {
        match o.handle(7, &wake("nas")) {
            Step::Transmit { mut request, .. } => {
                request.transmitted(true);
                reqs.push(request);
            }
            _ => panic!("expected a transmission"),
        }
    }
    let up = reqs[0].probed(true);
    let down = reqs[1].probed(false);
    assert_eq!(up.text(), "Result for <code>nas</code>: ✅ ONLINE");
    assert_eq!(down.text(), "Result for <code>nas</code>: ⚠️ STILL OFFLINE");
}

#[test]
fn default_timeout_in_acknowledgment() {
    let o = setup();
    match o.handle(7, &wake("nas")) {
        Step::Transmit { mut request, .. } => match request.transmitted(true) {
            WakeAction::AckAndVerify { ack, delay_secs, .. } => {
                assert_eq!(delay_secs, 30);
                assert_eq!(ack.text(), "🚀 Packet sent to <code>nas</code>. Verifying in 30s...");
            }
            _ => panic!("expected an acknowledgment"),
        },
        _ => panic!("expected a transmission"),
    }
}

#[test]
fn failed_send_reports_network_error_and_schedules_nothing() {
    let o = setup();
    match o.handle(7, &wake("pc")) {
        Step::Transmit { mut request, .. } => {
            match request.transmitted(false) {
                WakeAction::Finish { reply } => {
                    assert!(matches!(reply, Reply::NetworkError));
                    assert_eq!(reply.text(), "❌ Network error.");
                    assert!(!reply.uses_markup());
                }
                _ => panic!("expected the end of the request"),
            }
            assert_eq!(request.phase, WakePhase::Failed);
        }
        _ => panic!("expected a transmission"),
    }
}

#[test]
fn two_wakes_do_not_cross() {
    let o = setup();
    let mut a = match o.handle(7, &wake("pc")) {
        Step::Transmit { request, .. } => request,
        _ => panic!("expected a transmission"),
    };
    let mut b = match o.handle(42, &wake("nas")) {
        Step::Transmit { request, .. } => request,
        _ => panic!("expected a transmission"),
    };
    let ack_b = b.transmitted(true);
    let ack_a = a.transmitted(true);
    match (ack_a, ack_b) {
        (
            WakeAction::AckAndVerify { ack: x, delay_secs: dx, network_address: ax },
            WakeAction::AckAndVerify { ack: y, delay_secs: dy, network_address: ay },
        ) => {
            assert_eq!((dx, dy), (60, 30));
            assert_eq!((ax.as_str(), ay.as_str()), ("192.168.1.10", "192.168.1.20"));
            assert!(x.text().contains("<code>pc</code>"));
            assert!(y.text().contains("<code>nas</code>"));
        }
        _ => panic!("expected two acknowledgments"),
    }
    let rb = b.probed(true);
    let ra = a.probed(false);
    assert_eq!(ra.text(), "Result for <code>pc</code>: ⚠️ STILL OFFLINE");
    assert_eq!(rb.text(), "Result for <code>nas</code>: ✅ ONLINE");
}

#[test]
fn list_and_status_steps() {
    let o = setup();
    match o.handle(7, &Command::List) {
        Step::Reply { reply } => assert_eq!(
            reply.text(),
            "<b>📋 Configured Devices:</b>\n• <code>pc</code>\n• <code>nas</code>\n"
        ),
        _ => panic!("expected the list"),
    }
    match o.handle(7, &Command::StatusAll) {
        Step::ProbeAll { names, network_addresses } => {
            assert_eq!(names, vec!["pc".to_string(), "nas".to_string()]);
            assert_eq!(network_addresses, vec!["192.168.1.10".to_string(), "192.168.1.20".to_string()]);
            let r = network_status_reply(names, vec![true, false]);
            assert_eq!(
                r.text(),
                "<b>🔍 Network Status:</b>\n• <code>pc</code>: ✅ ONLINE\n• <code>nas</code>: 🔴 OFFLINE\n"
            );
        }
        _ => panic!("expected probes of every device"),
    }
    match o.handle(7, &Command::Status { name: "nas".to_string() }) {
        Step::ProbeOne { name, network_address } => {
            assert_eq!(network_address, "192.168.1.20");
            assert_eq!(status_reply(&name, true).text(), "Device <code>nas</code> is ✅ ONLINE");
        }
        _ => panic!("expected one probe"),
    }
    match o.handle(7, &Command::Status { name: "tv".to_string() }) {
        Step::Reply { reply } => {
            assert!(matches!(reply, Reply::DeviceNotFound));
            assert_eq!(reply.text(), "❌ Device not found.");
        }
        _ => panic!("expected the not-found reply"),
    }
    assert!(matches!(o.handle(7, &Command::Ignored), Step::Silent));
    match o.handle(7, &Command::Help) {
        Step::Reply { reply } => {
            assert!(reply.uses_markup());
            assert!(reply.text().starts_with("<b>🤖 WOL Bot Menu</b>"));
        }
        _ => panic!("expected the menu"),
    }
}

#[test]
fn commands_from_text() {
    assert!(matches!(parse_command("/help"), Command::Help));
    assert!(matches!(parse_command("/start"), Command::Help));
    assert!(matches!(parse_command("  /list  "), Command::List));
    assert!(matches!(parse_command("/status_all"), Command::StatusAll));
    match parse_command("/wake   pc extra") {
        Command::Wake { name } => assert_eq!(name, "pc"),
        _ => panic!("expected a wake command"),
    }
    match parse_command("/status\tnas") {
        Command::Status { name } => assert_eq!(name, "nas"),
        _ => panic!("expected a status command"),
    }
    assert!(matches!(parse_command("/wake"), Command::MissingDeviceName));
    assert!(matches!(parse_command("/status  "), Command::MissingDeviceName));
    assert!(matches!(parse_command(""), Command::Ignored));
    assert!(matches!(parse_command("hello"), Command::Ignored));
    assert!(matches!(parse_command("/WAKE pc"), Command::Ignored));
}

#[test]
fn sent_text_has_exact_decimal() {
    let r = Reply::Sent { name: "x".to_string(), timeout_secs: 0 };
    assert_eq!(r.text(), "🚀 Packet sent to <code>x</code>. Verifying in 0s...");
    let r = Reply::Sent { name: "x".to_string(), timeout_secs: u64::MAX };
    assert_eq!(r.text(), "🚀 Packet sent to <code>x</code>. Verifying in 18446744073709551615s...");
    assert_eq!(Reply::DeviceNotFound.text(), "❌ Device not found.");
    assert!(!Reply::DeviceNotFound.uses_markup());
}

#[test]
fn missing_device_name_gets_explicit_error() {
    let o = setup();
    match o.handle(7, &parse_command("/wake")) {
        Step::Reply { reply } => {
            assert!(matches!(reply, Reply::MissingDeviceName));
            assert_eq!(reply.text(), "❌ Device name missing.");
            assert!(!reply.uses_markup());
        }
        _ => panic!("expected an explicit error"),
    }
    assert!(matches!(o.handle(1, &parse_command("/status")), Step::Silent));
}
