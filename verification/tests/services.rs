//! The service layer: discovery cycles, print-job planning, broker ids and
//! wire-level helpers.
use escpos2mqtt::discovery_service::{
    resolve_discovered, DiscoveredPrinter, DiscoveryConfig, DiscoveryService,
};
use escpos2mqtt::mqtt::homeassistant::{Configuration, Domain};
use escpos2mqtt::mqtt::string_serializer::JsonSerializer;
use escpos2mqtt::mqtt::{build_url, get_client_id};
use escpos2mqtt::mqtt_service::{discovery_configuration, plan_print_job, PrintJobPlan};
use escpos2mqtt::printer::discover::{discovery_query, DEFAULT_PORT};
use escpos2mqtt::printer::{model_name_from_identity_reply, Printer};
use escpos2mqtt::profile::{lookup_profile, Profile};
use escpos2mqtt::printer::{Command, Job, JobQueue, Program};
use escpos2mqtt::registry::PrinterRegistry;

fn test_printer(name: &str, actor: u64) -> Printer {
    Printer { name: name.to_string(), description: "desc".to_string(), actor }
}

fn test_profile(model: &str) -> Profile {
    Profile { name: model.to_string(), font_columns: Some(42), dpi: None, width_px: None }
}

fn descriptor(id: &str, actor: u64) -> DiscoveredPrinter {
    DiscoveredPrinter {
        id: id.to_string(),
        printer: test_printer(id, actor),
        profile: test_profile("default"),
    }
}

#[test]
fn discovery_cycle_adds_touches_and_evicts() {
    let service = DiscoveryService::new(DiscoveryConfig {
        default_printer_model: "default".to_string(),
        discovery_interval: 60_000,
        printer_timeout: 100,
    });
    let mut registry = PrinterRegistry::new();
    registry.add_manual_printer(
        "manual".to_string(),
        test_printer("manual", 0),
        test_profile("default"),
        0,
    );

    // first sighting of p1
    let report = service.run_cycle(&mut registry, &vec![descriptor("p1", 1)], 50);
    assert_eq!(report.newly_added, vec!["p1".to_string()]);
    assert!(report.still_present.is_empty());
    assert!(report.removed.is_empty());
    assert_eq!(registry.count(), 2);

    // re-sighting keeps the entry alive
    let report = service.run_cycle(&mut registry, &vec![descriptor("p1", 2)], 300);
    assert!(report.newly_added.is_empty());
    assert_eq!(report.still_present, vec!["p1".to_string()]);
    assert!(report.removed.is_empty());
    assert_eq!(registry.get_printer_mut("p1").unwrap().actor, 1);

    // a single missed scan does not evict: 80 ticks since last sighting
    let report = service.run_cycle(&mut registry, &vec![], 380);
    assert!(report.removed.is_empty());
    assert_eq!(registry.count(), 2);

    // beyond the timeout the non-manual entry goes; the manual one stays
    let report = service.run_cycle(&mut registry, &vec![], 1000);
    assert_eq!(report.removed, vec!["p1".to_string()]);
    assert_eq!(registry.count(), 1);
    assert!(registry.get_printer_mut("manual").is_some());
    assert!(registry.get_printer_mut("p1").is_none());
}

#[test]
fn resolver_lowercases_ids_and_checks_models() {
    let resolved = resolve_discovered("TM-Printer", "front desk", 7, None, "default").unwrap();
    assert_eq!(resolved.id, "tm-printer");
    assert_eq!(resolved.printer.name, "TM-Printer");
    assert_eq!(resolved.printer.actor, 7);
    assert_eq!(resolved.profile.name, "Default");

    assert!(resolve_discovered("X", "y", 0, Some("no-such-model-xyz".to_string()), "default")
        .is_none());
}

#[test]
fn profile_lookup_reads_the_table() {
    let profile = lookup_profile("default").unwrap();
    assert_eq!(profile.name, "Default");
    assert!(lookup_profile("surely-not-a-model").is_none());
}

#[test]
fn plan_print_job_decides() {
    assert_eq!(plan_print_job(false, "cut"), PrintJobPlan::UnknownPrinter);

    match plan_print_job(true, "write \"Hi\"\ncut") {
        PrintJobPlan::Print(program) => assert_eq!(program.commands.len(), 2),
        other => panic!("expected a print plan, got {other:?}"),
    }

    match plan_print_job(true, "cut\ngarbage here") {
        PrintJobPlan::IncompleteParse(rest) => assert_eq!(rest, "garbage here"),
        other => panic!("expected an incomplete parse, got {other:?}"),
    }
}

#[test]
fn discovery_record_shape() {
    let config = discovery_configuration("p1", "Printer One", "front desk", "Default");
    assert_eq!(config.name, "Receipt");
    assert_eq!(config.command_topic, "escpos/p1/print");
    assert_eq!(config.availability_topic, "escpos/available");
    assert_eq!(config.unique_id, "p1");
    assert_eq!(config.device.identifiers, vec!["p1".to_string()]);
    assert_eq!(config.device.name, "Printer One");
    assert_eq!(config.device.model, "Default - front desk");
    assert_eq!(config.configuration_topic(), "homeassistant/notify/p1/config");
}

#[test]
fn configuration_topic_uses_domain_and_id() {
    let config = Configuration::new(
        Domain::Notify,
        "Receipt",
        "escpos/x/print",
        "escpos/available",
        "x",
        "x",
        "X",
        "Model - Desc",
    );
    assert_eq!(config.configuration_topic(), "homeassistant/notify/x/config");
    assert_eq!(Domain::Notify.to_string(), "notify");
}

#[test]
fn client_ids_carry_prefix_and_random_tail() {
    let id = get_client_id("escpos");
    assert_eq!(id.len(), "escpos".len() + 1 + 8);
    assert!(id.starts_with("escpos_"));

    let url = build_url("mqtt://broker:1883", "escpos");
    assert!(url.starts_with("mqtt://broker:1883?client_id=escpos_"));
    let url = build_url("mqtt://broker:1883?tls=true", "escpos");
    assert!(url.starts_with("mqtt://broker:1883?tls=true&client_id=escpos_"));
}

#[test]
fn discovery_datagram_bytes() {
    let query = discovery_query();
    let mut expected = b"EPSONP".to_vec();
    expected.extend_from_slice(&[0x00, 0x00, 0x00, 0x10, 0x00, 0x00, 0x00, 0x00]);
    assert_eq!(query, expected);
    assert_eq!(DEFAULT_PORT, 9100);
}

#[test]
fn identity_reply_extracts_name() {
    let mut reply = vec![0u8; 82];
    reply[0] = 0x01;
    reply[1] = b'T';
    reply[2] = b'M';
    reply[3] = b'-';
    reply[4] = b'X';
    assert_eq!(model_name_from_identity_reply(&reply), "TM-X");

    // invalid UTF-8 bytes are replaced, never dropped silently
    let mut reply = vec![0u8; 82];
    reply[1] = 0xFF;
    assert_eq!(model_name_from_identity_reply(&reply), "\u{FFFD}");

    // without a terminator, at most 80 bytes are read
    let reply = vec![b'A'; 82];
    assert_eq!(model_name_from_identity_reply(&reply).len(), 80);
}

#[test]
fn serializer_round_trips_strings() {
    let s = JsonSerializer;
    assert_eq!(s.serialize(&"hello".to_string()), b"hello".to_vec());
    assert_eq!(s.deserialize(b"hello"), Some("hello".to_string()));
    assert_eq!(s.deserialize(&[0xFF, 0xFE]), None);
}

#[test]
fn jobs_execute_in_submission_order() {
    let mut queue = JobQueue::new();
    assert_eq!(queue.len(), 0);
    queue.submit(Job::Print(Program(vec![Command::Write("first".to_string())])));
    queue.submit(Job::Print(Program(vec![Command::Write("second".to_string())])));
    queue.submit(Job::GetModelName);
    assert_eq!(queue.len(), 3);

    match queue.take_next().unwrap() {
        Job::Print(p) => assert_eq!(p.0, vec![Command::Write("first".to_string())]),
        other => panic!("expected the first print job, got {other:?}"),
    }
    match queue.take_next().unwrap() {
        Job::Print(p) => assert_eq!(p.0, vec![Command::Write("second".to_string())]),
        other => panic!("expected the second print job, got {other:?}"),
    }
    assert_eq!(queue.take_next(), Some(Job::GetModelName));
    assert_eq!(queue.take_next(), None);
}
