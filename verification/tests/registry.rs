//! Registry lifecycle: idempotent adds, diffing, staleness and events.
use escpos2mqtt::printer::Printer;
use escpos2mqtt::profile::Profile;
use escpos2mqtt::registry::{PrinterMetadata, PrinterRegistry, RegistryEvent};

fn test_printer(name: &str, actor: u64) -> Printer {
    Printer { name: name.to_string(), description: format!("{name} description"), actor }
}

fn test_profile(model: &str) -> Profile {
    Profile {
        name: model.to_string(),
        font_columns: Some(48),
        dpi: Some(203),
        width_px: Some(576),
    }
}

#[test]
fn metadata_tracks_sightings() {
    let mut m = PrinterMetadata::new(100);
    assert_eq!(m.first_seen, 100);
    assert_eq!(m.last_seen, 100);
    assert!(!m.is_manual);
    m.update_last_seen(250);
    assert_eq!(m.first_seen, 100);
    assert_eq!(m.last_seen, 250);
    // a clock reading from the past never lowers last_seen
    m.update_last_seen(50);
    assert_eq!(m.last_seen, 250);

    let manual = PrinterMetadata::new_manual(7);
    assert!(manual.is_manual);
    assert_eq!(manual.first_seen, 7);
}

#[test]
fn add_twice_emits_one_event_and_keeps_first_seen() {
    let mut registry = PrinterRegistry::new();
    let cursor = registry.subscribe();
    registry.add_printer("p1".to_string(), test_printer("P1", 1), test_profile("default"), 100);
    registry.add_printer("p1".to_string(), test_printer("P1", 2), test_profile("default"), 200);

    let events = registry.events_since(cursor);
    assert_eq!(events.len(), 1);
    match &events[0] {
        RegistryEvent::Added(e) => {
            assert_eq!(e.printer_id, "p1");
            assert_eq!(e.printer_name, "P1");
            assert_eq!(e.model_name, "default");
        }
        other => panic!("expected an Added event, got {other:?}"),
    }

    // the original actor handle is kept, never replaced
    let handle = registry.get_printer_mut("p1").unwrap();
    assert_eq!(handle.actor, 1);

    let entry = registry.remove_printer("p1").unwrap();
    assert_eq!(entry.metadata.first_seen, 100);
    assert_eq!(entry.metadata.last_seen, 200);
}

#[test]
fn diff_splits_new_and_present() {
    let mut registry = PrinterRegistry::new();
    registry.add_printer("a".to_string(), test_printer("A", 1), test_profile("default"), 10);
    registry.add_printer("b".to_string(), test_printer("B", 2), test_profile("default"), 10);

    let discovered = vec!["b".to_string(), "c".to_string()];
    let (newly_added, still_present) = registry.diff(&discovered);
    assert_eq!(newly_added, vec!["c".to_string()]);
    assert_eq!(still_present, vec!["b".to_string()]);
}

#[test]
fn stale_skips_manual_entries() {
    let mut registry = PrinterRegistry::new();
    registry.add_printer("auto".to_string(), test_printer("Auto", 1), test_profile("default"), 100);
    registry.add_manual_printer(
        "manual".to_string(),
        test_printer("Manual", 2),
        test_profile("default"),
        100,
    );

    // both unseen for 900 ticks; only the non-manual one is stale
    let stale = registry.get_stale_printers(500, 1000);
    assert_eq!(stale, vec!["auto".to_string()]);

    // exactly at the timeout nothing is stale yet
    let stale = registry.get_stale_printers(900, 1000);
    assert!(stale.is_empty());

    // a touch resets the clock
    registry.touch_printer("auto", 990);
    let stale = registry.get_stale_printers(500, 1000);
    assert!(stale.is_empty());
}

#[test]
fn subscriber_sees_added_then_removed() {
    let mut registry = PrinterRegistry::new();
    registry.add_printer("early".to_string(), test_printer("E", 9), test_profile("default"), 1);
    let cursor = registry.subscribe();
    registry.add_printer("p".to_string(), test_printer("P", 1), test_profile("default"), 10);
    registry.touch_printer("p", 20);
    registry.remove_printer("p");

    let events = registry.events_since(cursor);
    assert_eq!(events.len(), 2);
    match (&events[0], &events[1]) {
        (RegistryEvent::Added(a), RegistryEvent::Removed(r)) => {
            assert_eq!(a.printer_id, "p");
            assert_eq!(r.printer_id, "p");
        }
        other => panic!("expected Added then Removed, got {other:?}"),
    }
}

#[test]
fn removing_absent_id_is_a_no_op() {
    let mut registry = PrinterRegistry::new();
    let cursor = registry.subscribe();
    assert!(registry.remove_printer("ghost").is_none());
    assert!(registry.events_since(cursor).is_empty());
    assert_eq!(registry.count(), 0);
}

#[test]
fn touch_on_absent_id_is_a_no_op() {
    let mut registry = PrinterRegistry::new();
    registry.touch_printer("ghost", 5);
    assert_eq!(registry.count(), 0);
}

#[test]
fn listings_cover_all_entries() {
    let mut registry = PrinterRegistry::new();
    registry.add_printer("a".to_string(), test_printer("A", 1), test_profile("m1"), 10);
    registry.add_printer("b".to_string(), test_printer("B", 2), test_profile("m2"), 10);

    let listed = registry.list_printers();
    assert_eq!(listed, vec![("a".to_string(), "A".to_string()), ("b".to_string(), "B".to_string())]);

    let all = registry.get_all_printers();
    assert_eq!(all.len(), 2);
    assert_eq!(all[0].0, "a");
    assert_eq!(all[0].2.name, "m1");
    assert_eq!(all[1].1.name, "B");

    let (printer, profile) = registry.get_printer_with_profile("b").unwrap();
    assert_eq!(printer.name, "B");
    assert_eq!(profile.name, "m2");
    assert!(registry.get_printer_with_profile("z").is_none());
}
