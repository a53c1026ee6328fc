use room_exporter::domain::{Appointment, Room};
use room_exporter::registry::Registry;
use room_exporter::render::render;
use room_exporter::scrape::{handle_scrape, FetchError};

fn appt(subject: &str, organizer: &str, start: i64, end: i64, private: bool) -> Appointment {
    Appointment {
        subject: String::from(subject),
        organizer: String::from(organizer),
        start,
        end,
        private,
    }
}

fn room(alias: &str, name: &str, busy: bool, appointments: Vec<Appointment>) -> Room {
    Room {
        room_list: String::from("building-1"),
        name: String::from(name),
        room_alias: String::from(alias),
        email: String::from("room@example.com"),
        busy,
        appointments,
    }
}

#[test]
fn busy_room_with_one_appointment_exposes_both_series() {
    let mut reg = Registry::new();
    let snapshot = vec![room(
        "r1",
        "Oak",
        true,
        vec![appt("Sync", "alice", 1000, 2000, false)],
    )];
    let resp = handle_scrape(&mut reg, Ok(snapshot));
    assert_eq!(resp.status, 200);
    assert!(resp
        .body
        .contains("meeting_room_occupied{room_alias=\"r1\",room_name=\"Oak\"} 1"));
    assert!(resp.body.contains(
        "meeting_room_appointment_details{room_alias=\"r1\",subject=\"Sync\",organizer=\"alice\",private=\"false\",start=\"1000\",end=\"2000\"} 1"
    ));
}

#[test]
fn occupancy_maps_busy_to_one_and_free_to_zero_exactly() {
    let mut reg = Registry::new();
    let snapshot = vec![
        room("r1", "Oak", true, Vec::new()),
        room("r2", "Elm", false, Vec::new()),
    ];
    let resp = handle_scrape(&mut reg, Ok(snapshot));
    let expected = String::from("meeting_room_occupied{room_alias=\"r1\",room_name=\"Oak\"} 1\n")
        + "meeting_room_occupied{room_alias=\"r2\",room_name=\"Elm\"} 0\n";
    assert_eq!(resp.body, expected);
}

#[test]
fn second_scrape_with_no_appointments_drops_stale_details() {
    let mut reg = Registry::new();
    let first = vec![room(
        "r1",
        "Oak",
        true,
        vec![appt("Sync", "alice", 1000, 2000, false)],
    )];
    let resp1 = handle_scrape(&mut reg, Ok(first));
    assert!(resp1.body.contains("meeting_room_appointment_details"));

    let second = vec![room("r1", "Oak", false, Vec::new())];
    let resp2 = handle_scrape(&mut reg, Ok(second));
    assert!(!resp2.body.contains("meeting_room_appointment_details"));
    assert!(resp2
        .body
        .contains("meeting_room_occupied{room_alias=\"r1\",room_name=\"Oak\"} 0"));
}

#[test]
fn repeated_scrapes_never_accumulate_details() {
    let mut reg = Registry::new();
    for i in 0..4 {
        let snapshot = vec![room(
            "r1",
            "Oak",
            true,
            vec![appt(&format!("Meeting {}", i), "alice", 1000 + i, 2000 + i, false)],
        )];
        let resp = handle_scrape(&mut reg, Ok(snapshot));
        let lines = resp
            .body
            .matches("meeting_room_appointment_details")
            .count();
        assert_eq!(lines, 1);
        assert!(resp.body.contains(&format!("subject=\"Meeting {}\"", i)));
    }
}

#[test]
fn failed_fetch_leaves_registry_byte_for_byte_identical() {
    let mut reg = Registry::new();
    let snapshot = vec![room(
        "r1",
        "Oak",
        true,
        vec![appt("Sync", "alice", 1000, 2000, false)],
    )];
    handle_scrape(&mut reg, Ok(snapshot));
    let before = render(&reg);

    let resp = handle_scrape(&mut reg, Err(FetchError::Connection));
    assert_eq!(resp.status, 500);
    assert!(!resp.body.is_empty());

    let after = render(&reg);
    assert_eq!(before, after);
}

#[test]
fn upstream_error_yields_server_error_with_diagnostic_body() {
    let mut reg = Registry::new();
    let resp = handle_scrape(&mut reg, Err(FetchError::Connection));
    assert_eq!(resp.status, 500);
    assert_eq!(resp.body, "failed to fetch room data: connection error");

    let resp = handle_scrape(&mut reg, Err(FetchError::Status(503)));
    assert_eq!(resp.status, 500);
    assert_eq!(
        resp.body,
        "failed to fetch room data: upstream returned HTTP status 503"
    );

    let resp = handle_scrape(&mut reg, Err(FetchError::Decode));
    assert_eq!(resp.status, 500);
    assert_eq!(
        resp.body,
        "failed to fetch room data: could not decode upstream response"
    );
}

#[test]
fn identical_appointments_collapse_to_one_series() {
    let mut reg = Registry::new();
    let snapshot = vec![room(
        "r1",
        "Oak",
        true,
        vec![
            appt("Sync", "alice", 1000, 2000, false),
            appt("Sync", "alice", 1000, 2000, false),
        ],
    )];
    let resp = handle_scrape(&mut reg, Ok(snapshot));
    let needle = "meeting_room_appointment_details{room_alias=\"r1\",subject=\"Sync\",organizer=\"alice\",private=\"false\",start=\"1000\",end=\"2000\"} 1";
    assert_eq!(resp.body.matches(needle).count(), 1);
}

#[test]
fn distinct_appointments_each_keep_their_series() {
    let mut reg = Registry::new();
    let snapshot = vec![room(
        "r1",
        "Oak",
        true,
        vec![
            appt("Sync", "alice", 1000, 2000, false),
            appt("Sync", "alice", 1000, 2000, true),
        ],
    )];
    let resp = handle_scrape(&mut reg, Ok(snapshot));
    assert_eq!(
        resp.body.matches("meeting_room_appointment_details").count(),
        2
    );
    assert!(resp.body.contains("private=\"false\""));
    assert!(resp.body.contains("private=\"true\""));
}

#[test]
fn times_format_as_decimal_integers_including_negatives() {
    let mut reg = Registry::new();
    let snapshot = vec![room(
        "r1",
        "Oak",
        true,
        vec![appt("Sync", "alice", -5, 9223372036854775807, true)],
    )];
    let resp = handle_scrape(&mut reg, Ok(snapshot));
    assert!(resp
        .body
        .contains("start=\"-5\",end=\"9223372036854775807\""));
    assert!(resp.body.contains("private=\"true\""));
}

#[test]
fn unsafe_label_characters_are_escaped_not_rejected() {
    let mut reg = Registry::new();
    let snapshot = vec![room(
        "r1",
        "Oak",
        true,
        vec![appt("a\"b\\c\nd", "alice", 1, 2, false)],
    )];
    let resp = handle_scrape(&mut reg, Ok(snapshot));
    assert_eq!(resp.status, 200);
    assert!(resp.body.contains("subject=\"a\\\"b\\\\c\\nd\""));
}

#[test]
fn room_absent_from_new_snapshot_stops_reporting_occupancy() {
    let mut reg = Registry::new();
    let first = vec![
        room("r1", "Oak", true, Vec::new()),
        room("r2", "Elm", false, Vec::new()),
    ];
    handle_scrape(&mut reg, Ok(first));

    let second = vec![room("r2", "Elm", true, Vec::new())];
    let resp = handle_scrape(&mut reg, Ok(second));
    assert!(!resp.body.contains("room_alias=\"r1\""));
    assert_eq!(
        resp.body,
        "meeting_room_occupied{room_alias=\"r2\",room_name=\"Elm\"} 1\n"
    );
}

#[test]
fn empty_snapshot_renders_empty_body() {
    let mut reg = Registry::new();
    let resp = handle_scrape(&mut reg, Ok(Vec::new()));
    assert_eq!(resp.status, 200);
    assert_eq!(resp.body, "");
}

#[test]
fn fresh_registry_renders_empty() {
    let reg = Registry::new();
    assert_eq!(render(&reg), "");
}

#[test]
fn duplicate_room_keys_last_value_wins() {
    let mut reg = Registry::new();
    let snapshot = vec![
        room("r1", "Oak", false, Vec::new()),
        room("r1", "Oak", true, Vec::new()),
    ];
    let resp = handle_scrape(&mut reg, Ok(snapshot));
    assert_eq!(
        resp.body,
        "meeting_room_occupied{room_alias=\"r1\",room_name=\"Oak\"} 1\n"
    );
}
