use sbb::autocomplete::LocationField;
use sbb::dates::Date;
use sbb::form::SearchForm;
use sbb::models::{Connection, Location, ResultsState, Section, Stop, Walk};
use sbb::render::{
    connection_label_text, format_time, format_time_with_delay, journey_text, platform_text,
};
use sbb::request::{connection_query_url, location_query_url};

fn stop(name: &str, departure: Option<&str>, arrival: Option<&str>) -> Stop {
    Stop {
        station: Location { name: name.to_string() },
        arrival: arrival.map(|s| s.to_string()),
        departure: departure.map(|s| s.to_string()),
        delay: None,
        platform: None,
    }
}

#[test]
fn submitting_from_zug_to_chur_with_no_overrides() {
    let today = Date { year: 2024, month: 3, day: 17 };
    let mut form = SearchForm::new();
    form.from.set_text("Zug");
    form.to.set_text("Chur");
    let r = form.build_request(today);
    assert_eq!(r.from, "Zug");
    assert_eq!(r.to, "Chur");
    assert_eq!(r.vias, Vec::<String>::new());
    assert_eq!(r.date, None);
    assert_eq!(r.time, None);
    assert!(!r.is_arrival_time);
}

#[test]
fn a_via_of_basel_with_the_next_slot_left_empty() {
    let today = Date { year: 2024, month: 3, day: 17 };
    let mut form = SearchForm::new();
    form.vias.set_text(0, "Basel");
    assert_eq!(form.vias.get_vias(), vec!["Basel".to_string()]);
    let r = form.build_request(today);
    assert_eq!(r.vias, vec!["Basel".to_string()]);
}

#[test]
fn a_favorite_fills_the_first_empty_location_field() {
    let mut form = SearchForm::new();
    form.apply_favorite("Zug");
    assert_eq!(form.from.get_text(), "Zug");
    assert_eq!(form.to.get_text(), "");
    form.apply_favorite("Chur");
    assert_eq!(form.from.get_text(), "Zug");
    assert_eq!(form.to.get_text(), "Chur");
    form.apply_favorite("Bern");
    assert_eq!(form.from.get_text(), "Zug");
    assert_eq!(form.to.get_text(), "Chur");
}

#[test]
fn a_departure_timestamp_renders_as_hours_and_minutes() {
    let c = Connection {
        from: stop("Zug", Some("2024-03-17T08:15:00+0100"), None),
        to: stop("Chur", None, Some("2024-03-17T10:03:00+0100")),
        duration: "01:48:00".to_string(),
        sections: Vec::new(),
    };
    assert_eq!(format_time(&c.from.departure), "08:15");
    assert_eq!(
        connection_label_text(&c),
        "<big><b>08:15 Zug - 10:03 Chur</b></big>"
    );
}

#[test]
fn missing_or_malformed_timestamps_render_empty() {
    assert_eq!(format_time(&None), "");
    assert_eq!(format_time(&Some("tomorrow at eight".to_string())), "");
    assert_eq!(format_time(&Some("2024-03-17 08:15:00+0100".to_string())), "");
    assert_eq!(format_time(&Some("2024-02-30T08:15:00+0100".to_string())), "");
    assert_eq!(format_time(&Some("2024-03-17T08:15:00+0100 ".to_string())), "");
}

#[test]
fn delays_render_gray_when_zero_and_red_otherwise() {
    let t = Some("2024-03-17T08:15:00+0100".to_string());
    assert_eq!(
        format_time_with_delay(&t, &None),
        "08:15 <span foreground=\"gray\">+0</span>"
    );
    assert_eq!(
        format_time_with_delay(&t, &Some(0)),
        "08:15 <span foreground=\"gray\">+0</span>"
    );
    assert_eq!(
        format_time_with_delay(&t, &Some(12)),
        "08:15 <span foreground=\"red\">+12</span>"
    );
    assert_eq!(format_time_with_delay(&None, &Some(3)), "");
}

#[test]
fn platform_labels_mark_platform_changes_in_red() {
    assert_eq!(platform_text(&None), "Pl. -");
    assert_eq!(platform_text(&Some("7".to_string())), "Pl. 7");
    assert_eq!(
        platform_text(&Some("7!".to_string())),
        "<span foreground=\"red\">Pl. 7</span>"
    );
}

#[test]
fn a_section_shows_its_journey_or_its_walk() {
    let mut section = Section {
        departure: stop("Zug", Some("2024-03-17T08:15:00+0100"), None),
        arrival: stop("Chur", None, Some("2024-03-17T10:03:00+0100")),
        journey: None,
        walk: None,
    };
    assert_eq!(journey_text(&section), "");
    section.walk = Some(Walk { duration: 300 });
    assert_eq!(journey_text(&section), "<i>Walk 5 min</i>");
    section.journey = Some(sbb::models::Journey {
        name: "IR 13".to_string(),
        category: "IR".to_string(),
        number: "13".to_string(),
        operator: "SBB".to_string(),
        to: "Chur".to_string(),
        pass_list: Vec::new(),
    });
    assert_eq!(journey_text(&section), "<i>IR 13</i>");
}

#[test]
fn the_query_urls_spell_out_every_parameter() {
    assert_eq!(
        location_query_url("Basel"),
        "http://transport.opendata.ch/v1/locations?query=Basel"
    );
    let today = Date { year: 2024, month: 3, day: 17 };
    let mut form = SearchForm::new();
    form.from.set_text("Zug");
    form.to.set_text("Chur");
    form.vias.set_text(0, "Basel");
    form.time.edit_fields(2024, 3, 18, 8, 15);
    form.time.toggle_arrival();
    let r = form.build_request(today);
    assert_eq!(
        connection_query_url(&r),
        "http://transport.opendata.ch/v1/connections?limit=6&from=Zug&to=Chur&via[]=Basel&date=2024-03-18&time=08:15&isArrivalTime=1"
    );
    let plain = SearchForm::new().build_request(today);
    assert_eq!(
        connection_query_url(&plain),
        "http://transport.opendata.ch/v1/connections?limit=6&from=&to=&isArrivalTime=0"
    );
}

#[test]
fn lookups_update_suggestions_and_failures_are_swallowed() {
    let mut field = LocationField::new();
    let query = field.set_text("Bas");
    assert_eq!(query, "Bas");
    field.apply_lookup_result(Some(vec!["Basel".to_string(), "Basel SBB".to_string()]));
    assert_eq!(field.suggestions, vec!["Basel".to_string(), "Basel SBB".to_string()]);
    // a failed lookup leaves the list untouched
    field.apply_lookup_result(None);
    assert_eq!(field.suggestions, vec!["Basel".to_string(), "Basel SBB".to_string()]);
    // the latest delivery wins, stale or not
    field.apply_lookup_result(Some(vec!["Bassersdorf".to_string()]));
    assert_eq!(field.suggestions, vec!["Bassersdorf".to_string()]);
}

#[test]
fn a_failed_search_clears_the_results_and_raises_the_error_signal() {
    let mut results = ResultsState::new();
    let c = Connection {
        from: stop("Zug", Some("2024-03-17T08:15:00+0100"), None),
        to: stop("Chur", None, Some("2024-03-17T10:03:00+0100")),
        duration: "01:48:00".to_string(),
        sections: Vec::new(),
    };
    results.apply_search_result(Some(vec![c]));
    assert_eq!(results.connections.len(), 1);
    assert!(!results.error);
    results.apply_search_result(None);
    assert_eq!(results.connections.len(), 0);
    assert!(results.error);
}
