use runway_selector::runway_file;
use runway_selector::runway_map::RunwayMap;

fn pairs(items: &[(&str, &str)]) -> RunwayMap {
    let mut map = RunwayMap::new();
    for (icao, runway) in items {
        map.insert(icao.to_string(), runway.to_string());
    }
    map
}

#[test]
fn departures_end_in_one_and_arrivals_in_zero() {
    assert_eq!(
        runway_file::write(&pairs(&[("EGLL", "27R")]), &pairs(&[("EGLL", "27L")])),
        "ACTIVE_RUNWAY:EGLL:27R:1\nACTIVE_RUNWAY:EGLL:27L:0\n"
    );
}

#[test]
fn every_airport_gets_a_line_for_each_role() {
    assert_eq!(
        runway_file::write(
            &pairs(&[("EGLL", "09R"), ("EGKK", "08R")]),
            &pairs(&[("EGKK", "08L"), ("EGLL", "09L")])
        ),
        "ACTIVE_RUNWAY:EGLL:09R:1\nACTIVE_RUNWAY:EGKK:08R:1\n\
         ACTIVE_RUNWAY:EGKK:08L:0\nACTIVE_RUNWAY:EGLL:09L:0\n"
    );
}

#[test]
fn nothing_selected_gives_an_empty_file() {
    assert_eq!(runway_file::write(&RunwayMap::new(), &RunwayMap::new()), "");
    assert_eq!(runway_file::write(&RunwayMap::new(), &pairs(&[("EGLL", "27L")])), "ACTIVE_RUNWAY:EGLL:27L:0\n");
}

fn entry(icao: &str, runway: &str, departure: bool) -> runway_file::ActiveRunway {
    runway_file::ActiveRunway { icao: icao.to_string(), runway: runway.to_string(), departure }
}

#[test]
fn file_is_read_line_by_line() {
    assert_eq!(
        runway_file::parse("ACTIVE_RUNWAY:EGLL:27R:1\nACTIVE_RUNWAY:EGLL:27L:0\n"),
        Some(vec![entry("EGLL", "27R", true), entry("EGLL", "27L", false)])
    );
    assert_eq!(runway_file::parse(""), Some(Vec::new()));
    assert_eq!(runway_file::parse("ACTIVE_RUNWAY:::0\n"), Some(vec![entry("", "", false)]));
}

#[test]
fn written_file_reads_back() {
    let dep = pairs(&[("EGLL", "09R"), ("EGKK", "08R"), ("EGSS", "04")]);
    let arr = pairs(&[("EGKK", "08L"), ("EGLL", "09L"), ("EGSS", "04")]);
    let text = runway_file::write(&dep, &arr);
    let mut read = runway_file::parse(&text).unwrap();
    let mut written: Vec<runway_file::ActiveRunway> = Vec::new();
    for (icao, runway) in dep.as_pairs() {
        written.push(entry(icao, runway, true));
    }
    for (icao, runway) in arr.as_pairs() {
        written.push(entry(icao, runway, false));
    }
    assert_eq!(read, written);
    // Whatever the order of the lines, the same entries come back.
    let turned = runway_file::write(
        &pairs(&[("EGSS", "04"), ("EGLL", "09R"), ("EGKK", "08R")]),
        &pairs(&[("EGSS", "04"), ("EGKK", "08L"), ("EGLL", "09L")]),
    );
    let mut again = runway_file::parse(&turned).unwrap();
    let key = |e: &runway_file::ActiveRunway| (e.icao.clone(), e.runway.clone(), e.departure);
    read.sort_by_key(key);
    again.sort_by_key(key);
    assert_eq!(read, again);
}

#[test]
fn written_names_other_than_ascii_read_back() {
    let dep = pairs(&[("K\u{f6}ln", "14L")]);
    let text = runway_file::write(&dep, &RunwayMap::new());
    assert_eq!(runway_file::parse(&text), Some(vec![entry("K\u{f6}ln", "14L", true)]));
}

#[test]
fn name_with_a_colon_does_not_read_back() {
    let text = runway_file::write(&pairs(&[("EG:LL", "27R")]), &RunwayMap::new());
    assert_eq!(text, "ACTIVE_RUNWAY:EG:LL:27R:1\n");
    assert_eq!(runway_file::parse(&text), None);
    let text = runway_file::write(&pairs(&[("EGLL", "27R:1\nACTIVE_RUNWAY:EGKK:08R")]), &RunwayMap::new());
    assert_eq!(
        runway_file::parse(&text),
        Some(vec![entry("EGLL", "27R", true), entry("EGKK", "08R", true)])
    );
}

#[test]
fn line_without_its_line_feed_is_not_read() {
    assert_eq!(runway_file::parse("ACTIVE_RUNWAY:EGLL:27R:1"), None);
    assert_eq!(runway_file::parse("ACTIVE_RUNWAY:EGLL:27R:1\nACTIVE_RUNWAY:EGLL:27L:0"), None);
}

#[test]
fn line_that_states_no_runway_is_not_read() {
    assert_eq!(runway_file::parse("\n"), None);
    assert_eq!(runway_file::parse("ACTIVE_RUNWAY:EGLL:27R:2\n"), None);
    assert_eq!(runway_file::parse("ACTIVE_RUNWAY:EGLL:27R:\n"), None);
    assert_eq!(runway_file::parse("ACTIVE_RUNWAY:EGLL:27R:10\n"), None);
    assert_eq!(runway_file::parse("ACTIVE_RUNWAY:EGLL:27R\n"), None);
    assert_eq!(runway_file::parse("ACTIVE_RUNWAY:EGLL\n"), None);
    assert_eq!(runway_file::parse("ACTIVE_RUNWAY\n"), None);
    assert_eq!(runway_file::parse("ACTIVE_AIRPORT:EGLL:27R:1\n"), None);
    assert_eq!(runway_file::parse("active_runway:EGLL:27R:1\n"), None);
    assert_eq!(runway_file::parse("ACTIVE_RUNWAY:EGLL:27R:1\n\n"), None);
}

#[test]
fn airport_entered_again_keeps_its_place_and_takes_the_new_runway() {
    let mut map = RunwayMap::new();
    map.insert("EGLL".to_string(), "27R".to_string());
    map.insert("EGKK".to_string(), "26L".to_string());
    map.insert("EGLL".to_string(), "09L".to_string());
    assert_eq!(
        map.as_pairs(),
        &vec![
            ("EGLL".to_string(), "09L".to_string()),
            ("EGKK".to_string(), "26L".to_string())
        ]
    );
    assert_eq!(
        runway_file::write(&map, &RunwayMap::new()),
        "ACTIVE_RUNWAY:EGLL:09L:1\nACTIVE_RUNWAY:EGKK:26L:1\n"
    );
}

#[test]
fn new_map_is_empty() {
    assert!(RunwayMap::new().as_pairs().is_empty());
}
