use runway_selector::airport::Airport;
use runway_selector::error::SelectionError;
use runway_selector::geometry::Runway;

fn runway(id: &str, true_heading: u32) -> Runway {
    Runway::new(id.to_string(), true_heading)
}

fn names(ids: &[&str]) -> Vec<String> {
    ids.iter().map(|id| id.to_string()).collect()
}

fn east_west(dep: Option<&[&str]>, arr: Option<&[&str]>) -> Airport {
    Airport::new(
        "EGXX".to_string(),
        vec![runway("09", 90), runway("27", 270)],
        None,
        dep.map(names),
        arr.map(names),
        None,
    )
}

#[test]
fn lookup_finds_the_runway_by_its_designator() {
    let airport = east_west(None, None);
    let found = airport.get_runway_heading("27".to_string()).unwrap();
    assert_eq!(found.id, "27");
    assert_eq!(found.true_heading, 270);
}

#[test]
fn lookup_takes_the_first_of_two_runways_with_one_designator() {
    let airport = Airport::new(
        "EGXX".to_string(),
        vec![runway("09", 90), runway("27", 270), runway("09", 95)],
        None,
        None,
        None,
        None,
    );
    assert_eq!(airport.get_runway_heading("09".to_string()).unwrap().true_heading, 90);
}

#[test]
fn lookup_of_a_missing_designator_names_airport_and_runway() {
    let airport = east_west(None, None);
    assert_eq!(
        airport.get_runway_heading("18".to_string()).err(),
        Some(SelectionError::UnknownRunway { icao: "EGXX".to_string(), runway: "18".to_string() })
    );
}

#[test]
fn closest_match_takes_the_nearest_runway() {
    let airport = east_west(None, None);
    let runways = vec![runway("09", 90), runway("27", 270)];
    assert_eq!(airport.select_any_rwy(100, &runways), Ok("09".to_string()));
    assert_eq!(airport.select_any_rwy(260, &runways), Ok("27".to_string()));
    assert_eq!(airport.select_any_rwy(359, &runways), Ok("27".to_string()));
    assert_eq!(airport.select_any_rwy(1, &runways), Ok("09".to_string()));
}

#[test]
fn closest_match_takes_the_first_of_two_equally_near() {
    let airport = east_west(None, None);
    let runways = vec![runway("09", 90), runway("27", 270)];
    assert_eq!(airport.select_any_rwy(180, &runways), Ok("09".to_string()));
    assert_eq!(airport.select_any_rwy(0, &runways), Ok("09".to_string()));
    let turned = vec![runway("27", 270), runway("09", 90)];
    assert_eq!(airport.select_any_rwy(180, &turned), Ok("27".to_string()));
    let three = vec![runway("05", 50), runway("13", 130), runway("31", 310)];
    assert_eq!(airport.select_any_rwy(90, &three), Ok("05".to_string()));
}

#[test]
fn closest_match_takes_a_runway_straight_downwind_if_it_is_the_only_one() {
    let airport = east_west(None, None);
    let single = vec![runway("09", 90)];
    assert_eq!(airport.select_any_rwy(270, &single), Ok("09".to_string()));
}

#[test]
fn closest_match_goes_by_the_list_it_is_given() {
    let airport = east_west(None, None);
    let others = vec![runway("18", 180), runway("36", 0)];
    assert_eq!(airport.select_any_rwy(100, &others), Ok("18".to_string()));
}

#[test]
fn closest_match_without_runways_fails() {
    let airport = east_west(None, None);
    assert_eq!(airport.select_any_rwy(100, &Vec::new()), Err(SelectionError::NoRunwaysDefined));
}

#[test]
fn preferred_list_takes_the_first_runway_within_ninety_degrees() {
    let airport = east_west(None, None);
    assert_eq!(airport.select_preferred_rwy(95, &names(&["27", "09"])), Ok("09".to_string()));
    assert_eq!(airport.select_preferred_rwy(265, &names(&["27", "09"])), Ok("27".to_string()));
}

#[test]
fn preferred_list_puts_priority_before_proximity() {
    let airport = Airport::new(
        "EGXX".to_string(),
        vec![runway("05", 50), runway("09", 90), runway("27", 270)],
        None,
        None,
        None,
        None,
    );
    // 05 lies 50 degrees off, 09 only 10: the list decides.
    assert_eq!(airport.select_preferred_rwy(100, &names(&["05", "09"])), Ok("05".to_string()));
    assert_eq!(airport.select_preferred_rwy(100, &names(&["09", "05"])), Ok("09".to_string()));
    assert_eq!(airport.select_any_rwy(100, &airport.runways), Ok("09".to_string()));
}

#[test]
fn preferred_list_needs_less_than_ninety_degrees() {
    let airport = east_west(None, None);
    assert_eq!(airport.select_preferred_rwy(179, &names(&["09"])), Ok("09".to_string()));
    assert_eq!(
        airport.select_preferred_rwy(180, &names(&["09"])),
        Err(SelectionError::NoSuitableRunway { direction: 180 })
    );
    assert_eq!(airport.select_preferred_rwy(1, &names(&["09"])), Ok("09".to_string()));
    assert_eq!(
        airport.select_preferred_rwy(0, &names(&["09"])),
        Err(SelectionError::NoSuitableRunway { direction: 0 })
    );
}

#[test]
fn preferred_list_without_a_suitable_runway_fails_with_the_direction() {
    let airport = east_west(None, None);
    assert_eq!(
        airport.select_preferred_rwy(200, &names(&["09"])),
        Err(SelectionError::NoSuitableRunway { direction: 200 })
    );
    assert_eq!(
        airport.select_preferred_rwy(200, &Vec::new()),
        Err(SelectionError::NoSuitableRunway { direction: 200 })
    );
}

#[test]
fn preferred_list_with_an_unknown_runway_fails_when_it_comes_to_it() {
    let airport = east_west(None, None);
    let unknown =
        SelectionError::UnknownRunway { icao: "EGXX".to_string(), runway: "18".to_string() };
    assert_eq!(airport.select_preferred_rwy(100, &names(&["18", "09"])), Err(unknown));
    let unknown =
        SelectionError::UnknownRunway { icao: "EGXX".to_string(), runway: "18".to_string() };
    assert_eq!(airport.select_preferred_rwy(100, &names(&["27", "18", "09"])), Err(unknown));
    // A runway that suits ends the search before the unknown one is met.
    assert_eq!(airport.select_preferred_rwy(100, &names(&["09", "18"])), Ok("09".to_string()));
}

#[test]
fn departure_goes_by_its_preferences_where_there_are_any() {
    let preferring = east_west(Some(&["27", "09"]), None);
    assert_eq!(preferring.select_dep_rwy(95), Ok("09".to_string()));
    assert_eq!(preferring.select_dep_rwy(181), Ok("27".to_string()));
    assert_eq!(preferring.select_arr_rwy(181), Ok("27".to_string()));
    let plain = east_west(None, None);
    assert_eq!(plain.select_dep_rwy(95), Ok("09".to_string()));
}

#[test]
fn arrival_goes_by_its_preferences_where_there_are_any() {
    let preferring = east_west(None, Some(&["09"]));
    assert_eq!(preferring.select_arr_rwy(100), Ok("09".to_string()));
    assert_eq!(
        preferring.select_arr_rwy(200),
        Err(SelectionError::NoSuitableRunway { direction: 200 })
    );
    assert_eq!(preferring.select_dep_rwy(200), Ok("27".to_string()));
}

#[test]
fn airport_with_preferred_departures_takes_first_passing_runway() {
    let airport = east_west(Some(&["27", "09"]), None);
    assert_eq!(airport.select_dep_rwy(95), Ok("09".to_string()));
}

#[test]
fn airport_with_one_preferred_departure_off_the_wind_has_no_suitable_runway() {
    let airport = east_west(Some(&["09"]), None);
    assert_eq!(
        airport.select_dep_rwy(200),
        Err(SelectionError::NoSuitableRunway { direction: 200 })
    );
}
