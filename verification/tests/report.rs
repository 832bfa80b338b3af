use runway_selector::airport::Airport;
use runway_selector::error::SelectionError;
use runway_selector::geometry::Runway;
use runway_selector::report::{has_open_variation, read_wind};
use runway_selector::text::text_chars;
use runway_selector::wind::{WindDirection, WindObservation, WindSpeed};

fn airport(use_metar_from: Option<&str>) -> Airport {
    Airport::new(
        "EGHI".to_string(),
        vec![Runway::new("02".to_string(), 20), Runway::new("20".to_string(), 200)],
        use_metar_from.map(|s| s.to_string()),
        None,
        None,
        None,
    )
}

fn pair(dep: &str, arr: &str) -> Result<(String, String), SelectionError> {
    Ok((dep.to_string(), arr.to_string()))
}

#[test]
fn wind_is_read_from_a_report() {
    assert_eq!(
        read_wind("EGHI 282120Z 19015KT 140V220 6000 RA SCT006 BKN009 16/14 Q1006"),
        Ok(WindObservation {
            direction: WindDirection::Heading(190),
            speed: WindSpeed::Knot(15)
        })
    );
    assert_eq!(
        read_wind("EGHI 282120Z 36007KT 9999 FEW030 16/14 Q1006"),
        Ok(WindObservation { direction: WindDirection::Heading(360), speed: WindSpeed::Knot(7) })
    );
}

#[test]
fn wind_is_read_in_the_unit_of_the_report() {
    assert_eq!(
        read_wind("UUEE 282120Z 24005MPS 9999 SCT030 16/14 Q1006"),
        Ok(WindObservation {
            direction: WindDirection::Heading(240),
            speed: WindSpeed::MetresPerSecond(5)
        })
    );
    assert_eq!(
        read_wind("EGHI 282120Z 24011KPH 9999 SCT030 16/14 Q1006"),
        Ok(WindObservation {
            direction: WindDirection::Heading(240),
            speed: WindSpeed::KilometresPerHour(11)
        })
    );
}

#[test]
fn variable_wind_is_read_as_variable() {
    assert_eq!(
        read_wind("EGHI 282120Z VRB03KT 9999 SCT030 16/14 Q1006"),
        Ok(WindObservation { direction: WindDirection::Variable, speed: WindSpeed::Knot(3) })
    );
}

#[test]
fn report_that_does_not_parse_cannot_be_decoded() {
    assert_eq!(read_wind(""), Err(SelectionError::WeatherDecode));
    assert_eq!(read_wind("no weather today"), Err(SelectionError::WeatherDecode));
    assert_eq!(read_wind("EGHI 282120Z 19015KT what"), Err(SelectionError::WeatherDecode));
}

#[test]
fn report_without_wind_cannot_be_decoded() {
    assert_eq!(
        read_wind("EGHI 282120Z 9999 SCT030 16/14 Q1006"),
        Err(SelectionError::WeatherDecode)
    );
    assert_eq!(
        read_wind("EGHI 282120Z ///05KT 9999 SCT030 16/14 Q1006"),
        Err(SelectionError::WeatherDecode)
    );
    assert_eq!(
        read_wind("EGHI 282120Z 190//KT 9999 SCT030 16/14 Q1006"),
        Err(SelectionError::WeatherDecode)
    );
    assert_eq!(
        read_wind("EGHI 282120Z CALM 9999 SCT030 16/14 Q1006"),
        Err(SelectionError::WeatherDecode)
    );
}

#[test]
fn variation_without_a_number_cannot_be_decoded() {
    assert_eq!(
        read_wind("EGHI 282120Z 19015KT VRBV220 9999 SCT030 16/14 Q1006"),
        Err(SelectionError::WeatherDecode)
    );
    assert_eq!(
        read_wind("EGHI 282120Z 19015KT 140V/// 9999 SCT030 16/14 Q1006"),
        Err(SelectionError::WeatherDecode)
    );
    assert_eq!(read_wind("EGHI 282120Z ///V///"), Err(SelectionError::WeatherDecode));
}

#[test]
fn open_variation_is_found_wherever_it_stands() {
    assert!(has_open_variation("VRBV220"));
    assert!(has_open_variation("140VVRB"));
    assert!(has_open_variation("///V///"));
    assert!(has_open_variation("369V///"));
    assert!(has_open_variation("EGHI 282120Z 19015KT ///V090 9999"));
    assert!(has_open_variation("xxVRBVVRB"));
}

#[test]
fn numbered_variation_and_other_groups_are_not_open() {
    assert!(!has_open_variation(""));
    assert!(!has_open_variation("VRBV22"));
    assert!(!has_open_variation("140V220"));
    assert!(!has_open_variation("EGHI 282120Z 19015KT 140V220 6000 RA SCT006 BKN009 16/14 Q1006"));
    assert!(!has_open_variation("EGHI 282120Z VRB03KT 0200 FG VV/// 16/14 Q1006"));
    assert!(!has_open_variation("370V///"));
    assert!(!has_open_variation("VRBX220"));
    assert!(!has_open_variation("VRBV2A0"));
    assert!(!has_open_variation("VRBV400"));
}

#[test]
fn unknown_vertical_visibility_does_not_stop_the_reading() {
    assert_eq!(
        read_wind("EGHI 282120Z 19015KT 0200 FG VV/// 16/14 Q1006"),
        Ok(WindObservation {
            direction: WindDirection::Heading(190),
            speed: WindSpeed::Knot(15)
        })
    );
}

#[test]
fn characters_come_out_one_by_one() {
    assert_eq!(text_chars("a/1"), vec!['a', '/', '1']);
    assert_eq!(text_chars(""), Vec::<char>::new());
    assert_eq!(text_chars("19\u{e9}"), vec!['1', '9', '\u{e9}']);
}

#[test]
fn runways_are_selected_from_a_report() {
    let report = "EGHI 282120Z 19015KT 140V220 6000 RA SCT006 BKN009 16/14 Q1006";
    assert_eq!(airport(None).select_rwy(report, None, None, None), pair("20", "20"));
    let report = "EGHI 282120Z 01015KT 9999 SCT030 16/14 Q1006";
    assert_eq!(airport(None).select_rwy(report, None, None, None), pair("02", "02"));
}

#[test]
fn light_wind_in_a_report_selects_by_the_assumed_direction() {
    let report = "EGHI 282120Z 19003KT 9999 SCT030 16/14 Q1006";
    assert_eq!(airport(None).select_rwy(report, Some(5), None, Some(30)), pair("02", "02"));
    assert_eq!(airport(None).select_rwy(report, Some(3), None, Some(30)), pair("20", "20"));
}

#[test]
fn metric_wind_in_a_report_is_converted_before_it_is_compared() {
    let report = "UUEE 282120Z 19003MPS 9999 SCT030 16/14 Q1006";
    assert_eq!(airport(None).select_rwy(report, Some(6), None, Some(30)), pair("20", "20"));
    assert_eq!(airport(None).select_rwy(report, Some(7), None, Some(30)), pair("02", "02"));
}

#[test]
fn undecodable_report_selects_nothing() {
    assert_eq!(
        airport(None).select_rwy("EGHI 282120Z", None, None, None),
        Err(SelectionError::WeatherDecode)
    );
    assert_eq!(
        airport(None).select_rwy("garbage", None, None, None),
        Err(SelectionError::WeatherDecode)
    );
}

#[test]
fn station_is_the_airport_unless_another_is_named() {
    assert_eq!(airport(None).metar_station(), "EGHI");
    assert_eq!(airport(Some("EGLL")).metar_station(), "EGLL");
}

#[test]
fn report_address_ends_in_the_station() {
    assert_eq!(airport(None).metar_url(), "https://metar.vatsim.net/metar.php?id=EGHI");
    assert_eq!(airport(Some("EGLL")).metar_url(), "https://metar.vatsim.net/metar.php?id=EGLL");
}
