use userstyles::request::{check_status, css_url, decimal_string, form_fields, style_url};
use userstyles::settings_map::SettingsMap;

#[test]
fn status_200_is_accepted() {
    assert_eq!(check_status(200), Ok(()));
}

#[test]
fn other_status_reports_expected_and_actual() {
    assert_eq!(
        check_status(410),
        Err(String::from(
            "Error during API request. Expected status '200' but got '410'"
        ))
    );
    assert_eq!(
        check_status(0),
        Err(String::from(
            "Error during API request. Expected status '200' but got '0'"
        ))
    );
}

#[test]
fn decimal_of_numbers() {
    assert_eq!(decimal_string(0), "0");
    assert_eq!(decimal_string(7), "7");
    assert_eq!(decimal_string(10), "10");
    assert_eq!(decimal_string(999999), "999999");
    assert_eq!(decimal_string(u32::MAX), "4294967295");
}

#[test]
fn style_url_of_id() {
    assert_eq!(style_url(37035), "https://userstyles.org/api/v1/styles/37035");
}

#[test]
fn css_url_of_id() {
    assert_eq!(css_url(146771), "https://userstyles.org/styles/146771.css");
}

#[test]
fn form_fields_are_prefixed() {
    let mut map = SettingsMap::new();
    map.insert(String::from("ACCENTCOLOR"), String::from("#ff00ff"));
    map.insert(String::from("font"), String::from("serif"));
    let fields = form_fields(&map);
    assert_eq!(
        fields,
        vec![
            (String::from("ik-ACCENTCOLOR"), String::from("ik-#ff00ff")),
            (String::from("ik-font"), String::from("ik-serif")),
        ]
    );
}

#[test]
fn form_fields_of_empty_map() {
    assert!(form_fields(&SettingsMap::new()).is_empty());
}
