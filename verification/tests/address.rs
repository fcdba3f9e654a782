use openaddresses::address::{
    copy_regions, derive_weight, make_addr_id, make_addr_name, make_label, make_street_id,
    sanitize_char, sanitize_number, Coord, OpenAddresse, Region,
};

fn main_street(number: &str) -> OpenAddresse {
    OpenAddresse {
        id: "1".to_string(),
        street: "Main St".to_string(),
        postcode: "75001".to_string(),
        district: String::new(),
        region: String::new(),
        city: "Paris".to_string(),
        number: number.to_string(),
        unit: String::new(),
        lat: format!("{}", 48.86f64),
        lon: format!("{}", 2.35f64),
    }
}

fn region(id: &str, is_city: bool, weight: f64) -> Region {
    Region { id: id.to_string(), is_city, weight: weight.to_bits() }
}

#[test]
fn address_with_house_number_in_identity() {
    let addr = main_street("12 bis").into_addr(vec![], false);
    assert_eq!(addr.id, "addr:2.35,48.86:12-bis");
    assert_eq!(addr.name, "12 bis Main St");
    assert_eq!(addr.label, "12 bis Main St (Paris)");
    assert_eq!(addr.house_number, "12 bis");
    assert_eq!(addr.zip_codes, vec!["75001".to_string()]);
    assert_eq!(addr.coord, Coord { lon: "2.35".to_string(), lat: "48.86".to_string() });
    assert_eq!(
        addr.approx_coord,
        Some(Coord { lon: "2.35".to_string(), lat: "48.86".to_string() })
    );
    assert_eq!(addr.distance, None);
}

#[test]
fn address_with_legacy_identity() {
    let addr = main_street("12 bis").into_addr(vec![], true);
    assert_eq!(addr.id, "addr:2.35,48.86");
    assert_eq!(addr.approx_coord, None);
    assert_eq!(addr.name, "12 bis Main St");
    assert_eq!(addr.label, "12 bis Main St (Paris)");
}

#[test]
fn street_of_an_address() {
    let admins = vec![region("admin:fr:75056", true, 0.5)];
    let addr = main_street("12").into_addr(copy_regions(&admins), false);
    assert_eq!(addr.street.id, "street:1");
    assert_eq!(addr.street.name, "Main St");
    assert_eq!(addr.street.label, "Main St (Paris)");
    assert_eq!(addr.street.zip_codes, vec!["75001".to_string()]);
    assert_eq!(addr.street.administrative_regions, admins);
    assert_eq!(addr.street.coord, addr.coord);
    assert_eq!(addr.street.approx_coord, None);
    assert_eq!(addr.street.distance, None);
    assert_eq!(f64::from_bits(addr.street.weight), 0.5);
    assert_eq!(addr.weight, addr.street.weight);
}

#[test]
fn weight_skips_regions_that_are_no_city() {
    let admins = vec![region("admin:suburb", false, 3.0), region("admin:city", true, 7.0)];
    assert_eq!(f64::from_bits(derive_weight(&admins)), 7.0);
    let addr = main_street("12").into_addr(admins, false);
    assert_eq!(f64::from_bits(addr.weight), 7.0);
    assert_eq!(f64::from_bits(addr.street.weight), 7.0);
}

#[test]
fn weight_is_that_of_the_first_city_not_the_largest() {
    let admins = vec![
        region("admin:a", false, 9.0),
        region("admin:b", true, 2.0),
        region("admin:c", true, 8.0),
    ];
    assert_eq!(f64::from_bits(derive_weight(&admins)), 2.0);
}

#[test]
fn weight_is_zero_without_city() {
    assert_eq!(derive_weight(&vec![]), 0);
    assert_eq!(f64::from_bits(derive_weight(&vec![])), 0.0);
    let admins = vec![region("admin:a", false, 9.0), region("admin:b", false, 4.0)];
    assert_eq!(derive_weight(&admins), 0);
    let addr = main_street("12").into_addr(admins, true);
    assert_eq!(addr.weight, 0);
    assert_eq!(addr.street.weight, 0);
}

#[test]
fn every_separator_becomes_a_hyphen() {
    for c in [' ', '\t', '\r', '\n', '/', '.', ':', ';'] {
        assert_eq!(sanitize_char(c), '-');
        let number = format!("1{}2", c);
        assert_eq!(sanitize_number(&number), "1-2");
    }
    assert_eq!(sanitize_number(" \t\r\n/.:;"), "--------");
}

#[test]
fn other_characters_are_kept() {
    for c in ['0', '9', 'a', 'Z', '-', ',', '_', '\\', 'é', '№', '\u{a0}'] {
        assert_eq!(sanitize_char(c), c);
    }
    assert_eq!(sanitize_number(""), "");
    assert_eq!(sanitize_number("12bis"), "12bis");
    assert_eq!(sanitize_number("12-bis"), "12-bis");
    assert_eq!(sanitize_number("12 bis ter"), "12-bis-ter");
    assert_eq!(sanitize_number("3é/4"), "3é-4");
}

#[test]
fn identity_is_the_same_on_every_run() {
    let first = main_street("12 bis").into_addr(vec![], false);
    let mut other = main_street("12 bis");
    other.id = "2".to_string();
    other.street = "Other St".to_string();
    let second = other.into_addr(vec![region("admin:city", true, 7.0)], false);
    assert_eq!(first.id, second.id);
    assert_eq!(make_addr_id("2.35", "48.86", "12 bis", false), first.id);
}

#[test]
fn house_numbers_separate_identities() {
    let a = main_street("12").into_addr(vec![], false);
    let b = main_street("14").into_addr(vec![], false);
    assert_ne!(a.id, b.id);
    assert_eq!(a.id, "addr:2.35,48.86:12");
    assert_eq!(b.id, "addr:2.35,48.86:14");
}

#[test]
fn legacy_identities_collide() {
    let a = main_street("12").into_addr(vec![], true);
    let b = main_street("14").into_addr(vec![], true);
    assert_eq!(a.id, b.id);
}

#[test]
fn house_numbers_alike_once_sanitized_share_an_identity() {
    let a = main_street("12 bis").into_addr(vec![], false);
    let b = main_street("12.bis").into_addr(vec![], false);
    assert_eq!(a.id, b.id);
}

#[test]
fn texts_of_a_document() {
    assert_eq!(make_street_id("fr:42"), "street:fr:42");
    assert_eq!(make_label("Main St", "Paris"), "Main St (Paris)");
    assert_eq!(make_label("", ""), " ()");
    assert_eq!(make_addr_name("12 bis", "Main St"), "12 bis Main St");
    assert_eq!(make_addr_id("-0.5", "1e21", "7", true), "addr:-0.5,1e21");
    assert_eq!(make_addr_id("-0.5", "1e21", "7", false), "addr:-0.5,1e21:7");
}

#[test]
fn copies_hold_what_the_original_holds() {
    let record = main_street("12");
    assert_eq!(record.clone(), record);
    let admins = vec![region("admin:a", false, 9.0), region("admin:b", true, 2.0)];
    assert_eq!(copy_regions(&admins), admins);
    assert_eq!(admins[1].clone(), admins[1]);
}
