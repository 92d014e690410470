use rgbpc::listing::{
    devices_from_listing, header_from_captures, listing_outcome, refresh_device_ids,
    type_from_captures,
};
use rgbpc::openrgb::OpenRgbDevice;

fn device(id: u32, name: &str, device_type: &str) -> OpenRgbDevice {
    OpenRgbDevice { id, name: name.to_string(), device_type: device_type.to_string() }
}

fn pairs(devices: &[OpenRgbDevice]) -> Vec<(u32, String, String)> {
    devices.iter().map(|d| (d.id, d.name.clone(), d.device_type.clone())).collect()
}

const LISTING: &str = "0: MSI MAG B650 TOMAHAWK  \n  Type:           Motherboard\n  Description:    MSI Mystic Light\n\n1: Logitech G502\n  Type: Mouse\n  Location: HID\n2:    Keyboard Strip\n";

#[test]
fn listing_reads_headers_and_types() {
    let devices = devices_from_listing(LISTING);
    assert_eq!(
        pairs(&devices),
        vec![
            (0, "MSI MAG B650 TOMAHAWK".to_string(), "Motherboard".to_string()),
            (1, "Logitech G502".to_string(), "Mouse".to_string()),
            (2, "Keyboard Strip".to_string(), String::new()),
        ]
    );
}

#[test]
fn type_lines_before_any_header_and_oversized_ids_are_tolerated() {
    let devices = devices_from_listing("  Type: Stray\n99999999999: Big\r\n  Type: LED Strip\r\n");
    assert_eq!(pairs(&devices), vec![(0, "Big".to_string(), "LED Strip".to_string())]);
    assert!(devices_from_listing("").is_empty());
}

#[test]
fn failed_listing_reports_stderr() {
    assert_eq!(listing_outcome(false, "", "  \n").unwrap_err(), "openrgb --list-devices failed");
    assert_eq!(
        listing_outcome(false, "", " no server \n").unwrap_err(),
        "openrgb --list-devices failed: no server"
    );
    assert_eq!(listing_outcome(true, LISTING, "ignored").unwrap().len(), 3);
}

#[test]
fn refresh_takes_ids_from_the_newer_listing_by_key() {
    let mut devices = vec![device(7, "logitech g502 ", "MOUSE"), device(3, "Fan", "Cooler")];
    let latest = vec![device(1, "Logitech G502", "Mouse"), device(1, "Logitech G502", "Mouse 2")];
    assert!(refresh_device_ids(&mut devices, Ok(latest)).is_ok());
    assert_eq!(
        pairs(&devices),
        vec![
            (1, "Logitech G502".to_string(), "Mouse".to_string()),
            (3, "Fan".to_string(), "Cooler".to_string()),
        ]
    );
    let before = pairs(&devices);
    assert_eq!(refresh_device_ids(&mut devices, Err("gone".to_string())), Err("gone".to_string()));
    assert_eq!(pairs(&devices), before);
}

#[test]
fn captured_groups_give_the_header_and_the_type() {
    let header = vec![Some("7:  Fan Hub ".to_string()), Some("7".to_string()), Some(" Fan Hub ".to_string())];
    assert_eq!(header_from_captures(&header), (7, "Fan Hub".to_string()));
    let big = vec![Some("x".to_string()), Some("4294967296".to_string()), None];
    assert_eq!(header_from_captures(&big), (0, String::new()));
    let ty = vec![Some("  Type: Cooler ".to_string()), Some("Cooler \t".to_string())];
    assert_eq!(type_from_captures(&ty), "Cooler");
    assert_eq!(type_from_captures(&vec![Some("x".to_string())]), "");
}
