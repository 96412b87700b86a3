use pokeys_lib::device::{find_str, pokeys_usb_devices, pokeys_usb_devices_in_profiler_output, trim};

fn lines(text: &str) -> Vec<String> {
    text.lines().map(|l| l.to_string()).collect()
}

const LISTING: &str = "<dict>
    <key>_name</key>
    <string>Keyboard</string>
    <key>vendor_id</key>
    <integer>1452</integer>
    <key>product_id</key>
    <integer>600</integer>
</dict>
<dict>
    <key>_name</key>
    <key>vendor_id</key>
    <integer>7619</integer>
    <key>location_id</key>
    <string>0x14100000 / 3</string>
    <key>product_id</key>
    <integer>4113</integer>
    <key>serial_num</key>
    <string>31415</string>
</dict>
";

#[test]
fn test_usb_listing_finds_pokeys() {
    let devices = pokeys_usb_devices(&lines(LISTING)).unwrap();
    assert_eq!(devices.len(), 1);
    assert_eq!(devices[0].vendor_id, 0x1DC3);
    assert_eq!(devices[0].product_id, 4113);
    assert_eq!(devices[0].serial_number, Some("31415".to_string()));
    assert_eq!(devices[0].path, "macos_usb_0x14100000 / 3");
}

#[test]
fn test_usb_listing_hex_vendor_and_missing_fields() {
    let text = "<key>vendor_id</key>\n<string>0x1dc3</string>\n<key>_name</key>\n";
    let devices = pokeys_usb_devices(&lines(text)).unwrap();
    assert_eq!(devices.len(), 1);
    assert_eq!(devices[0].product_id, 0);
    assert_eq!(devices[0].serial_number, None);
    assert_eq!(devices[0].path, "macos_usb_");
}

#[test]
fn test_usb_listing_stops_at_next_vendor() {
    let text = "<key>vendor_id</key>\n<integer>7619</integer>\n<key>product_id</key>\n<integer>1</integer>\n\
<key>vendor_id</key>\n<integer>7619</integer>\n<key>product_id</key>\n<integer>2</integer>\n";
    let devices = pokeys_usb_devices(&lines(text)).unwrap();
    assert_eq!(devices.len(), 2);
    assert_eq!(devices[0].product_id, 1);
    assert_eq!(devices[1].product_id, 2);
}

#[test]
fn test_usb_listing_product_id_out_of_range_is_ignored() {
    let text = "<key>vendor_id</key>\n<integer>7619</integer>\n<key>product_id</key>\n<integer>70000</integer>\n";
    let devices = pokeys_usb_devices(&lines(text)).unwrap();
    assert_eq!(devices[0].product_id, 0);
}

#[test]
fn test_usb_listing_value_that_cannot_be_cut() {
    let text = "<key>vendor_id</key>\n<integer>7619</integer>\n<key>serial_num</key>\n</string>x<string>\n";
    assert!(pokeys_usb_devices(&lines(text)).is_none());
}

#[test]
fn test_usb_listing_from_profiler_bytes() {
    let devices = pokeys_usb_devices_in_profiler_output(LISTING.as_bytes()).unwrap();
    assert_eq!(devices.len(), 1);
    assert_eq!(devices[0].serial_number, Some("31415".to_string()));
    assert!(pokeys_usb_devices_in_profiler_output(b"").unwrap().is_empty());
}

#[test]
fn test_trim_and_find() {
    assert_eq!(trim("  \t<key>a</key>\r\n"), "<key>a</key>");
    assert_eq!(trim("\u{3000}x\u{a0}"), "x");
    assert_eq!(trim("   "), "");
    assert_eq!(find_str("ab<integer>1", "<integer>"), Some(2));
    assert_eq!(find_str("abc", "x"), None);
    assert_eq!(find_str("abc", ""), Some(0));
}
