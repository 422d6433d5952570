use usb_details::parse::{chars_of, parse_detail, parse_report, BLOCK_LINES};
use usb_details::record::{USBDetail, USBList};

fn acme() -> USBDetail {
    USBDetail {
        manufacturer: String::from("Acme"),
        product: String::from("Widget"),
        serial_number: String::from("SN001"),
        bus_number: 1,
        device_address: 2,
        vendor_id: 0x1234,
        product_id: 0x0001,
        maj_device_version: 1,
        min_device_version: 3,
    }
}

fn block_with(line: usize, replacement: &str) -> String {
    let block = acme().to_string();
    let mut lines: Vec<String> = block.split('\n').map(String::from).collect();
    lines[line] = String::from(replacement);
    lines.join("\n")
}

#[test]
fn a_block_is_read_back_field_for_field() {
    assert_eq!(parse_detail(&acme().to_string()), Some(acme()));
    assert_eq!(
        parse_detail("\nUSB Device detail\nManufacturer: Acme\nProduct: Widget\nSerial number: SN001\nBus number: 1\nDevice address: 2\nVendor id: 4660\nProduct ID: 1\nMajor device version: 1\nMinor device version: 3\n"),
        Some(acme())
    );
}

#[test]
fn extreme_records_are_read_back() {
    let largest = USBDetail {
        manufacturer: String::from("Manufacturer: Product: "),
        product: String::from("  spaces and\ttabs  "),
        serial_number: String::from("Ünïcødé ✓ 日本語"),
        bus_number: 255,
        device_address: 255,
        vendor_id: 65535,
        product_id: 65535,
        maj_device_version: 255,
        min_device_version: 255,
    };
    assert_eq!(parse_detail(&largest.to_string()), Some(largest));
    let smallest = USBDetail {
        manufacturer: String::new(),
        product: String::new(),
        serial_number: String::new(),
        bus_number: 0,
        device_address: 0,
        vendor_id: 0,
        product_id: 0,
        maj_device_version: 0,
        min_device_version: 0,
    };
    assert_eq!(parse_detail(&smallest.to_string()), Some(smallest));
}

#[test]
fn a_text_with_a_line_feed_is_not_read_back() {
    let mut detail = acme();
    detail.manufacturer = String::from("Ac\nme");
    assert_ne!(parse_detail(&detail.to_string()), Some(detail));
    let mut detail = acme();
    detail.serial_number = String::from("SN001\n");
    assert_ne!(parse_detail(&detail.to_string()), Some(detail));
    let mut list = USBList::new();
    let mut detail = acme();
    detail.product = String::from("Widget\nSerial number: forged");
    list.push(detail);
    let read = parse_report(&list.to_string());
    assert_ne!(read, Some(list));
}

#[test]
fn a_report_is_read_back_record_for_record() {
    for n in 0..5u8 {
        let mut list = USBList::new();
        for i in 0..n {
            let mut detail = acme();
            detail.product = format!("Widget {}", i);
            detail.device_address = i;
            detail.vendor_id = 65535 - i as u16;
            list.push(detail);
        }
        assert_eq!(parse_report(&list.to_string()), Some(list));
    }
}

#[test]
fn the_empty_text_is_the_report_of_no_device() {
    assert_eq!(parse_report(""), Some(USBList::new()));
    assert_eq!(parse_detail(""), None);
}

#[test]
fn the_trailing_line_feed_of_the_file_is_no_part_of_the_report() {
    let mut list = USBList::new();
    list.push(acme());
    assert_eq!(parse_report(&list.to_file_text()), None);
    let file = list.to_file_text();
    assert_eq!(parse_report(&file[..file.len() - 1]), Some(list));
}

#[test]
fn a_block_must_stand_alone() {
    let block = acme().to_string();
    assert_eq!(parse_detail(&format!("{}{}", block, block)), None);
    assert_eq!(parse_detail(&format!("{}x", block)), None);
    assert_eq!(parse_detail(&format!(" {}", block)), None);
    assert_eq!(parse_detail(&block[..block.len() - 1]), None);
    assert_eq!(parse_detail(&block[1..]), None);
}

#[test]
fn every_line_must_be_as_the_format_has_it() {
    assert_eq!(parse_detail(&block_with(1, "USB Device detail")), Some(acme()));
    assert_eq!(parse_detail(&block_with(0, " ")), None);
    assert_eq!(parse_detail(&block_with(1, "USB Device details")), None);
    assert_eq!(parse_detail(&block_with(1, "USB Device detai")), None);
    assert_eq!(parse_detail(&block_with(1, "")), None);
    assert_eq!(parse_detail(&block_with(2, "Manufacturer:Acme")), None);
    assert_eq!(parse_detail(&block_with(2, "manufacturer: Acme")), None);
    assert_eq!(parse_detail(&block_with(3, "Produkt: Widget")), None);
    assert_eq!(parse_detail(&block_with(4, "Serial number:")), None);
    assert_eq!(parse_detail(&block_with(7, "Vendor ID: 4660")), None);
    assert_eq!(parse_detail(&block_with(8, "Product id: 1")), None);
}

#[test]
fn numbers_must_be_numerals_within_range() {
    assert_eq!(parse_detail(&block_with(5, "Bus number: 255")).map(|d| d.bus_number), Some(255));
    assert_eq!(parse_detail(&block_with(5, "Bus number: 256")), None);
    assert_eq!(parse_detail(&block_with(5, "Bus number: 01")), None);
    assert_eq!(parse_detail(&block_with(5, "Bus number: ")), None);
    assert_eq!(parse_detail(&block_with(5, "Bus number: 1 ")), None);
    assert_eq!(parse_detail(&block_with(6, "Device address: -2")), None);
    assert_eq!(parse_detail(&block_with(6, "Device address: 300")), None);
    assert_eq!(parse_detail(&block_with(7, "Vendor id: 65535")).map(|d| d.vendor_id), Some(65535));
    assert_eq!(parse_detail(&block_with(7, "Vendor id: 65536")), None);
    assert_eq!(parse_detail(&block_with(7, "Vendor id: 0x1234")), None);
    assert_eq!(parse_detail(&block_with(8, "Product ID: 1.0")), None);
    assert_eq!(parse_detail(&block_with(9, "Major device version: 256")), None);
    assert_eq!(parse_detail(&block_with(10, "Minor device version: 3x")), None);
}

#[test]
fn a_broken_block_spoils_the_whole_report() {
    let good = acme().to_string();
    let bad = block_with(5, "Bus number: 999");
    assert_eq!(parse_report(&format!("{}{}", good, bad)), None);
    assert_eq!(parse_report(&format!("{}{}", bad, good)), None);
    assert_eq!(parse_report(&format!("{}\n", good)), None);
    assert_eq!(parse_report("\n"), None);
}

#[test]
fn a_block_has_eleven_lines() {
    assert_eq!(BLOCK_LINES, 11);
    assert_eq!(acme().to_string().matches('\n').count(), BLOCK_LINES);
}

#[test]
fn a_text_is_taken_apart_into_its_characters() {
    assert_eq!(chars_of(""), Vec::<char>::new());
    assert_eq!(chars_of("a\né✓"), vec!['a', '\n', 'é', '✓']);
}
