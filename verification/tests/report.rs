use usb_details::record::{USBDetail, USBList};
use usb_details::report::{append_block, REPORT_FILE_NAME};

fn acme() -> USBDetail {
    USBDetail {
        manufacturer: String::from("Acme"),
        product: String::from("Widget"),
        serial_number: String::from("SN001"),
        bus_number: 1,
        device_address: 2,
        vendor_id: 0x1234,
        product_id: 0x0001,
        maj_device_version: 1,
        min_device_version: 3,
    }
}

fn numbered(n: u8) -> USBDetail {
    USBDetail {
        manufacturer: format!("Maker {}", n),
        product: format!("Product {}", n),
        serial_number: format!("S{}", n),
        bus_number: n,
        device_address: n,
        vendor_id: 1000 + n as u16,
        product_id: 2000 + n as u16,
        maj_device_version: n,
        min_device_version: n,
    }
}

const ACME_BLOCK: &str = "\nUSB Device detail\nManufacturer: Acme\nProduct: Widget\nSerial number: SN001\nBus number: 1\nDevice address: 2\nVendor id: 4660\nProduct ID: 1\nMajor device version: 1\nMinor device version: 3\n";

#[test]
fn a_record_renders_as_its_fixed_block() {
    assert_eq!(acme().to_string(), ACME_BLOCK);
}

#[test]
fn a_block_has_eleven_lines_and_opens_with_an_empty_one() {
    let block = acme().to_string();
    let lines: Vec<&str> = block.split('\n').collect();
    assert_eq!(lines.len(), 12);
    assert_eq!(lines[0], "");
    assert_eq!(lines[1], "USB Device detail");
    assert_eq!(lines[11], "");
}

#[test]
fn the_largest_numbers_render_in_full() {
    let detail = USBDetail {
        manufacturer: String::new(),
        product: String::new(),
        serial_number: String::new(),
        bus_number: 255,
        device_address: 255,
        vendor_id: 65535,
        product_id: 65535,
        maj_device_version: 255,
        min_device_version: 255,
    };
    assert_eq!(
        detail.to_string(),
        "\nUSB Device detail\nManufacturer: \nProduct: \nSerial number: \nBus number: 255\nDevice address: 255\nVendor id: 65535\nProduct ID: 65535\nMajor device version: 255\nMinor device version: 255\n"
    );
}

#[test]
fn zeros_render_as_a_single_digit() {
    let detail = USBDetail {
        manufacturer: String::from("m"),
        product: String::from("p"),
        serial_number: String::from("s"),
        bus_number: 0,
        device_address: 0,
        vendor_id: 0,
        product_id: 0,
        maj_device_version: 0,
        min_device_version: 0,
    };
    assert_eq!(
        detail.to_string(),
        "\nUSB Device detail\nManufacturer: m\nProduct: p\nSerial number: s\nBus number: 0\nDevice address: 0\nVendor id: 0\nProduct ID: 0\nMajor device version: 0\nMinor device version: 0\n"
    );
}

#[test]
fn texts_are_copied_without_escaping() {
    let mut detail = acme();
    detail.manufacturer = String::from("Ac\tme\u{7}\r \"quoted\" \\ é");
    detail.product = String::from("two\nlines");
    let block = detail.to_string();
    assert!(block.contains("Manufacturer: Ac\tme\u{7}\r \"quoted\" \\ é\n"));
    assert!(block.contains("Product: two\nlines\n"));
}

#[test]
fn the_empty_list_renders_as_nothing() {
    let list = USBList::new();
    assert_eq!(list.len(), 0);
    assert_eq!(list.to_string(), "");
    assert_eq!(list.to_file_text(), "\n");
}

#[test]
fn a_list_renders_one_block_per_record_in_order() {
    for n in 0..6u8 {
        let mut list = USBList::new();
        let mut expected = String::new();
        for i in 0..n {
            list.push(numbered(i));
            expected.push_str(&numbered(i).to_string());
        }
        assert_eq!(list.len(), n as usize);
        let report = list.to_string();
        assert_eq!(report, expected);
        assert_eq!(report.matches("\nUSB Device detail\n").count(), n as usize);
        assert_eq!(report.matches("\n\n").count(), (n as usize).saturating_sub(1));
        let mut from = 0;
        for i in 0..n {
            let at = report[from..].find(&format!("Manufacturer: Maker {}\n", i));
            assert!(at.is_some());
            from += at.unwrap();
        }
    }
}

#[test]
fn the_file_holds_the_report_and_one_more_line_feed() {
    let mut list = USBList::new();
    list.push(acme());
    list.push(numbered(7));
    assert_eq!(list.to_file_text(), format!("{}\n", list.to_string()));
    assert_eq!(list.to_file_text(), format!("{}{}\n", ACME_BLOCK, numbered(7).to_string()));
}

#[test]
fn pushing_keeps_the_records_that_were_there() {
    let mut list = USBList::new();
    list.push(acme());
    list.push(numbered(3));
    list.push(acme());
    assert_eq!(list.list, vec![acme(), numbered(3), acme()]);
}

#[test]
fn append_block_adds_to_what_was_written() {
    let mut out = String::from("USB list: ");
    append_block(&mut out, &acme());
    assert_eq!(out, format!("USB list: {}", ACME_BLOCK));
}

#[test]
fn the_report_file_has_a_fixed_name() {
    assert_eq!(REPORT_FILE_NAME, "usb_details.txt");
}
