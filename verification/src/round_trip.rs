//! What is written can be read back: the report format loses nothing, as long
//! as no text holds a line feed.

use vstd::prelude::*;
use crate::decimal::{decimal, digit_value, lemma_decimal_shape, lemma_numeral_of_decimal};
use crate::parse::{
    block_of_lines,
    field_value,
    is_single_line,
    lemma_line_len,
    lemma_line_len_found,
    parsed_block,
    parsed_detail,
    parsed_report,
    take_line,
    take_lines,
};
use crate::record::USBDetailView;
use crate::report::{
    block_header,
    block_lines,
    block_text,
    bus_number_label,
    device_address_label,
    join_lines,
    lemma_report_text_concat,
    lemma_report_text_single,
    major_version_label,
    manufacturer_label,
    minor_version_label,
    product_id_label,
    product_label,
    report_text,
    serial_number_label,
    vendor_id_label,
};

verus! {

/// None of the record's three texts holds a line feed.
pub open spec fn has_single_line_texts(detail: USBDetailView) -> bool {
    &&& is_single_line(detail.manufacturer)
    &&& is_single_line(detail.product)
    &&& is_single_line(detail.serial_number)
}

/// No record of the list has a text that holds a line feed.
pub open spec fn all_single_line_texts(list: Seq<USBDetailView>) -> bool {
    forall|i: int| 0 <= i < list.len() ==> has_single_line_texts(#[trigger] list[i])
}

/// None of the lines holds a line feed.
pub open spec fn all_single_line(lines: Seq<Seq<char>>) -> bool {
    forall|j: int| 0 <= j < lines.len() ==> is_single_line(#[trigger] lines[j])
}

/// A line that is written with its line feed is the line that is split off.
proof fn lemma_take_line_written(line: Seq<char>, rest: Seq<char>)
    requires
        is_single_line(line),
    ensures
        take_line(line + seq!['\n'] + rest) == Some((line, rest)),
{
    let text = line + seq!['\n'] + rest;
    let k = line.len() as int;
    assert(text.take(k) =~= line);
    lemma_line_len(text, k);
    assert(text.skip(k + 1) =~= rest);
}

/// Lines that are written one after another are the lines that are split off.
proof fn lemma_take_lines_written(lines: Seq<Seq<char>>, tail: Seq<char>)
    requires
        all_single_line(lines),
    ensures
        take_lines(join_lines(lines) + tail, lines.len()) == Some((lines, tail)),
    decreases lines.len(),
{
    if lines.len() == 0 {
        assert(join_lines(lines) + tail =~= tail);
        assert(lines =~= Seq::<Seq<char>>::empty());
    } else {
        let init = lines.drop_last();
        let last = lines.last();
        let rest = last + seq!['\n'] + tail;
        assert(join_lines(lines) + tail =~= join_lines(init) + rest);
        lemma_take_lines_written(init, rest);
        lemma_take_line_written(last, tail);
        assert(init.push(last) =~= lines);
    }
}

/// The lines that are split off hold no line feed, there are as many as were
/// asked for, and each took at least its line feed from the text.
proof fn lemma_take_lines_found(text: Seq<char>, count: nat)
    requires
        take_lines(text, count) is Some,
    ensures
        take_lines(text, count) matches Some((lines, rest)) && all_single_line(lines)
            && lines.len() == count && rest.len() + count <= text.len(),
    decreases count,
{
    if count > 0 {
        let before = take_lines(text, (count - 1) as nat);
        lemma_take_lines_found(text, (count - 1) as nat);
        let (lines, rest) = before->0;
        lemma_line_len_found(rest);
        let (line, tail) = take_line(rest)->0;
        assert forall|j: int| 0 <= j < lines.push(line).len() implies is_single_line(
            #[trigger] lines.push(line)[j],
        ) by {
            if j < lines.len() {
                assert(lines.push(line)[j] == lines[j]);
            }
        }
    }
}

/// A label followed by a value is a field line with that value.
proof fn lemma_field_written(label: Seq<char>, value: Seq<char>)
    ensures
        field_value(label + value, label) == Some(value),
{
    let line = label + value;
    assert(line.take(label.len() as int) =~= label);
    assert(line.skip(label.len() as int) =~= value);
}

/// A label followed by a numeral is a field line with that number.
proof fn lemma_number_written(label: Seq<char>, n: nat, max: nat)
    requires
        n <= max,
    ensures
        crate::parse::number_value(label + decimal(n), label, max) == Some(n),
{
    lemma_field_written(label, decimal(n));
    lemma_numeral_of_decimal(n);
}

/// Two texts without a line feed make one without a line feed.
proof fn lemma_single_line_concat(first: Seq<char>, second: Seq<char>)
    requires
        is_single_line(first),
        is_single_line(second),
    ensures
        is_single_line(first + second),
{
    let both = first + second;
    assert forall|i: int| 0 <= i < both.len() implies both[i] != '\n' by {
        if i < first.len() {
            assert(both[i] == first[i]);
        } else {
            assert(both[i] == second[i - first.len()]);
        }
    }
}

/// A numeral holds no line feed.
proof fn lemma_decimal_single_line(n: nat)
    ensures
        is_single_line(decimal(n)),
{
    lemma_decimal_shape(n);
    assert forall|i: int| 0 <= i < decimal(n).len() implies decimal(n)[i] != '\n' by {
        assert(digit_value(decimal(n)[i]) is Some);
    }
}

/// Neither the header nor any label holds a line feed.
proof fn lemma_labels_single_line()
    ensures
        is_single_line(block_header()),
        is_single_line(manufacturer_label()),
        is_single_line(product_label()),
        is_single_line(serial_number_label()),
        is_single_line(bus_number_label()),
        is_single_line(device_address_label()),
        is_single_line(vendor_id_label()),
        is_single_line(product_id_label()),
        is_single_line(major_version_label()),
        is_single_line(minor_version_label()),
{
    reveal_strlit("USB Device detail");
    reveal_strlit("Manufacturer: ");
    reveal_strlit("Product: ");
    reveal_strlit("Serial number: ");
    reveal_strlit("Bus number: ");
    reveal_strlit("Device address: ");
    reveal_strlit("Vendor id: ");
    reveal_strlit("Product ID: ");
    reveal_strlit("Major device version: ");
    reveal_strlit("Minor device version: ");
}

/// The lines of a block hold no line feed if the record's texts hold none.
proof fn lemma_block_lines_single_line(detail: USBDetailView)
    requires
        has_single_line_texts(detail),
    ensures
        all_single_line(block_lines(detail)),
{
    let lines = block_lines(detail);
    lemma_labels_single_line();
    lemma_single_line_concat(manufacturer_label(), detail.manufacturer);
    lemma_single_line_concat(product_label(), detail.product);
    lemma_single_line_concat(serial_number_label(), detail.serial_number);
    lemma_decimal_single_line(detail.bus_number as nat);
    lemma_single_line_concat(bus_number_label(), decimal(detail.bus_number as nat));
    lemma_decimal_single_line(detail.device_address as nat);
    lemma_single_line_concat(device_address_label(), decimal(detail.device_address as nat));
    lemma_decimal_single_line(detail.vendor_id as nat);
    lemma_single_line_concat(vendor_id_label(), decimal(detail.vendor_id as nat));
    lemma_decimal_single_line(detail.product_id as nat);
    lemma_single_line_concat(product_id_label(), decimal(detail.product_id as nat));
    lemma_decimal_single_line(detail.maj_device_version as nat);
    lemma_single_line_concat(major_version_label(), decimal(detail.maj_device_version as nat));
    lemma_decimal_single_line(detail.min_device_version as nat);
    lemma_single_line_concat(minor_version_label(), decimal(detail.min_device_version as nat));
    assert forall|j: int| 0 <= j < lines.len() implies is_single_line(#[trigger] lines[j]) by {
        if j == 0 {
        } else if j == 1 {
        } else if j == 2 {
        } else if j == 3 {
        } else if j == 4 {
        } else if j == 5 {
        } else if j == 6 {
        } else if j == 7 {
        } else if j == 8 {
        } else if j == 9 {
        } else {
        }
    }
}

/// The lines of a record's block spell out that record, whatever its texts
/// hold.
pub proof fn lemma_block_lines_read(detail: USBDetailView)
    ensures
        block_of_lines(block_lines(detail)) == Some(detail),
{
    lemma_field_written(manufacturer_label(), detail.manufacturer);
    lemma_field_written(product_label(), detail.product);
    lemma_field_written(serial_number_label(), detail.serial_number);
    lemma_number_written(bus_number_label(), detail.bus_number as nat, 0xff);
    lemma_number_written(device_address_label(), detail.device_address as nat, 0xff);
    lemma_number_written(vendor_id_label(), detail.vendor_id as nat, 0xffff);
    lemma_number_written(product_id_label(), detail.product_id as nat, 0xffff);
    lemma_number_written(major_version_label(), detail.maj_device_version as nat, 0xff);
    lemma_number_written(minor_version_label(), detail.min_device_version as nat, 0xff);
}

/// A block that is followed by any text is read back as its record, with that
/// text left over.
pub proof fn lemma_block_round_trip(detail: USBDetailView, tail: Seq<char>)
    requires
        has_single_line_texts(detail),
    ensures
        parsed_block(block_text(detail) + tail) == Some((detail, tail)),
{
    lemma_block_lines_single_line(detail);
    lemma_take_lines_written(block_lines(detail), tail);
    lemma_block_lines_read(detail);
}

/// Rendering a record and reading the block back gives the record, field for
/// field, provided that none of its texts holds a line feed.
pub proof fn lemma_detail_round_trip(detail: USBDetailView)
    requires
        has_single_line_texts(detail),
    ensures
        parsed_detail(block_text(detail)) == Some(detail),
{
    lemma_block_round_trip(detail, Seq::empty());
    assert(block_text(detail) + Seq::<char>::empty() =~= block_text(detail));
}

/// Rendering a list and reading the report back gives the list, record for
/// record and in the same order, provided that no text holds a line feed.
pub proof fn lemma_report_round_trip(list: Seq<USBDetailView>)
    requires
        all_single_line_texts(list),
    ensures
        parsed_report(report_text(list)) == Some(list),
    decreases list.len(),
{
    if list.len() == 0 {
        assert(list =~= Seq::<USBDetailView>::empty());
    } else {
        let first = list[0];
        let others = list.skip(1);
        assert(list =~= seq![first] + others);
        lemma_report_text_concat(seq![first], others);
        lemma_report_text_single(first);
        lemma_block_round_trip(first, report_text(others));
        lemma_take_lines_found(block_text(first) + report_text(others), 11);
        assert forall|i: int| 0 <= i < others.len() implies has_single_line_texts(
            #[trigger] others[i],
        ) by {
            assert(others[i] == list[i + 1]);
        }
        lemma_report_round_trip(others);
    }
}

/// Whatever is read from a block has texts without a line feed.
pub proof fn lemma_parsed_block_single_line(text: Seq<char>)
    requires
        parsed_block(text) is Some,
    ensures
        parsed_block(text) matches Some((detail, rest)) && has_single_line_texts(detail),
{
    lemma_take_lines_found(text, 11);
    let (lines, after) = take_lines(text, 11)->0;
    assert(is_single_line(lines[2]));
    assert(is_single_line(lines[3]));
    assert(is_single_line(lines[4]));
    let (detail, rest) = parsed_block(text)->0;
    assert forall|i: int| 0 <= i < detail.manufacturer.len() implies detail.manufacturer[i]
        != '\n' by {
        assert(detail.manufacturer[i] == lines[2][i + manufacturer_label().len()]);
    }
    assert forall|i: int| 0 <= i < detail.product.len() implies detail.product[i] != '\n' by {
        assert(detail.product[i] == lines[3][i + product_label().len()]);
    }
    assert forall|i: int| 0 <= i < detail.serial_number.len() implies detail.serial_number[i]
        != '\n' by {
        assert(detail.serial_number[i] == lines[4][i + serial_number_label().len()]);
    }
}

/// Whatever is read from a report has texts without a line feed.
pub proof fn lemma_parsed_report_single_line(text: Seq<char>)
    requires
        parsed_report(text) is Some,
    ensures
        all_single_line_texts(parsed_report(text)->0),
    decreases text.len(),
{
    if text.len() > 0 {
        let (detail, rest) = parsed_block(text)->0;
        lemma_parsed_block_single_line(text);
        lemma_parsed_report_single_line(rest);
        let others = parsed_report(rest)->0;
        let list = parsed_report(text)->0;
        assert forall|i: int| 0 <= i < list.len() implies has_single_line_texts(
            #[trigger] list[i],
        ) by {
            if i > 0 {
                assert(list[i] == others[i - 1]);
            }
        }
    }
}

/// A record with a line feed in one of its texts is not read back from its
/// block: the round trip holds for the records without one, and for no others.
pub proof fn lemma_detail_round_trip_only_single_line(detail: USBDetailView)
    requires
        parsed_detail(block_text(detail)) == Some(detail),
    ensures
        has_single_line_texts(detail),
{
    lemma_parsed_block_single_line(block_text(detail));
}

/// A list with a line feed in one of its texts is not read back from its
/// report.
pub proof fn lemma_report_round_trip_only_single_line(list: Seq<USBDetailView>)
    requires
        parsed_report(report_text(list)) == Some(list),
    ensures
        all_single_line_texts(list),
{
    lemma_parsed_report_single_line(report_text(list));
}

} // verus!
