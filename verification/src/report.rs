//! The report: every record rendered as a fixed block of text lines.

use vstd::prelude::*;
use vstd::string::StringExecFns;
use crate::decimal::{append_decimal, decimal};
use crate::record::{USBDetail, USBDetailView, USBList};

verus! {

/// Name of the file that the report is written to, in the working directory.
pub const REPORT_FILE_NAME: &'static str = "usb_details.txt";

/// The line that opens every block.
pub open spec fn block_header() -> Seq<char> {
    "USB Device detail"@
}

/// Opens the line of the manufacturer string.
pub open spec fn manufacturer_label() -> Seq<char> {
    "Manufacturer: "@
}

/// Opens the line of the product string.
pub open spec fn product_label() -> Seq<char> {
    "Product: "@
}

/// Opens the line of the serial number string.
pub open spec fn serial_number_label() -> Seq<char> {
    "Serial number: "@
}

/// Opens the line of the bus number.
pub open spec fn bus_number_label() -> Seq<char> {
    "Bus number: "@
}

/// Opens the line of the device address.
pub open spec fn device_address_label() -> Seq<char> {
    "Device address: "@
}

/// Opens the line of the vendor identifier.
pub open spec fn vendor_id_label() -> Seq<char> {
    "Vendor id: "@
}

/// Opens the line of the product identifier.
pub open spec fn product_id_label() -> Seq<char> {
    "Product ID: "@
}

/// Opens the line of the major part of the device release number.
pub open spec fn major_version_label() -> Seq<char> {
    "Major device version: "@
}

/// Opens the line of the minor part of the device release number.
pub open spec fn minor_version_label() -> Seq<char> {
    "Minor device version: "@
}

/// The text of some lines: each line as it is, followed by a line feed.
pub open spec fn join_lines(lines: Seq<Seq<char>>) -> Seq<char>
    decreases lines.len(),
{
    if lines.len() == 0 {
        Seq::empty()
    } else {
        join_lines(lines.drop_last()) + lines.last() + seq!['\n']
    }
}

/// The lines of one record's block: an empty line, the header, and one line
/// per field, made of the field's label and its value. Texts are copied
/// without escaping; numbers are written in base 10.
pub open spec fn block_lines(detail: USBDetailView) -> Seq<Seq<char>> {
    seq![
        Seq::empty(),
        block_header(),
        manufacturer_label() + detail.manufacturer,
        product_label() + detail.product,
        serial_number_label() + detail.serial_number,
        bus_number_label() + decimal(detail.bus_number as nat),
        device_address_label() + decimal(detail.device_address as nat),
        vendor_id_label() + decimal(detail.vendor_id as nat),
        product_id_label() + decimal(detail.product_id as nat),
        major_version_label() + decimal(detail.maj_device_version as nat),
        minor_version_label() + decimal(detail.min_device_version as nat),
    ]
}

/// The block of one record.
pub open spec fn block_text(detail: USBDetailView) -> Seq<char> {
    join_lines(block_lines(detail))
}

/// The report of a list: the blocks of its records one after another, in the
/// order of the list, with nothing between them.
pub open spec fn report_text(list: Seq<USBDetailView>) -> Seq<char>
    decreases list.len(),
{
    if list.len() == 0 {
        Seq::empty()
    } else {
        report_text(list.drop_last()) + block_text(list.last())
    }
}

/// What the report file holds: the report and one more line feed.
pub open spec fn file_text(list: Seq<USBDetailView>) -> Seq<char> {
    report_text(list) + seq!['\n']
}

/// One more line adds its characters and a line feed to the text.
pub proof fn lemma_join_lines_push(lines: Seq<Seq<char>>, line: Seq<char>)
    ensures
        join_lines(lines.push(line)) == join_lines(lines) + line + seq!['\n'],
{
    assert(lines.push(line).drop_last() =~= lines);
}

/// Appends one line that holds a label and a text.
fn append_text_line(out: &mut String, label: &str, value: &str)
    ensures
        final(out)@ == old(out)@ + (label@ + value@) + seq!['\n'],
{
    proof {
        reveal_strlit("\n");
    }
    out.append(label);
    out.append(value);
    out.append("\n");
    assert(out@ =~= old(out)@ + (label@ + value@) + seq!['\n']);
}

/// Appends one line that holds a label and a number.
fn append_number_line(out: &mut String, label: &str, value: u16)
    ensures
        final(out)@ == old(out)@ + (label@ + decimal(value as nat)) + seq!['\n'],
{
    proof {
        reveal_strlit("\n");
    }
    out.append(label);
    append_decimal(out, value);
    out.append("\n");
    assert(out@ =~= old(out)@ + (label@ + decimal(value as nat)) + seq!['\n']);
}

/// Appends the block of one record to `out`.
pub fn append_block(out: &mut String, detail: &USBDetail)
    ensures
        final(out)@ == old(out)@ + block_text(detail@),
{
    let ghost lines = block_lines(detail@);
    let ghost before = old(out)@;
    proof {
        reveal_strlit("\n");
        reveal_strlit("");
        assert(""@ =~= Seq::<char>::empty());
        assert(before =~= before + join_lines(lines.take(0)));
    }
    out.append("\n");
    proof {
        lemma_block_line_joined(before, lines, 0, out@);
    }
    append_text_line(out, "USB Device detail", "");
    proof {
        assert(block_header() + ""@ =~= block_header());
        lemma_block_line_joined(before, lines, 1, out@);
    }
    append_text_line(out, "Manufacturer: ", detail.manufacturer.as_str());
    proof {
        lemma_block_line_joined(before, lines, 2, out@);
    }
    append_text_line(out, "Product: ", detail.product.as_str());
    proof {
        lemma_block_line_joined(before, lines, 3, out@);
    }
    append_text_line(out, "Serial number: ", detail.serial_number.as_str());
    proof {
        lemma_block_line_joined(before, lines, 4, out@);
    }
    append_number_line(out, "Bus number: ", detail.bus_number as u16);
    proof {
        lemma_block_line_joined(before, lines, 5, out@);
    }
    append_number_line(out, "Device address: ", detail.device_address as u16);
    proof {
        lemma_block_line_joined(before, lines, 6, out@);
    }
    append_number_line(out, "Vendor id: ", detail.vendor_id);
    proof {
        lemma_block_line_joined(before, lines, 7, out@);
    }
    append_number_line(out, "Product ID: ", detail.product_id);
    proof {
        lemma_block_line_joined(before, lines, 8, out@);
    }
    append_number_line(out, "Major device version: ", detail.maj_device_version as u16);
    proof {
        lemma_block_line_joined(before, lines, 9, out@);
    }
    append_number_line(out, "Minor device version: ", detail.min_device_version as u16);
    proof {
        lemma_block_line_joined(before, lines, 10, out@);
        assert(lines.take(11) =~= lines);
    }
}

/// Writing line `k` behind the first `k` lines gives the first `k + 1` lines.
proof fn lemma_block_line_joined(before: Seq<char>, lines: Seq<Seq<char>>, k: int, after: Seq<char>)
    requires
        0 <= k < lines.len(),
        after =~= before + join_lines(lines.take(k)) + lines[k] + seq!['\n'],
    ensures
        after == before + join_lines(lines.take(k + 1)),
{
    lemma_join_lines_push(lines.take(k), lines[k]);
    assert(lines.take(k + 1) =~= lines.take(k).push(lines[k]));
    assert(after =~= before + join_lines(lines.take(k + 1)));
}

/// The report of two lists put together is the report of the first followed
/// by the report of the second.
pub proof fn lemma_report_text_concat(first: Seq<USBDetailView>, second: Seq<USBDetailView>)
    ensures
        report_text(first + second) == report_text(first) + report_text(second),
    decreases second.len(),
{
    if second.len() == 0 {
        assert(first + second =~= first);
        assert(report_text(first) + report_text(second) =~= report_text(first));
    } else {
        lemma_report_text_concat(first, second.drop_last());
        assert((first + second).drop_last() =~= first + second.drop_last());
        assert(report_text(first + second) =~= report_text(first) + report_text(second));
    }
}

/// The blocks of a list: one for each record, in the order of the list.
pub open spec fn report_blocks(list: Seq<USBDetailView>) -> Seq<Seq<char>> {
    Seq::new(list.len(), |i: int| block_text(list[i]))
}

/// A report is its blocks written one after another. There are as many blocks
/// as records, the block at each place is that of the record at that place,
/// and the report holds nothing before, between or behind them.
pub proof fn lemma_report_is_its_blocks(list: Seq<USBDetailView>)
    ensures
        report_blocks(list).len() == list.len(),
        forall|i: int| 0 <= i < list.len() ==> report_blocks(list)[i] == block_text(list[i]),
        report_text(list) == report_blocks(list).flatten(),
    decreases list.len(),
{
    if list.len() == 0 {
        assert(report_blocks(list) =~= Seq::<Seq<char>>::empty());
        assert(report_blocks(list).flatten() =~= Seq::<char>::empty());
    } else {
        let before = list.drop_last();
        lemma_report_is_its_blocks(before);
        assert(report_blocks(list) =~= report_blocks(before).push(block_text(list.last())));
        report_blocks(before).lemma_flatten_push(block_text(list.last()));
        assert(report_text(list) =~= report_blocks(list).flatten());
    }
}

/// The report of a single record is its block.
pub proof fn lemma_report_text_single(detail: USBDetailView)
    ensures
        report_text(seq![detail]) == block_text(detail),
{
    let one = seq![detail];
    assert(one.drop_last() =~= Seq::<USBDetailView>::empty());
    assert(report_text(one.drop_last()) =~= Seq::<char>::empty());
    assert(report_text(one) =~= block_text(detail));
}

/// A report holds one block for each record, in the order of the list, and
/// nothing else: whichever record is picked, the report is the report of the
/// records before it, then its block, then the report of the records after it.
pub proof fn lemma_report_blocks_in_order(list: Seq<USBDetailView>, i: int)
    requires
        0 <= i < list.len(),
    ensures
        report_text(list) == report_text(list.take(i)) + block_text(list[i]) + report_text(
            list.skip(i + 1),
        ),
{
    let one = seq![list[i]];
    assert(list =~= list.take(i) + one + list.skip(i + 1));
    lemma_report_text_concat(list.take(i) + one, list.skip(i + 1));
    lemma_report_text_concat(list.take(i), one);
    lemma_report_text_single(list[i]);
}

/// Every block opens with exactly one empty line: its first character is a
/// line feed, the header follows at once, and the header is not empty.
pub proof fn lemma_block_opening(detail: USBDetailView)
    ensures
        block_header().len() > 0,
        block_header()[0] != '\n',
        block_text(detail).len() >= 2 + block_header().len(),
        block_text(detail).take(2 + block_header().len() as int) == seq!['\n'] + block_header() + seq![
            '\n',
        ],
{
    reveal_strlit("USB Device detail");
    let lines = block_lines(detail);
    lemma_join_lines_concat(lines.take(2), lines.skip(2));
    assert(lines =~= lines.take(2) + lines.skip(2));
    lemma_join_lines_push(lines.take(1), lines[1]);
    assert(lines.take(2) =~= lines.take(1).push(lines[1]));
    lemma_join_lines_push(lines.take(0), lines[0]);
    assert(lines.take(1) =~= lines.take(0).push(lines[0]));
    assert(join_lines(lines.take(2)) =~= seq!['\n'] + block_header() + seq!['\n']);
    assert(block_text(detail).take(2 + block_header().len() as int) =~= join_lines(
        lines.take(2),
    ));
}

/// The text of two runs of lines put together is the text of the first
/// followed by the text of the second.
pub proof fn lemma_join_lines_concat(first: Seq<Seq<char>>, second: Seq<Seq<char>>)
    ensures
        join_lines(first + second) == join_lines(first) + join_lines(second),
    decreases second.len(),
{
    if second.len() == 0 {
        assert(first + second =~= first);
        assert(join_lines(first) + join_lines(second) =~= join_lines(first));
    } else {
        lemma_join_lines_concat(first, second.drop_last());
        assert((first + second).drop_last() =~= first + second.drop_last());
        assert(join_lines(first + second) =~= join_lines(first) + join_lines(second));
    }
}

impl USBDetail {
    /// Renders the block of this record.
    pub fn to_string(&self) -> (text: String)
        ensures
            text@ == block_text(self@),
    {
        let mut text = String::new();
        append_block(&mut text, self);
        assert(text@ =~= block_text(self@));
        text
    }
}

impl USBList {
    /// Renders the report: one block per record, in the order of the list.
    pub fn to_string(&self) -> (text: String)
        ensures
            text@ == report_text(self@),
    {
        let mut text = String::new();
        let mut i: usize = 0;
        while i < self.list.len()
            invariant
                i <= self.list.len(),
                text@ == report_text(self@.take(i as int)),
            decreases self.list.len() - i,
        {
            append_block(&mut text, &self.list[i]);
            proof {
                let next = self@.take(i + 1);
                assert(next.drop_last() =~= self@.take(i as int));
                assert(next.last() == self.list@[i as int]@);
            }
            i = i + 1;
        }
        assert(self@.take(i as int) =~= self@);
        text
    }

    /// Renders what is written to the report file: the report, then a line feed.
    pub fn to_file_text(&self) -> (text: String)
        ensures
            text@ == file_text(self@),
    {
        proof {
            reveal_strlit("\n");
        }
        let mut text = self.to_string();
        text.append("\n");
        assert(text@ =~= file_text(self@));
        text
    }
}

} // verus!
