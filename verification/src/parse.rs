//! Reading a report back: the fixed format of the blocks, taken apart again.
//!
//! A block is eleven lines: an empty one, the header, and one per field, each
//! field line opening with its label. Every line ends with a line feed. Texts
//! are taken as they stand; numbers must be numerals within the field's range.

use vstd::prelude::*;
use vstd::string::{StrSliceExecFns, StringExecFns};
use crate::decimal::{parse_number, read_decimal};
use crate::record::{USBDetail, USBDetailView, USBList};
use crate::report::{
    block_header,
    bus_number_label,
    device_address_label,
    major_version_label,
    manufacturer_label,
    minor_version_label,
    product_id_label,
    product_label,
    serial_number_label,
    vendor_id_label,
};

verus! {

/// Number of lines in a block.
pub const BLOCK_LINES: usize = 11;

/// How many characters stand before the first line feed of `text`, or in all
/// of `text` if it holds none.
pub open spec fn line_len(text: Seq<char>) -> nat
    decreases text.len(),
{
    if text.len() == 0 || text[0] == '\n' {
        0
    } else {
        1 + line_len(text.skip(1))
    }
}

/// Splits off the first line: what stands before the first line feed, and what
/// follows it. `None` if `text` holds no line feed.
pub open spec fn take_line(text: Seq<char>) -> Option<(Seq<char>, Seq<char>)> {
    let n = line_len(text) as int;
    if n < text.len() {
        Some((text.take(n), text.skip(n + 1)))
    } else {
        None
    }
}

/// Splits off the first `count` lines, and what follows them. `None` if `text`
/// holds fewer line feeds.
pub open spec fn take_lines(text: Seq<char>, count: nat) -> Option<(Seq<Seq<char>>, Seq<char>)>
    decreases count,
{
    if count == 0 {
        Some((Seq::empty(), text))
    } else {
        match take_lines(text, (count - 1) as nat) {
            None => None,
            Some((lines, rest)) => match take_line(rest) {
                None => None,
                Some((line, tail)) => Some((lines.push(line), tail)),
            },
        }
    }
}

/// What follows the label on a field's line. `None` if the line does not open
/// with the label.
pub open spec fn field_value(line: Seq<char>, label: Seq<char>) -> Option<Seq<char>> {
    if label.len() <= line.len() && line.take(label.len() as int) == label {
        Some(line.skip(label.len() as int))
    } else {
        None
    }
}

/// The number on a field's line, if a numeral of at most `max` follows the
/// label.
pub open spec fn number_value(line: Seq<char>, label: Seq<char>, max: nat) -> Option<nat> {
    match field_value(line, label) {
        Some(numeral) => parse_number(numeral, max),
        None => None,
    }
}

/// The record that the lines of one block spell out.
pub open spec fn block_of_lines(lines: Seq<Seq<char>>) -> Option<USBDetailView> {
    let manufacturer = field_value(lines[2], manufacturer_label());
    let product = field_value(lines[3], product_label());
    let serial_number = field_value(lines[4], serial_number_label());
    let bus_number = number_value(lines[5], bus_number_label(), 0xff);
    let device_address = number_value(lines[6], device_address_label(), 0xff);
    let vendor_id = number_value(lines[7], vendor_id_label(), 0xffff);
    let product_id = number_value(lines[8], product_id_label(), 0xffff);
    let maj_device_version = number_value(lines[9], major_version_label(), 0xff);
    let min_device_version = number_value(lines[10], minor_version_label(), 0xff);
    if lines.len() == 11 && lines[0].len() == 0 && lines[1] == block_header() && manufacturer is Some
        && product is Some && serial_number is Some && bus_number is Some && device_address is Some
        && vendor_id is Some && product_id is Some && maj_device_version is Some
        && min_device_version is Some {
        Some(
            USBDetailView {
                manufacturer: manufacturer->0,
                product: product->0,
                serial_number: serial_number->0,
                bus_number: bus_number->0 as u8,
                device_address: device_address->0 as u8,
                vendor_id: vendor_id->0 as u16,
                product_id: product_id->0 as u16,
                maj_device_version: maj_device_version->0 as u8,
                min_device_version: min_device_version->0 as u8,
            },
        )
    } else {
        None
    }
}

/// The record that the first block of `text` spells out, and what follows the
/// block.
pub open spec fn parsed_block(text: Seq<char>) -> Option<(USBDetailView, Seq<char>)> {
    match take_lines(text, 11) {
        Some((lines, rest)) => match block_of_lines(lines) {
            Some(detail) => Some((detail, rest)),
            None => None,
        },
        None => None,
    }
}

/// The record that `text` spells out, if `text` is one block and no more.
pub open spec fn parsed_detail(text: Seq<char>) -> Option<USBDetailView> {
    match parsed_block(text) {
        Some((detail, rest)) => if rest.len() == 0 {
            Some(detail)
        } else {
            None
        },
        None => None,
    }
}

/// The list that follows `prefix` once the rest of a report is read.
pub open spec fn continued(prefix: Seq<USBDetailView>, rest: Option<Seq<USBDetailView>>) -> Option<
    Seq<USBDetailView>,
> {
    match rest {
        Some(details) => Some(prefix + details),
        None => None,
    }
}

/// The records that `text` spells out, if `text` is a run of blocks and no
/// more. The empty text is the report of no records.
pub open spec fn parsed_report(text: Seq<char>) -> Option<Seq<USBDetailView>>
    decreases text.len(),
{
    if text.len() == 0 {
        Some(Seq::empty())
    } else {
        match parsed_block(text) {
            Some((detail, rest)) => if rest.len() < text.len() {
                continued(seq![detail], parsed_report(rest))
            } else {
                None
            },
            None => None,
        }
    }
}

/// A text without a line feed.
pub open spec fn is_single_line(text: Seq<char>) -> bool {
    forall|i: int| 0 <= i < text.len() ==> text[i] != '\n'
}

/// `line_len` finds the first line feed.
pub proof fn lemma_line_len(text: Seq<char>, k: int)
    requires
        0 <= k <= text.len(),
        is_single_line(text.take(k)),
        k == text.len() || text[k] == '\n',
    ensures
        line_len(text) == k,
    decreases k,
{
    if k > 0 {
        assert(text.take(k)[0] == text[0]);
        let rest = text.skip(1);
        let head = rest.take(k - 1);
        assert forall|i: int| 0 <= i < head.len() implies head[i] != '\n' by {
            assert(head[i] == text.take(k)[i + 1]);
        }
        lemma_line_len(rest, k - 1);
    }
}

/// What `line_len` counts holds no line feed, and a line feed follows it unless
/// the text ends there.
pub proof fn lemma_line_len_found(text: Seq<char>)
    ensures
        line_len(text) <= text.len(),
        is_single_line(text.take(line_len(text) as int)),
        line_len(text) < text.len() ==> text[line_len(text) as int] == '\n',
    decreases text.len(),
{
    if !(text.len() == 0 || text[0] == '\n') {
        let rest = text.skip(1);
        lemma_line_len_found(rest);
        let n = line_len(text) as int;
        let head = text.take(n);
        assert forall|i: int| 0 <= i < head.len() implies head[i] != '\n' by {
            if i > 0 {
                assert(head[i] == rest.take(n - 1)[i - 1]);
            }
        }
    }
}

/// Once the lines run out, asking for more does not help.
pub proof fn lemma_take_lines_none(text: Seq<char>, few: nat, many: nat)
    requires
        few <= many,
        take_lines(text, few) is None,
    ensures
        take_lines(text, many) is None,
    decreases many,
{
    if few < many {
        lemma_take_lines_none(text, few, (many - 1) as nat);
    }
}

/// The index at which the line that starts at `start` ends: that of the next
/// line feed, or the length of `chars` if none follows.
fn line_end(chars: &Vec<char>, start: usize) -> (end: usize)
    requires
        start <= chars.len(),
    ensures
        start <= end <= chars.len(),
        end - start == line_len(chars@.skip(start as int)),
{
    let mut end = start;
    while end < chars.len() && chars[end] != '\n'
        invariant
            start <= end <= chars.len(),
            forall|j: int| start <= j < end ==> chars@[j] != '\n',
        decreases chars.len() - end,
    {
        end = end + 1;
    }
    proof {
        lemma_line_len(chars@.skip(start as int), end - start);
    }
    end
}

/// The lines that the spans `(start, end)` cut out of `text`.
pub open spec fn span_lines(text: Seq<char>, spans: Seq<(usize, usize)>) -> Seq<Seq<char>> {
    Seq::new(spans.len(), |j: int| text.subrange(spans[j].0 as int, spans[j].1 as int))
}

/// Every span lies within a text of length `len`.
pub open spec fn spans_within(spans: Seq<(usize, usize)>, len: nat) -> bool {
    forall|j: int| 0 <= j < spans.len() ==> (#[trigger] spans[j]).0 <= spans[j].1 <= len
}

/// Finds the next `count` lines from `start` on. Returns where each starts and
/// ends, and the index behind the last line feed.
fn split_lines(chars: &Vec<char>, start: usize, count: usize) -> (found: Option<
    (Vec<(usize, usize)>, usize),
>)
    requires
        start <= chars.len(),
    ensures
        match take_lines(chars@.skip(start as int), count as nat) {
            Some((lines, rest)) => {
                &&& found matches Some((spans, next))
                &&& spans@.len() == count
                &&& spans_within(spans@, chars@.len())
                &&& span_lines(chars@, spans@) == lines
                &&& start + count <= next <= chars.len()
                &&& chars@.skip(next as int) == rest
            },
            None => found is None,
        },
{
    let ghost text = chars@.skip(start as int);
    let mut spans: Vec<(usize, usize)> = Vec::new();
    let mut pos = start;
    let mut k: usize = 0;
    assert(span_lines(chars@, spans@) =~= Seq::<Seq<char>>::empty());
    while k < count
        invariant
            k <= count,
            spans@.len() == k,
            start + k <= pos <= chars.len(),
            text == chars@.skip(start as int),
            spans_within(spans@, chars@.len()),
            take_lines(text, k as nat) == Some((span_lines(chars@, spans@), chars@.skip(pos as int))),
        decreases count - k,
    {
        let end = line_end(chars, pos);
        if end >= chars.len() {
            proof {
                lemma_take_lines_none(text, (k + 1) as nat, count as nat);
            }
            return None;
        }
        proof {
            let rest = chars@.skip(pos as int);
            assert(rest.take(end - pos) =~= chars@.subrange(pos as int, end as int));
            assert(rest.skip(end - pos + 1) =~= chars@.skip(end + 1));
            assert(span_lines(chars@, spans@.push((pos, end))) =~= span_lines(chars@, spans@).push(
                chars@.subrange(pos as int, end as int),
            ));
        }
        spans.push((pos, end));
        pos = end + 1;
        k = k + 1;
    }
    Some((spans, pos))
}

/// Where the value starts on the line `chars[start..end]`, if the line opens
/// with `label`.
fn field_start(chars: &Vec<char>, start: usize, end: usize, label: &str) -> (found: Option<usize>)
    requires
        start <= end <= chars.len(),
    ensures
        match field_value(chars@.subrange(start as int, end as int), label@) {
            Some(value) => {
                &&& found is Some
                &&& start <= found->0 <= end
                &&& found->0 - start == label@.len()
                &&& chars@.subrange(found->0 as int, end as int) == value
            },
            None => found is None,
        },
{
    let ghost line = chars@.subrange(start as int, end as int);
    let label_chars = chars_of(label);
    let n = label_chars.len();
    if n > end - start {
        return None;
    }
    let mut i: usize = 0;
    while i < n
        invariant
            i <= n <= end - start,
            start <= end <= chars.len(),
            n == label_chars.len(),
            label_chars@ == label@,
            line == chars@.subrange(start as int, end as int),
            forall|j: int| 0 <= j < i ==> line[j] == label_chars@[j],
        decreases n - i,
    {
        if chars[start + i] != label_chars[i] {
            assert(line.take(n as int)[i as int] != label_chars@[i as int]);
            return None;
        }
        i = i + 1;
    }
    assert(line.take(n as int) =~= label@);
    assert(line.skip(n as int) =~= chars@.subrange(start + n, end as int));
    Some(start + n)
}

/// The text on the field line `chars[start..end]`.
fn read_text(text: &str, chars: &Vec<char>, start: usize, end: usize, label: &str) -> (found:
    Option<String>)
    requires
        chars@ == text@,
        start <= end <= chars.len(),
    ensures
        match field_value(chars@.subrange(start as int, end as int), label@) {
            Some(value) => found is Some && found->0@ == value,
            None => found is None,
        },
{
    match field_start(chars, start, end, label) {
        Some(from) => Some(String::from_str(text.substring_char(from, end))),
        None => None,
    }
}

/// The number on the field line `chars[start..end]`.
fn read_number(chars: &Vec<char>, start: usize, end: usize, label: &str, max: u16) -> (found:
    Option<u16>)
    requires
        start <= end <= chars.len(),
    ensures
        match number_value(chars@.subrange(start as int, end as int), label@, max as nat) {
            Some(value) => found == Some(value as u16),
            None => found is None,
        },
{
    match field_start(chars, start, end, label) {
        Some(from) => read_decimal(chars, from, end, max),
        None => None,
    }
}

/// Reads the block that starts at `start`. Returns its record and the index
/// behind the block.
fn read_block(text: &str, chars: &Vec<char>, start: usize) -> (found: Option<(USBDetail, usize)>)
    requires
        chars@ == text@,
        start <= chars.len(),
    ensures
        match parsed_block(chars@.skip(start as int)) {
            Some((detail, rest)) => {
                &&& found matches Some((read, next))
                &&& read@ == detail
                &&& start < next <= chars.len()
                &&& chars@.skip(next as int) == rest
            },
            None => found is None,
        },
{
    let (spans, next) = match split_lines(chars, start, BLOCK_LINES) {
        Some(split) => split,
        None => {
            return None;
        },
    };
    let ghost lines = span_lines(chars@, spans@);
    let (blank_start, blank_end) = spans[0];
    if blank_start != blank_end {
        return None;
    }
    let (header_start, header_end) = spans[1];
    match field_start(chars, header_start, header_end, "USB Device detail") {
        Some(from) => {
            if from != header_end {
                return None;
            }
            assert(lines[1] =~= block_header());
        },
        None => {
            assert(lines[1].take(lines[1].len() as int) =~= lines[1]);
            return None;
        },
    }
    let (from, to) = spans[2];
    let manufacturer = match read_text(text, chars, from, to, "Manufacturer: ") {
        Some(value) => value,
        None => {
            return None;
        },
    };
    let (from, to) = spans[3];
    let product = match read_text(text, chars, from, to, "Product: ") {
        Some(value) => value,
        None => {
            return None;
        },
    };
    let (from, to) = spans[4];
    let serial_number = match read_text(text, chars, from, to, "Serial number: ") {
        Some(value) => value,
        None => {
            return None;
        },
    };
    let (from, to) = spans[5];
    let bus_number = match read_number(chars, from, to, "Bus number: ", 0xff) {
        Some(value) => value,
        None => {
            return None;
        },
    };
    let (from, to) = spans[6];
    let device_address = match read_number(chars, from, to, "Device address: ", 0xff) {
        Some(value) => value,
        None => {
            return None;
        },
    };
    let (from, to) = spans[7];
    let vendor_id = match read_number(chars, from, to, "Vendor id: ", 0xffff) {
        Some(value) => value,
        None => {
            return None;
        },
    };
    let (from, to) = spans[8];
    let product_id = match read_number(chars, from, to, "Product ID: ", 0xffff) {
        Some(value) => value,
        None => {
            return None;
        },
    };
    let (from, to) = spans[9];
    let maj_device_version = match read_number(chars, from, to, "Major device version: ", 0xff) {
        Some(value) => value,
        None => {
            return None;
        },
    };
    let (from, to) = spans[10];
    let min_device_version = match read_number(chars, from, to, "Minor device version: ", 0xff) {
        Some(value) => value,
        None => {
            return None;
        },
    };
    let detail = USBDetail {
        manufacturer,
        product,
        serial_number,
        bus_number: bus_number as u8,
        device_address: device_address as u8,
        vendor_id,
        product_id,
        maj_device_version: maj_device_version as u8,
        min_device_version: min_device_version as u8,
    };
    Some((detail, next))
}

/// Reads one record back from its block. The text must be the block and
/// nothing else.
pub fn parse_detail(text: &str) -> (found: Option<USBDetail>)
    ensures
        match parsed_detail(text@) {
            Some(detail) => found is Some && found->0@ == detail,
            None => found is None,
        },
{
    let chars = chars_of(text);
    assert(chars@.skip(0) =~= text@);
    match read_block(text, &chars, 0) {
        Some((detail, next)) => {
            if next == chars.len() {
                Some(detail)
            } else {
                None
            }
        },
        None => None,
    }
}

/// Reads a list of records back from its report. The text must be a run of
/// blocks and nothing else.
pub fn parse_report(text: &str) -> (found: Option<USBList>)
    ensures
        match parsed_report(text@) {
            Some(details) => found is Some && found->0@ == details,
            None => found is None,
        },
{
    let chars = chars_of(text);
    let mut list = USBList::new();
    let mut pos: usize = 0;
    proof {
        assert(chars@.skip(0) =~= text@);
        if let Some(details) = parsed_report(text@) {
            assert(list@ + details =~= details);
        }
    }
    while pos < chars.len()
        invariant
            pos <= chars.len(),
            chars@ == text@,
            parsed_report(text@) == continued(list@, parsed_report(chars@.skip(pos as int))),
        decreases chars.len() - pos,
    {
        match read_block(text, &chars, pos) {
            Some((detail, next)) => {
                proof {
                    if let Some(details) = parsed_report(chars@.skip(next as int)) {
                        assert(list@ + (seq![detail@] + details) =~= list@.push(detail@) + details);
                    }
                }
                list.push(detail);
                pos = next;
            },
            None => {
                return None;
            },
        }
    }
    assert(list@ + Seq::<USBDetailView>::empty() =~= list@);
    Some(list)
}

/// The characters of a text, one by one.
pub fn chars_of(text: &str) -> (chars: Vec<char>)
    ensures
        chars@ == text@,
{
    let mut chars: Vec<char> = Vec::new();
    for c in it: text.chars()
        invariant
            chars@ == it.seq().take(it.index()),
            it.seq() == text@,
    {
        assert(it.seq().take(it.index() + 1) =~= it.seq().take(it.index()).push(c));
        chars.push(c);
    }
    assert(chars@ =~= text@);
    chars
}

} // verus!
