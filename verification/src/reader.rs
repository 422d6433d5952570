//! Reading one device: which descriptor is asked for next, and what becomes of
//! each answer.
//!
//! The caller talks to the device. It hands every answer to the step that waits
//! for it and learns from the step's result whether to go on: the language list
//! first, then the manufacturer, product and serial number strings in the
//! language that was selected.

use vstd::prelude::*;
use vstd::string::StringExecFns;
use crate::record::{
    subsystem_error,
    ErrorKind,
    USBDetail,
    USBDetailView,
    USBError,
    USBErrorView,
};

verus! {

/// Seconds that a single descriptor read may take before it counts as failed.
pub const READ_TIMEOUT_SECS: u64 = 1;

/// The numbers that the device descriptor and the bus topology give. Once the
/// descriptor is at hand, none of them can fail.
#[derive(Debug, Clone, Copy, PartialEq, Eq, Structural)]
pub struct DeviceIdentity {
    pub bus_number: u8,
    pub device_address: u8,
    pub vendor_id: u16,
    pub product_id: u16,
    pub maj_device_version: u8,
    pub min_device_version: u8,
}

/// The text that stands for a serial number that could not be read.
pub open spec fn serial_placeholder() -> Seq<char> {
    "Not available"@
}

/// How the failure of a device without any string descriptor language is
/// described.
pub open spec fn no_language_description() -> Seq<char> {
    "device reports no string descriptor language"@
}

/// The answer to a string read as a mathematical value: the text, or the
/// description of the failure.
pub open spec fn text_outcome(outcome: Result<String, String>) -> Result<Seq<char>, Seq<char>> {
    match outcome {
        Ok(text) => Ok(text@),
        Err(description) => Err(description@),
    }
}

/// The answer to the language read as a mathematical value.
pub open spec fn languages_outcome(outcome: Result<Vec<u16>, String>) -> Result<
    Seq<u16>,
    Seq<char>,
> {
    match outcome {
        Ok(languages) => Ok(languages@),
        Err(description) => Err(description@),
    }
}

/// The language in which the strings are read: the first one listed. A failed
/// read and an empty list are both subsystem errors.
pub open spec fn selected_language(languages: Result<Seq<u16>, Seq<char>>) -> Result<
    u16,
    USBErrorView,
> {
    match languages {
        Err(description) => Err(subsystem_error(description)),
        Ok(list) => if list.len() == 0 {
            Err(subsystem_error(no_language_description()))
        } else {
            Ok(list[0])
        },
    }
}

/// A string that the report cannot do without: a failed read is a subsystem
/// error.
pub open spec fn required_text(outcome: Result<Seq<char>, Seq<char>>) -> Result<
    Seq<char>,
    USBErrorView,
> {
    match outcome {
        Ok(text) => Ok(text),
        Err(description) => Err(subsystem_error(description)),
    }
}

/// The serial number as it is recorded: the text that was read, or the
/// placeholder after any failure.
pub open spec fn serial_or_placeholder(outcome: Result<Seq<char>, Seq<char>>) -> Seq<char> {
    match outcome {
        Ok(text) => text,
        Err(_) => serial_placeholder(),
    }
}

/// The record of a device, given the answers to all four reads. The first
/// failure in reading order (languages, manufacturer, product) decides the
/// error; a failed serial number read never does.
pub open spec fn device_information(
    identity: DeviceIdentity,
    languages: Result<Seq<u16>, Seq<char>>,
    manufacturer: Result<Seq<char>, Seq<char>>,
    product: Result<Seq<char>, Seq<char>>,
    serial_number: Result<Seq<char>, Seq<char>>,
) -> Result<USBDetailView, USBErrorView> {
    match selected_language(languages) {
        Err(error) => Err(error),
        Ok(_) => match required_text(manufacturer) {
            Err(error) => Err(error),
            Ok(manufacturer_text) => match required_text(product) {
                Err(error) => Err(error),
                Ok(product_text) => Ok(
                    USBDetailView {
                        manufacturer: manufacturer_text,
                        product: product_text,
                        serial_number: serial_or_placeholder(serial_number),
                        bus_number: identity.bus_number,
                        device_address: identity.device_address,
                        vendor_id: identity.vendor_id,
                        product_id: identity.product_id,
                        maj_device_version: identity.maj_device_version,
                        min_device_version: identity.min_device_version,
                    },
                ),
            },
        },
    }
}

/// A serial number that cannot be read never fails the device. Whether a
/// record comes out does not depend on the serial number read at all, and after
/// a failed one the record holds the placeholder.
pub proof fn lemma_serial_number_failure_is_recovered(
    identity: DeviceIdentity,
    languages: Result<Seq<u16>, Seq<char>>,
    manufacturer: Result<Seq<char>, Seq<char>>,
    product: Result<Seq<char>, Seq<char>>,
    serial_number: Result<Seq<char>, Seq<char>>,
    description: Seq<char>,
)
    ensures
        device_information(identity, languages, manufacturer, product, Err(description)) is Ok
            <==> device_information(identity, languages, manufacturer, product, serial_number)
            is Ok,
        device_information(
            identity,
            languages,
            manufacturer,
            product,
            Err(description),
        ) matches Ok(detail) ==> detail.serial_number == serial_placeholder(),
        languages matches Ok(list) && list.len() > 0 && manufacturer is Ok && product is Ok
            ==> device_information(identity, languages, manufacturer, product, Err(description))
            is Ok,
{
}

/// A device that lists no language is a subsystem error, whatever the other
/// reads would have answered.
pub proof fn lemma_no_language_is_subsystem_error(
    identity: DeviceIdentity,
    manufacturer: Result<Seq<char>, Seq<char>>,
    product: Result<Seq<char>, Seq<char>>,
    serial_number: Result<Seq<char>, Seq<char>>,
)
    ensures
        device_information(
            identity,
            Ok(Seq::empty()),
            manufacturer,
            product,
            serial_number,
        ) == Err::<USBDetailView, USBErrorView>(subsystem_error(no_language_description())),
        subsystem_error(no_language_description()).kind == ErrorKind::SubsystemError,
{
}

/// Every failure of reading a device is a subsystem error.
pub proof fn lemma_read_failure_is_subsystem_error(
    identity: DeviceIdentity,
    languages: Result<Seq<u16>, Seq<char>>,
    manufacturer: Result<Seq<char>, Seq<char>>,
    product: Result<Seq<char>, Seq<char>>,
    serial_number: Result<Seq<char>, Seq<char>>,
)
    ensures
        device_information(identity, languages, manufacturer, product, serial_number) matches Err(
            error,
        ) ==> error.kind == ErrorKind::SubsystemError,
{
}

/// A device whose language is selected and whose manufacturer string is to be
/// read next.
#[derive(Debug)]
pub struct AwaitingManufacturer {
    pub identity: DeviceIdentity,
    pub language: u16,
}

/// A device whose product string is to be read next.
#[derive(Debug)]
pub struct AwaitingProduct {
    pub identity: DeviceIdentity,
    pub language: u16,
    pub manufacturer: String,
}

/// A device whose serial number string is to be read next.
#[derive(Debug)]
pub struct AwaitingSerialNumber {
    pub identity: DeviceIdentity,
    pub language: u16,
    pub manufacturer: String,
    pub product: String,
}

/// Selects the language for the string reads from the answer to the language
/// read.
pub fn select_language(languages: &Result<Vec<u16>, String>) -> (selected: Result<u16, USBError>)
    ensures
        match selected_language(languages_outcome(*languages)) {
            Ok(language) => selected == Ok::<u16, USBError>(language),
            Err(error) => selected is Err && selected->Err_0@ == error,
        },
{
    match languages {
        Err(description) => Err(USBError::from_usb(description.as_str())),
        Ok(list) => {
            if list.len() == 0 {
                Err(USBError::from_usb("device reports no string descriptor language"))
            } else {
                Ok(list[0])
            }
        },
    }
}

/// Takes the answer to the language read: the first step of reading a device.
pub fn languages_read(identity: DeviceIdentity, languages: &Result<Vec<u16>, String>) -> (next:
    Result<AwaitingManufacturer, USBError>)
    ensures
        match selected_language(languages_outcome(*languages)) {
            Ok(language) => next is Ok && next->Ok_0.identity == identity && next->Ok_0.language
                == language,
            Err(error) => next is Err && next->Err_0@ == error,
        },
{
    match select_language(languages) {
        Ok(language) => Ok(AwaitingManufacturer { identity, language }),
        Err(error) => Err(error),
    }
}

impl AwaitingManufacturer {
    /// Takes the answer to the manufacturer read.
    pub fn manufacturer_read(self, outcome: Result<String, String>) -> (next: Result<
        AwaitingProduct,
        USBError,
    >)
        ensures
            match required_text(text_outcome(outcome)) {
                Ok(text) => next is Ok && next->Ok_0.identity == self.identity
                    && next->Ok_0.language == self.language && next->Ok_0.manufacturer@ == text,
                Err(error) => next is Err && next->Err_0@ == error,
            },
    {
        match outcome {
            Ok(manufacturer) => Ok(
                AwaitingProduct { identity: self.identity, language: self.language, manufacturer },
            ),
            Err(description) => Err(USBError::from_usb(description.as_str())),
        }
    }
}

impl AwaitingProduct {
    /// Takes the answer to the product read.
    pub fn product_read(self, outcome: Result<String, String>) -> (next: Result<
        AwaitingSerialNumber,
        USBError,
    >)
        ensures
            match required_text(text_outcome(outcome)) {
                Ok(text) => next is Ok && next->Ok_0.identity == self.identity
                    && next->Ok_0.language == self.language && next->Ok_0.manufacturer@
                    == self.manufacturer@ && next->Ok_0.product@ == text,
                Err(error) => next is Err && next->Err_0@ == error,
            },
    {
        match outcome {
            Ok(product) => Ok(
                AwaitingSerialNumber {
                    identity: self.identity,
                    language: self.language,
                    manufacturer: self.manufacturer,
                    product,
                },
            ),
            Err(description) => Err(USBError::from_usb(description.as_str())),
        }
    }
}

impl AwaitingSerialNumber {
    /// Takes the answer to the serial number read and completes the record.
    /// Whatever the answer, a record comes out: after a failed read its serial
    /// number is the placeholder.
    pub fn serial_number_read(self, outcome: Result<String, String>) -> (detail: USBDetail)
        ensures
            detail@ == (USBDetailView {
                manufacturer: self.manufacturer@,
                product: self.product@,
                serial_number: serial_or_placeholder(text_outcome(outcome)),
                bus_number: self.identity.bus_number,
                device_address: self.identity.device_address,
                vendor_id: self.identity.vendor_id,
                product_id: self.identity.product_id,
                maj_device_version: self.identity.maj_device_version,
                min_device_version: self.identity.min_device_version,
            }),
    {
        let serial_number = match outcome {
            Ok(text) => text,
            Err(_) => String::from_str("Not available"),
        };
        USBDetail {
            manufacturer: self.manufacturer,
            product: self.product,
            serial_number,
            bus_number: self.identity.bus_number,
            device_address: self.identity.device_address,
            vendor_id: self.identity.vendor_id,
            product_id: self.identity.product_id,
            maj_device_version: self.identity.maj_device_version,
            min_device_version: self.identity.min_device_version,
        }
    }
}

/// The answers of one device to the four reads, as a caller that already holds
/// them all hands them over.
#[derive(Debug)]
pub struct DeviceReads {
    pub languages: Result<Vec<u16>, String>,
    pub manufacturer: Result<String, String>,
    pub product: Result<String, String>,
    pub serial_number: Result<String, String>,
}

/// Builds the record of a device from its descriptor numbers and the answers to
/// its reads, taking the steps in reading order.
pub fn get_device_information(identity: DeviceIdentity, reads: DeviceReads) -> (result: Result<
    USBDetail,
    USBError,
>)
    ensures
        match device_information(
            identity,
            languages_outcome(reads.languages),
            text_outcome(reads.manufacturer),
            text_outcome(reads.product),
            text_outcome(reads.serial_number),
        ) {
            Ok(detail) => result is Ok && result->Ok_0@ == detail,
            Err(error) => result is Err && result->Err_0@ == error,
        },
{
    let awaiting_manufacturer = match languages_read(identity, &reads.languages) {
        Ok(next) => next,
        Err(error) => {
            return Err(error);
        },
    };
    let awaiting_product = match awaiting_manufacturer.manufacturer_read(reads.manufacturer) {
        Ok(next) => next,
        Err(error) => {
            return Err(error);
        },
    };
    let awaiting_serial_number = match awaiting_product.product_read(reads.product) {
        Ok(next) => next,
        Err(error) => {
            return Err(error);
        },
    };
    Ok(awaiting_serial_number.serial_number_read(reads.serial_number))
}

} // verus!
