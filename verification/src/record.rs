//! The data model: one record per device, the ordered list of records, and the
//! two kinds of failure a run can end with.

use vstd::prelude::*;
use vstd::string::StringExecFns;

verus! {

/// What is known of one attached device.
#[derive(Debug, Clone, PartialEq, Eq)]
pub struct USBDetail {
    /// Manufacturer string, in the first language the device supports.
    pub manufacturer: String,
    /// Product string, in the same language.
    pub product: String,
    /// Serial number string, or the placeholder where the device gave none.
    pub serial_number: String,
    /// Bus the device sat on when it was enumerated.
    pub bus_number: u8,
    /// Address of the device on that bus.
    pub device_address: u8,
    /// Vendor identifier from the device descriptor.
    pub vendor_id: u16,
    /// Product identifier from the device descriptor.
    pub product_id: u16,
    /// Major part of the device release number.
    pub maj_device_version: u8,
    /// Minor part of the device release number.
    pub min_device_version: u8,
}

/// The mathematical value of a [`USBDetail`]: its texts as character sequences
/// beside its numbers.
pub struct USBDetailView {
    pub manufacturer: Seq<char>,
    pub product: Seq<char>,
    pub serial_number: Seq<char>,
    pub bus_number: u8,
    pub device_address: u8,
    pub vendor_id: u16,
    pub product_id: u16,
    pub maj_device_version: u8,
    pub min_device_version: u8,
}

impl View for USBDetail {
    type V = USBDetailView;

    open spec fn view(&self) -> USBDetailView {
        USBDetailView {
            manufacturer: self.manufacturer@,
            product: self.product@,
            serial_number: self.serial_number@,
            bus_number: self.bus_number,
            device_address: self.device_address,
            vendor_id: self.vendor_id,
            product_id: self.product_id,
            maj_device_version: self.maj_device_version,
            min_device_version: self.min_device_version,
        }
    }
}

/// The records of one run, in the order in which the devices were enumerated.
#[derive(Debug, Clone, PartialEq, Eq)]
pub struct USBList {
    pub list: Vec<USBDetail>,
}

impl View for USBList {
    type V = Seq<USBDetailView>;

    open spec fn view(&self) -> Seq<USBDetailView> {
        Seq::new(self.list@.len(), |i: int| self.list@[i]@)
    }
}

impl USBList {
    /// The list before any device was read.
    pub fn new() -> (list: USBList)
        ensures
            list@ == Seq::<USBDetailView>::empty(),
    {
        let list = USBList { list: Vec::new() };
        assert(list@ =~= Seq::<USBDetailView>::empty());
        list
    }

    /// Adds the record of the device that was read last. Every record already
    /// held keeps its place, and exactly one is added, at the end.
    pub fn push(&mut self, detail: USBDetail)
        ensures
            final(self)@ == old(self)@.push(detail@),
    {
        self.list.push(detail);
        assert(self@ =~= old(self)@.push(detail@));
    }

    /// How many devices were recorded.
    pub fn len(&self) -> (n: usize)
        ensures
            n == self@.len(),
    {
        self.list.len()
    }
}

/// Which part of a run failed.
#[derive(Debug, Clone, Copy, PartialEq, Eq, Structural)]
pub enum ErrorKind {
    /// The USB access layer failed: while the context was set up, while the
    /// devices were listed, or while a descriptor that the report needs was read.
    SubsystemError,
    /// The report could not be written to the file system.
    IOError,
}

/// A failure that ends the run, with the message shown to the user.
#[derive(Debug, Clone, PartialEq, Eq)]
pub struct USBError {
    pub kind: ErrorKind,
    pub err: String,
}

/// The mathematical value of a [`USBError`].
pub struct USBErrorView {
    pub kind: ErrorKind,
    pub err: Seq<char>,
}

impl View for USBError {
    type V = USBErrorView;

    open spec fn view(&self) -> USBErrorView {
        USBErrorView { kind: self.kind, err: self.err@ }
    }
}

/// The words that open the message of every subsystem error.
pub open spec fn subsystem_prefix() -> Seq<char> {
    "Error in accessing USB device: "@
}

/// The subsystem error for a failure that the USB access layer describes as
/// `description`.
pub open spec fn subsystem_error(description: Seq<char>) -> USBErrorView {
    USBErrorView { kind: ErrorKind::SubsystemError, err: subsystem_prefix() + description }
}

/// The I/O error for a failure that the file system describes as `description`.
pub open spec fn io_error(description: Seq<char>) -> USBErrorView {
    USBErrorView { kind: ErrorKind::IOError, err: description }
}

impl USBError {
    /// Wraps a failure of the USB access layer. The message is the layer's own
    /// description behind a fixed prefix.
    pub fn from_usb(description: &str) -> (error: USBError)
        ensures
            error@ == subsystem_error(description@),
    {
        let mut err = String::from_str("Error in accessing USB device: ");
        err.append(description);
        USBError { kind: ErrorKind::SubsystemError, err }
    }

    /// Wraps a failure of the file system. The message is the file system's own
    /// description, unchanged.
    pub fn from_io(description: &str) -> (error: USBError)
        ensures
            error@ == io_error(description@),
    {
        USBError { kind: ErrorKind::IOError, err: String::from_str(description) }
    }

    /// Whether the USB access layer failed.
    pub fn is_subsystem_error(&self) -> (b: bool)
        ensures
            b == (self@.kind == ErrorKind::SubsystemError),
    {
        match self.kind {
            ErrorKind::SubsystemError => true,
            ErrorKind::IOError => false,
        }
    }

    /// Whether writing the report failed.
    pub fn is_io_error(&self) -> (b: bool)
        ensures
            b == (self@.kind == ErrorKind::IOError),
    {
        match self.kind {
            ErrorKind::SubsystemError => false,
            ErrorKind::IOError => true,
        }
    }
}

} // verus!
