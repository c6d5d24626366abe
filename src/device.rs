use vstd::prelude::*;
use vstd::string::*;
use crate::comms::{start_channel, ChannelView, TransferChannel};
use crate::error::UsbError;
use crate::resolver::{checked_text, descriptor_to_string_check, request_of, string_request, StringReply, StringRequest};
use crate::text::{decimal, push_decimal};

verus! {

/// A device's static descriptor, as far as this layer reads it.
#[derive(Clone, Copy, Debug, PartialEq, Eq, Structural)]
pub struct DeviceDescriptor {
    pub vendor_id: u16,
    pub product_id: u16,
    /// String-table index of the manufacturer name; zero when absent.
    pub i_manufacturer: u8,
    /// String-table index of the product name; zero when absent.
    pub i_product: u8,
    /// String-table index of the serial number; zero when absent.
    pub i_serial_number: u8,
    pub num_configurations: u8,
}

/// The string fields a device descriptor refers to.
#[derive(Clone, Copy, Debug, PartialEq, Eq, Structural)]
pub enum StringField {
    Product,
    Manufacturer,
    SerialNumber,
}

/// The interface every read addresses.
pub const READ_INTERFACE: i32 = 0;

/// What a closed device shows in place of its summary.
pub const INACCESSIBLE: &'static str = "Inaccessible USB device (was it dropped?)";

/// Shown when the product name cannot be resolved.
pub const NO_PRODUCT: &'static str = "no product name";

/// Shown when the manufacturer name cannot be resolved.
pub const NO_MANUFACTURER: &'static str = "no manufacturer name";

/// Shown when the serial number cannot be resolved.
pub const NO_SERIAL: &'static str = "none";

/// One opened device: a position in the enumeration list, its descriptor,
/// its own communication handle, and whether it was closed.
/// A device is owned by the registry that opened it and is reached only
/// through it, so none outlives the registry's teardown.
#[derive(Debug)]
pub struct Device {
    raw_index: usize,
    descriptor: DeviceDescriptor,
    handle: u64,
    closed: bool,
}

/// The abstract state of a [`Device`].
pub struct DeviceView {
    pub raw_index: usize,
    pub descriptor: DeviceDescriptor,
    pub handle: u64,
    pub closed: bool,
}

impl View for Device {
    type V = DeviceView;

    closed spec fn view(&self) -> DeviceView {
        DeviceView {
            raw_index: self.raw_index,
            descriptor: self.descriptor,
            handle: self.handle,
            closed: self.closed,
        }
    }
}

/// The string-table index of `field` in `d`.
pub open spec fn field_index(d: DeviceDescriptor, field: StringField) -> u8 {
    match field {
        StringField::Product => d.i_product,
        StringField::Manufacturer => d.i_manufacturer,
        StringField::SerialNumber => d.i_serial_number,
    }
}

/// `(vendor id, product id)` of an open device.
pub open spec fn identity_of(d: DeviceView) -> Result<(u16, u16), UsbError> {
    if d.closed {
        Err(UsbError::DeviceClosed)
    } else {
        Ok((d.descriptor.vendor_id, d.descriptor.product_id))
    }
}

/// The native lookup that resolving `field` of `d` needs, if any.
pub open spec fn field_request_of(d: DeviceView, field: StringField) -> Option<StringRequest> {
    if d.closed {
        None
    } else {
        request_of(d.handle, field_index(d.descriptor, field))
    }
}

/// `d` once closed.
pub open spec fn closed_view(d: DeviceView) -> DeviceView {
    DeviceView { closed: true, ..d }
}

/// What starting a read on `d` gives.
pub open spec fn read_of(d: DeviceView) -> Result<ChannelView, UsbError> {
    if d.closed {
        Err(UsbError::DeviceClosed)
    } else {
        Ok(start_channel(d.handle, READ_INTERFACE))
    }
}

/// A resolved text, or the placeholder when it is absent.
pub open spec fn or_placeholder(t: Option<Seq<char>>, placeholder: Seq<char>) -> Seq<char> {
    match t {
        Some(v) => v,
        None => placeholder,
    }
}

/// The summary text of an open device from its three field texts.
pub open spec fn summary_text(
    product: Seq<char>,
    manufacturer: Seq<char>,
    serial: Seq<char>,
    product_id: u16,
    vendor_id: u16,
) -> Seq<char> {
    "libusb-compatible device\n- product: "@ + product + " (p.ID "@ + decimal(product_id as nat)
        + ")\n- manufacturer: "@ + manufacturer + " (v.ID "@ + decimal(vendor_id as nat)
        + ")\n- serial number: "@ + serial + "\n"@
}

/// The summary of `d`, given the replies to its three string lookups.
pub open spec fn summary_of(
    d: DeviceView,
    product: Option<StringReply>,
    manufacturer: Option<StringReply>,
    serial: Option<StringReply>,
) -> Seq<char> {
    if d.closed {
        INACCESSIBLE@
    } else {
        summary_text(
            or_placeholder(checked_text(d.descriptor.i_product, product), NO_PRODUCT@),
            or_placeholder(checked_text(d.descriptor.i_manufacturer, manufacturer), NO_MANUFACTURER@),
            or_placeholder(checked_text(d.descriptor.i_serial_number, serial), NO_SERIAL@),
            d.descriptor.product_id,
            d.descriptor.vendor_id,
        )
    }
}

/// Closing twice is closing once; and once closed, every accessor gives the
/// closed-state result and asks for no native call: identity and reads fail
/// with `DeviceClosed`, no string lookup is requested, and the summary is the
/// fixed inaccessible text whatever replies are supplied.
pub proof fn lemma_close_idempotent(
    d: DeviceView,
    field: StringField,
    product: Option<StringReply>,
    manufacturer: Option<StringReply>,
    serial: Option<StringReply>,
)
    ensures
        closed_view(closed_view(d)) == closed_view(d),
        identity_of(closed_view(d)) == Err::<(u16, u16), UsbError>(UsbError::DeviceClosed),
        read_of(closed_view(d)) == Err::<ChannelView, UsbError>(UsbError::DeviceClosed),
        field_request_of(closed_view(d), field) is None,
        summary_of(closed_view(d), product, manufacturer, serial) == INACCESSIBLE@,
{
}

/// An open device whose string-table indices are all zero summarises with
/// the three placeholders, whatever replies are supplied.
pub proof fn lemma_summary_without_strings(
    d: DeviceView,
    product: Option<StringReply>,
    manufacturer: Option<StringReply>,
    serial: Option<StringReply>,
)
    requires
        !d.closed,
        d.descriptor.i_product == 0,
        d.descriptor.i_manufacturer == 0,
        d.descriptor.i_serial_number == 0,
    ensures
        summary_of(d, product, manufacturer, serial) == summary_text(
            NO_PRODUCT@,
            NO_MANUFACTURER@,
            NO_SERIAL@,
            d.descriptor.product_id,
            d.descriptor.vendor_id,
        ),
{
}

/// Appends a resolved field text, or the placeholder.
fn push_field(s: &mut String, text: Option<String>, placeholder: &str)
    ensures
        final(s)@ == old(s)@ + or_placeholder(
            match text {
                Some(t) => Some(t@),
                None => None,
            },
            placeholder@,
        ),
{
    match text {
        Some(t) => s.append(t.as_str()),
        None => s.append(placeholder),
    }
}

impl Device {
    /// A freshly opened device.
    pub(crate) fn new(descriptor: DeviceDescriptor, handle: u64, raw_index: usize) -> (r: Device)
        ensures
            r@ == (DeviceView { raw_index, descriptor, handle, closed: false }),
    {
        Device { raw_index, descriptor, handle, closed: false }
    }

    /// The communication handle, also once closed: its owner releases it.
    pub(crate) fn handle(&self) -> (r: u64)
        ensures
            r == self@.handle,
    {
        self.handle
    }

    /// The device's position in the enumeration list, also once closed.
    pub(crate) fn raw(&self) -> (r: usize)
        ensures
            r == self@.raw_index,
    {
        self.raw_index
    }

    /// Whether the device is still open.
    pub fn can_use(&self) -> (r: bool)
        ensures
            r == !self@.closed,
    {
        !self.closed
    }

    /// Closes the device for good; closing it again changes nothing.
    pub fn close(&mut self)
        ensures
            final(self)@ == closed_view(old(self)@),
    {
        self.closed = true;
    }

    /// `(vendor id, product id)`, or `DeviceClosed`.
    pub fn identity(&self) -> (r: Result<(u16, u16), UsbError>)
        ensures
            r == identity_of(self@),
    {
        if self.closed {
            Err(UsbError::DeviceClosed)
        } else {
            Ok((self.descriptor.vendor_id, self.descriptor.product_id))
        }
    }

    /// The descriptor, or `DeviceClosed`.
    pub fn descriptor(&self) -> (r: Result<DeviceDescriptor, UsbError>)
        ensures
            self@.closed ==> r == Err::<DeviceDescriptor, UsbError>(UsbError::DeviceClosed),
            !self@.closed ==> r == Ok::<DeviceDescriptor, UsbError>(self@.descriptor),
    {
        if self.closed {
            Err(UsbError::DeviceClosed)
        } else {
            Ok(self.descriptor)
        }
    }

    /// The device's position in the enumeration list, or `DeviceClosed`.
    pub fn raw_index(&self) -> (r: Result<usize, UsbError>)
        ensures
            self@.closed ==> r == Err::<usize, UsbError>(UsbError::DeviceClosed),
            !self@.closed ==> r == Ok::<usize, UsbError>(self@.raw_index),
    {
        if self.closed {
            Err(UsbError::DeviceClosed)
        } else {
            Ok(self.raw_index)
        }
    }

    /// The native lookup that resolving `field` needs: none when the device
    /// is closed or the field is absent.
    pub fn field_request(&self, field: StringField) -> (r: Option<StringRequest>)
        ensures
            r == field_request_of(self@, field),
    {
        if self.closed {
            return None;
        }
        let index = match field {
            StringField::Product => self.descriptor.i_product,
            StringField::Manufacturer => self.descriptor.i_manufacturer,
            StringField::SerialNumber => self.descriptor.i_serial_number,
        };
        string_request(self.handle, index)
    }

    /// The human-readable summary, given the replies to the lookups that
    /// [`Self::field_request`] asked for (`None` where none was asked).
    pub fn display_summary(
        &self,
        product: &Option<StringReply>,
        manufacturer: &Option<StringReply>,
        serial: &Option<StringReply>,
    ) -> (r: String)
        ensures
            r@ == summary_of(self@, *product, *manufacturer, *serial),
    {
        if self.closed {
            return String::from_str(INACCESSIBLE);
        }
        let p = descriptor_to_string_check(self.descriptor.i_product, product);
        let m = descriptor_to_string_check(self.descriptor.i_manufacturer, manufacturer);
        let n = descriptor_to_string_check(self.descriptor.i_serial_number, serial);
        let mut s = String::from_str("libusb-compatible device\n- product: ");
        push_field(&mut s, p, NO_PRODUCT);
        s.append(" (p.ID ");
        push_decimal(&mut s, self.descriptor.product_id as u32);
        s.append(")\n- manufacturer: ");
        push_field(&mut s, m, NO_MANUFACTURER);
        s.append(" (v.ID ");
        push_decimal(&mut s, self.descriptor.vendor_id as u32);
        s.append(")\n- serial number: ");
        push_field(&mut s, n, NO_SERIAL);
        s.append("\n");
        s
    }

    /// Starts a read: the detach, claim and bulk-transfer sequence on
    /// interface zero. A closed device refuses, so no native call is made.
    pub fn read(&self) -> (r: Result<TransferChannel, UsbError>)
        ensures
            match r {
                Ok(c) => read_of(self@) == Ok::<ChannelView, UsbError>(c@),
                Err(e) => read_of(self@) == Err::<ChannelView, UsbError>(e),
            },
    {
        if self.closed {
            Err(UsbError::DeviceClosed)
        } else {
            Ok(TransferChannel::new(self.handle, READ_INTERFACE))
        }
    }
}

} // verus!
