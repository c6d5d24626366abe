use vstd::prelude::*;

verus! {

/// Everything that can go wrong in the device lifecycle and transfer layer.
///
/// Codes are the native driver's own (negative) result codes.
#[derive(Clone, Copy, Debug, PartialEq, Eq, Structural)]
pub enum UsbError {
    /// The native driver could not be initialized.
    InitializationFailed(i32),
    /// The native driver could not enumerate the attached devices.
    EnumerationFailed(isize),
    /// A communication handle could not be opened.
    OpenFailed(i32),
    /// No enumerated device carries the requested identity.
    DeviceNotFound,
    /// A device descriptor could not be read.
    DescriptorReadFailed(i32),
    /// Interface claiming failed (reported, never fatal).
    ClaimFailed(i32),
    /// A freshly opened handle is already held by another device.
    HandleInUse(u64),
    /// Kernel-driver detachment failed (reported, never fatal).
    DetachFailed(i32),
    /// The device was used after it was closed.
    DeviceClosed,
    /// A bulk transfer failed: the native code and the handle it ran on.
    TransferFailed(i32, u64),
}

} // verus!
