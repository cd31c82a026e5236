//! The operations that every device offers. Each one decides what has to be
//! done on the network; the caller carries it out.
use vstd::prelude::*;

verus! {

/// What an operation on a device asks the caller to do.
#[derive(Debug)]
pub enum Operation {
    /// Write this value to each selected port of a switch.
    SetPorts(i32),
    /// Read each selected port of a switch.
    QueryPorts,
    /// Broadcast this wake packet.
    Wake(Vec<u8>),
}

/// Why an operation cannot be carried out.
#[derive(PartialEq, Eq, Structural, Clone, Copy, Debug)]
pub enum DeviceError {
    /// The switch's vendor is not in the vendor table.
    UnknownVendor,
    /// The device does not offer this operation.
    Unsupported,
}

/// The operations shared by every kind of device.
pub trait Device: Sized {
    /// What `enable` may return.
    spec fn enable_result(&self, r: Result<Operation, DeviceError>) -> bool;

    /// What `disable` may return.
    spec fn disable_result(&self, r: Result<Operation, DeviceError>) -> bool;

    /// What `status` may return.
    spec fn status_result(&self, r: Result<Operation, DeviceError>) -> bool;

    /// Whether `after` is `self` with the attributes of `attrs` in place.
    spec fn updated(&self, attrs: Self, after: Self) -> bool;

    /// Drives the device, or every selected port of it, to "on".
    fn enable(&self) -> (r: Result<Operation, DeviceError>)
        ensures
            self.enable_result(r),
    ;

    /// Drives every selected port of the device to "off".
    fn disable(&self) -> (r: Result<Operation, DeviceError>)
        ensures
            self.disable_result(r),
    ;

    /// Reads the state of the device, or of every selected port of it.
    fn status(&self) -> (r: Result<Operation, DeviceError>)
        ensures
            self.status_result(r),
    ;

    /// Replaces the device's attributes with those of `attrs`, all at once.
    fn update(&mut self, attrs: Self)
        ensures
            old(self).updated(attrs, *final(self)),
    ;
}

} // verus!
