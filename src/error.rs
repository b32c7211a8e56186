use vstd::prelude::*;

verus! {

/// Every failure the library reports.
#[derive(Clone, Debug, PartialEq, Eq)]
pub enum Error {
    /// An address of the other family, where one family was asked for.
    InvalidAddress,
    /// Text that is not an IPv4 address.
    InvalidIpv4Str,
    /// A prefix length beyond the bit width of the family.
    InvalidPrefixLength,
    /// A mask whose set bits are not one run from the most significant bit.
    InvalidNetmask,
    /// Text that is not a netmask address.
    InvalidNetmaskStr,
    /// The operation would have to wait; retry once the device is ready.
    WouldBlock,
    /// The operation does not exist for the layer the device runs at.
    Unsupported,
    /// A blocking read ended because the device was shut down.
    ConnectionAborted,
    /// A packet longer than the buffer it was to be copied into.
    BufferTooSmall,
    /// The device holds no value of the kind asked for.
    InvalidConfig,
    /// An operating-system error, with its raw code where one was given.
    Os { code: Option<i32> },
    /// A failure of the packet driver, with its description.
    Driver { message: String },
    /// A configuration command that exited with failure.
    Command { message: String },
}

impl Error {
    /// Tells whether this is the would-block condition.
    pub fn is_would_block(&self) -> (r: bool)
        ensures
            r == (*self is WouldBlock),
    {
        match self {
            Error::WouldBlock => true,
            _ => false,
        }
    }
}

} // verus!
