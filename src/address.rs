use vstd::prelude::*;

verus! {

/// An I2C target address, either seven or ten bits wide.
#[derive(Debug, PartialEq, Eq, Clone, Copy, Structural)]
pub enum AnyAddress {
    Seven(u8),
    Ten(u16),
}

impl AnyAddress {
    /// The address fits the width of its variant.
    pub open spec fn in_range(self) -> bool {
        match self {
            AnyAddress::Seven(a) => a <= 127,
            AnyAddress::Ten(a) => a <= 1023,
        }
    }
}

impl From<u8> for AnyAddress {
    fn from(value: u8) -> (r: AnyAddress)
        ensures
            r == AnyAddress::Seven(value),
    {
        AnyAddress::Seven(value)
    }
}

impl vstd::std_specs::convert::FromSpecImpl<u8> for AnyAddress {
    open spec fn obeys_from_spec() -> bool {
        true
    }

    open spec fn from_spec(v: u8) -> AnyAddress {
        AnyAddress::Seven(v)
    }
}

impl From<u16> for AnyAddress {
    fn from(value: u16) -> (r: AnyAddress)
        ensures
            r == AnyAddress::Ten(value),
    {
        AnyAddress::Ten(value)
    }
}

impl vstd::std_specs::convert::FromSpecImpl<u16> for AnyAddress {
    open spec fn obeys_from_spec() -> bool {
        true
    }

    open spec fn from_spec(v: u16) -> AnyAddress {
        AnyAddress::Ten(v)
    }
}

} // verus!
