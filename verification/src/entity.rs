//! The identifier of an entity: a number, a text or a run of bytes.

use vstd::prelude::*;
use vstd::std_specs::convert::FromSpecImpl;

verus! {

/// An identifier, in one of three shapes.
#[derive(Debug)]
pub enum IlgdaId {
    Numeric(u64),
    String(String),
    Bytes(Vec<u8>),
}

impl IlgdaId {
    /// The identifier for a signed number: there is one for every number
    /// that is not negative.
    pub fn from_signed(v: i64) -> (id: Option<IlgdaId>)
        ensures
            v >= 0 ==> id == Some(IlgdaId::Numeric(v as u64)),
            v < 0 ==> id is None,
    {
        if v >= 0 {
            Some(IlgdaId::Numeric(v as u64))
        } else {
            None
        }
    }

    /// The number, if the identifier is one.
    pub fn as_number(&self) -> (n: Option<u64>)
        ensures
            n == (match *self {
                IlgdaId::Numeric(v) => Some(v),
                _ => None,
            }),
    {
        match self {
            IlgdaId::Numeric(v) => Some(*v),
            _ => None,
        }
    }

    /// The text, if the identifier is one.
    pub fn as_text(&self) -> (s: Option<&str>)
        ensures
            match *self {
                IlgdaId::String(text) => s matches Some(t) && t@ == text@,
                _ => s is None,
            },
    {
        match self {
            IlgdaId::String(text) => Some(text.as_str()),
            _ => None,
        }
    }

    /// The bytes, if the identifier is a run of bytes.
    pub fn as_bytes(&self) -> (b: Option<&[u8]>)
        ensures
            match *self {
                IlgdaId::Bytes(bytes) => b matches Some(run) && run@ == bytes@,
                _ => b is None,
            },
    {
        match self {
            IlgdaId::Bytes(bytes) => Some(bytes.as_slice()),
            _ => None,
        }
    }
}

impl From<u64> for IlgdaId {
    fn from(value: u64) -> (id: IlgdaId) {
        IlgdaId::Numeric(value)
    }
}

impl FromSpecImpl<u64> for IlgdaId {
    open spec fn obeys_from_spec() -> bool {
        true
    }

    open spec fn from_spec(value: u64) -> IlgdaId {
        IlgdaId::Numeric(value)
    }
}

impl From<u32> for IlgdaId {
    fn from(value: u32) -> (id: IlgdaId) {
        IlgdaId::Numeric(value as u64)
    }
}

impl FromSpecImpl<u32> for IlgdaId {
    open spec fn obeys_from_spec() -> bool {
        true
    }

    open spec fn from_spec(value: u32) -> IlgdaId {
        IlgdaId::Numeric(value as u64)
    }
}

impl From<u16> for IlgdaId {
    fn from(value: u16) -> (id: IlgdaId) {
        IlgdaId::Numeric(value as u64)
    }
}

impl FromSpecImpl<u16> for IlgdaId {
    open spec fn obeys_from_spec() -> bool {
        true
    }

    open spec fn from_spec(value: u16) -> IlgdaId {
        IlgdaId::Numeric(value as u64)
    }
}

impl From<u8> for IlgdaId {
    fn from(value: u8) -> (id: IlgdaId) {
        IlgdaId::Numeric(value as u64)
    }
}

impl FromSpecImpl<u8> for IlgdaId {
    open spec fn obeys_from_spec() -> bool {
        true
    }

    open spec fn from_spec(value: u8) -> IlgdaId {
        IlgdaId::Numeric(value as u64)
    }
}

impl From<String> for IlgdaId {
    fn from(value: String) -> (id: IlgdaId) {
        IlgdaId::String(value)
    }
}

impl FromSpecImpl<String> for IlgdaId {
    open spec fn obeys_from_spec() -> bool {
        true
    }

    open spec fn from_spec(value: String) -> IlgdaId {
        IlgdaId::String(value)
    }
}

impl From<Vec<u8>> for IlgdaId {
    fn from(value: Vec<u8>) -> (id: IlgdaId) {
        IlgdaId::Bytes(value)
    }
}

impl FromSpecImpl<Vec<u8>> for IlgdaId {
    open spec fn obeys_from_spec() -> bool {
        true
    }

    open spec fn from_spec(value: Vec<u8>) -> IlgdaId {
        IlgdaId::Bytes(value)
    }
}

} // verus!
