//! Values that a blocking stream reads and writes in one call.

use vstd::prelude::*;
use crate::blocking::{read_result, write_result, IpcStream};
use crate::error::Error;
use crate::order::ByteOrder;
use crate::serde::{AsyncDe, AsyncSer, DecodeState, Parsed};

verus! {

/// A type whose values a blocking stream writes and reads.
///
/// Every type with an encode stage and a decode stage is one: its value is
/// written by one run of the encode stage and read by one run of the decode
/// stage.
pub trait BlockingSerde<'a, R, W> {
    /// What a read yields.
    type Owned;

    /// The mathematical value that a read item stands for.
    type Model;

    /// The bytes of the value on the wire, in the given order.
    spec fn wire_image(&self, order: ByteOrder) -> Seq<u8>;

    /// What `input` amounts to, read from the start.
    spec fn wire_parse(input: Seq<u8>, order: ByteOrder) -> Parsed<Self::Model>;

    spec fn item_model(item: Self::Owned) -> Self::Model;

    /// Writes the value to the write half of `stream`.
    fn write_to(&'a self, stream: &mut IpcStream<R, W>) -> (result: Result<(), Error>)
        ensures
            write_result(
                self.wire_image(old(stream).output()@.order),
                old(stream).output()@,
                final(stream).output()@,
                result,
            ),
            final(stream).output().endpoint_spec() == old(stream).output().endpoint_spec(),
            final(stream).input() == old(stream).input(),
    ;

    /// Reads one value from the read half of `stream`.
    fn from_reader(stream: &mut IpcStream<R, W>) -> (result: Result<Self::Owned, Error>)
        ensures
            read_result(
                Self::wire_parse(old(stream).input()@.bytes, old(stream).input()@.order),
                |item: Self::Owned| Self::item_model(item),
                old(stream).input()@,
                final(stream).input()@,
                result,
            ),
            final(stream).input().endpoint_spec() == old(stream).input().endpoint_spec(),
            final(stream).output() == old(stream).output(),
    ;
}

impl<'a, R, W, T: AsyncSer<'a, W> + AsyncDe<R> + ?Sized> BlockingSerde<'a, R, W> for T {
    type Owned = <T as AsyncDe<R>>::Owned;

    type Model = <<T as AsyncDe<R>>::DeserializeStage as DecodeState<
        <T as AsyncDe<R>>::Owned,
    >>::Model;

    open spec fn wire_image(&self, order: ByteOrder) -> Seq<u8> {
        self.wire(order)
    }

    open spec fn wire_parse(input: Seq<u8>, order: ByteOrder) -> Parsed<Self::Model> {
        <T as AsyncDe<R>>::DeserializeStage::parse(input, order)
    }

    open spec fn item_model(item: <T as AsyncDe<R>>::Owned) -> Self::Model {
        <T as AsyncDe<R>>::DeserializeStage::model(&item)
    }

    fn write_to(&'a self, stream: &mut IpcStream<R, W>) -> (result: Result<(), Error>) {
        stream.write_value::<T>(self)
    }

    fn from_reader(stream: &mut IpcStream<R, W>) -> (result: Result<
        <T as AsyncDe<R>>::Owned,
        Error,
    >) {
        stream.read_value::<T>()
    }
}

} // verus!
