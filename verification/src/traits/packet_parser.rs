use vstd::prelude::*;

verus! {

/// A bidirectional mapping between raw bytes and typed values, including any
/// buffering that framing needs across calls.
///
/// The behaviour of an implementation is pinned down by three specification
/// functions.  `encoding` gives the wire bytes of one value.  Decoding is a
/// step over the accumulated input (the bytes retained from earlier calls
/// followed by the new chunk): `extract_value` says which value, if any, the
/// step produces, and `extract_rest` which bytes it retains for later calls.
/// Producing `None` means incomplete or intentionally discarded input, not an
/// error, and a value is never re-emitted: the bytes a value consumed never
/// stay in `buffered`.
pub trait PacketParser<T: View>: Sized {
    /// Bytes fed in earlier that no produced value has consumed yet.
    spec fn buffered(&self) -> Seq<u8>;

    /// The wire bytes of one value: pure, deterministic serialization.
    spec fn encoding(v: T::V) -> Seq<u8>;

    /// The bytes that one decode step over the accumulated input `s` retains.
    spec fn extract_rest(s: Seq<u8>) -> Seq<u8>;

    /// The value, if any, that one decode step over the accumulated input `s`
    /// produces.
    spec fn extract_value(s: Seq<u8>) -> Option<T::V>;

    /// A fresh parser holds no buffered bytes.
    fn new() -> (r: Self)
        ensures
            r.buffered() == Seq::<u8>::empty(),
    ;

    /// An independent parser with the same buffering state.
    fn clone_inner(&self) -> (r: Self)
        ensures
            r.buffered() == self.buffered(),
    ;

    /// Consume one chunk of raw bytes and produce at most one value.
    fn parse_from_bytes(&mut self, data: &[u8]) -> (r: Option<T>)
        ensures
            final(self).buffered() == Self::extract_rest(old(self).buffered() + data@),
            match r {
                Some(v) => Self::extract_value(old(self).buffered() + data@) == Some(v@),
                None => Self::extract_value(old(self).buffered() + data@) is None,
            },
    ;

    /// Serialize one value; the decoding buffer is left alone.
    fn parse_to_bytes(&mut self, data: &T) -> (r: Vec<u8>)
        ensures
            r@ == Self::encoding(data@),
            final(self).buffered() == old(self).buffered(),
    ;
}

} // verus!
