//! The payload that travels with a gossip packet.
use vstd::prelude::*;

verus! {

/// The market an order is placed on.
#[derive(Debug, Clone, Copy, PartialEq, Eq, Structural)]
pub enum MarketId {
    SolUsd,
}

/// The side of the book an order is placed on.
#[derive(Debug, Clone, Copy, PartialEq, Eq, Structural)]
pub enum Side {
    Bid,
    Ask,
}

/// A simple place-order record. Price and quantity are carried as the bit
/// patterns of 64-bit IEEE-754 numbers; the engine never looks inside them.
#[derive(Debug, Clone, Copy, PartialEq, Eq, Structural)]
pub struct Order {
    pub id: u64,
    pub market: MarketId,
    pub side: Side,
    pub price_bits: u64,
    pub quantity_bits: u64,
}

/// Whether a bit pattern stands for "not a number": all exponent bits set
/// and a fraction other than zero.
pub open spec fn is_nan_bits(bits: u64) -> bool {
    bits & 0x7fff_ffff_ffff_ffff > 0x7ff0_0000_0000_0000
}

/// Tells whether a bit pattern stands for "not a number".
pub fn nan_bits(bits: u64) -> (nan: bool)
    ensures
        nan == is_nan_bits(bits),
{
    bits & 0x7fff_ffff_ffff_ffff > 0x7ff0_0000_0000_0000
}

impl Order {
    pub fn new(id: u64, market: MarketId, side: Side, price_bits: u64, quantity_bits: u64) -> (order:
        Self)
        ensures
            order == (Order { id, market, side, price_bits, quantity_bits }),
    {
        Self { id, market, side, price_bits, quantity_bits }
    }

    /// Neither the price nor the quantity is "not a number".
    pub open spec fn is_numeric(self) -> bool {
        !is_nan_bits(self.price_bits) && !is_nan_bits(self.quantity_bits)
    }
}

} // verus!
