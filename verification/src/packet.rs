//! Gossip packets and their two wire formats.
use crate::network::NodeId;
use crate::order::{is_nan_bits, nan_bits, MarketId, Order, Side};
use bincode::config::Configuration;
use vstd::bytes::*;
use vstd::prelude::*;

verus! {

/// Unique identifier of an injected packet; the sole key nodes deduplicate by.
#[derive(Debug, Clone, Copy, Hash, PartialEq, Eq, Structural)]
pub struct PacketId(pub u64);

impl PacketId {
    pub fn new(id: u64) -> (packet_id: Self)
        ensures
            packet_id == PacketId(id),
    {
        Self(id)
    }
}

/// A packet as it travels between nodes.
#[derive(Debug, Clone)]
pub struct SerialiedPacket(pub Vec<u8>);

impl View for SerialiedPacket {
    type V = Seq<u8>;

    open spec fn view(&self) -> Seq<u8> {
        self.0@
    }
}

/// A message on its way through the network. `source_id` names the node that
/// sent it on this hop, not the node it was injected at.
#[derive(Debug, Clone, Copy, PartialEq, Eq, Structural)]
pub struct GossipPacket {
    pub id: PacketId,
    pub source_id: NodeId,
    pub ttl: u64,
    pub order: Order,
}

/// The number under which a market goes on the wire.
pub open spec fn market_tag(market: MarketId) -> u8 {
    0
}

/// The number under which a side goes on the wire.
pub open spec fn side_tag(side: Side) -> u8 {
    match side {
        Side::Bid => 0,
        Side::Ask => 1,
    }
}

/// The packet that eight wire values stand for, if the two tags are known.
pub open spec fn assemble(
    id: u64,
    source: u64,
    ttl: u64,
    order_id: u64,
    market: u32,
    side: u32,
    price_bits: u64,
    quantity_bits: u64,
) -> Option<GossipPacket> {
    if market != 0 || side > 1 {
        None
    } else {
        Some(
            GossipPacket {
                id: PacketId(id),
                source_id: NodeId(source),
                ttl,
                order: Order {
                    id: order_id,
                    market: MarketId::SolUsd,
                    side: if side == 0 {
                        Side::Bid
                    } else {
                        Side::Ask
                    },
                    price_bits,
                    quantity_bits,
                },
            },
        )
    }
}

/// Fifty bytes: four little-endian 64-bit numbers, the two tags, and two more
/// little-endian 64-bit numbers.
pub open spec fn borsh_layout(
    id: u64,
    source: u64,
    ttl: u64,
    order_id: u64,
    market: u8,
    side: u8,
    price_bits: u64,
    quantity_bits: u64,
) -> Seq<u8> {
    spec_u64_to_le_bytes(id) + spec_u64_to_le_bytes(source) + spec_u64_to_le_bytes(ttl)
        + spec_u64_to_le_bytes(order_id) + seq![market, side] + spec_u64_to_le_bytes(price_bits)
        + spec_u64_to_le_bytes(quantity_bits)
}

/// The Borsh form of a packet.
pub open spec fn borsh_encoding(packet: GossipPacket) -> Seq<u8> {
    borsh_layout(
        packet.id.0,
        packet.source_id.0,
        packet.ttl,
        packet.order.id,
        market_tag(packet.order.market),
        side_tag(packet.order.side),
        packet.order.price_bits,
        packet.order.quantity_bits,
    )
}

/// The packet that a byte string stands for in Borsh form: the string has
/// exactly fifty bytes, both tags are known, and neither price nor quantity
/// is "not a number".
pub open spec fn borsh_decoding(bytes: Seq<u8>) -> Option<GossipPacket> {
    if bytes.len() != 50 {
        None
    } else {
        match assemble(
            spec_u64_from_le_bytes(bytes.subrange(0, 8)),
            spec_u64_from_le_bytes(bytes.subrange(8, 16)),
            spec_u64_from_le_bytes(bytes.subrange(16, 24)),
            spec_u64_from_le_bytes(bytes.subrange(24, 32)),
            bytes[32] as u32,
            bytes[33] as u32,
            spec_u64_from_le_bytes(bytes.subrange(34, 42)),
            spec_u64_from_le_bytes(bytes.subrange(42, 50)),
        ) {
            Some(packet) => if packet.order.is_numeric() {
                Some(packet)
            } else {
                None
            },
            None => None,
        }
    }
}

/// The bytes that bincode's standard configuration writes for eight values:
/// six integers in its variable-length form, then the two bit patterns as
/// eight bytes each.
pub uninterp spec fn bincode_layout(
    id: u64,
    source: u64,
    ttl: u64,
    order_id: u64,
    market: u32,
    side: u32,
    price_bits: u64,
    quantity_bits: u64,
) -> Seq<u8>;

/// The eight values that bincode's standard configuration reads from the
/// front of a byte string, if it can.
pub uninterp spec fn bincode_parse(bytes: Seq<u8>) -> Option<
    (u64, u64, u64, u64, u32, u32, u64, u64),
>;

/// The bincode form of a packet.
pub open spec fn bincode_encoding(packet: GossipPacket) -> Seq<u8> {
    bincode_layout(
        packet.id.0,
        packet.source_id.0,
        packet.ttl,
        packet.order.id,
        market_tag(packet.order.market) as u32,
        side_tag(packet.order.side) as u32,
        packet.order.price_bits,
        packet.order.quantity_bits,
    )
}

/// The packet that a byte string stands for in bincode form.
pub open spec fn bincode_decoding(bytes: Seq<u8>) -> Option<GossipPacket> {
    match bincode_parse(bytes) {
        Some(fields) => assemble(
            fields.0,
            fields.1,
            fields.2,
            fields.3,
            fields.4,
            fields.5,
            fields.6,
            fields.7,
        ),
        None => None,
    }
}

/// The lengths and places of the parts of a Borsh layout.
pub proof fn lemma_borsh_layout_parts(
    id: u64,
    source: u64,
    ttl: u64,
    order_id: u64,
    market: u8,
    side: u8,
    price_bits: u64,
    quantity_bits: u64,
)
    ensures
        ({
            let bytes = borsh_layout(
                id,
                source,
                ttl,
                order_id,
                market,
                side,
                price_bits,
                quantity_bits,
            );
            &&& bytes.len() == 50
            &&& bytes.subrange(0, 8) == spec_u64_to_le_bytes(id)
            &&& bytes.subrange(8, 16) == spec_u64_to_le_bytes(source)
            &&& bytes.subrange(16, 24) == spec_u64_to_le_bytes(ttl)
            &&& bytes.subrange(24, 32) == spec_u64_to_le_bytes(order_id)
            &&& bytes[32] == market
            &&& bytes[33] == side
            &&& bytes.subrange(34, 42) == spec_u64_to_le_bytes(price_bits)
            &&& bytes.subrange(42, 50) == spec_u64_to_le_bytes(quantity_bits)
        }),
{
    lemma_auto_spec_u64_to_from_le_bytes();
    let bytes = borsh_layout(id, source, ttl, order_id, market, side, price_bits, quantity_bits);
    assert(bytes.len() == 50);
    assert(bytes.subrange(0, 8) =~= spec_u64_to_le_bytes(id));
    assert(bytes.subrange(8, 16) =~= spec_u64_to_le_bytes(source));
    assert(bytes.subrange(16, 24) =~= spec_u64_to_le_bytes(ttl));
    assert(bytes.subrange(24, 32) =~= spec_u64_to_le_bytes(order_id));
    assert(bytes.subrange(34, 42) =~= spec_u64_to_le_bytes(price_bits));
    assert(bytes.subrange(42, 50) =~= spec_u64_to_le_bytes(quantity_bits));
}

/// Decoding the Borsh form of a packet gives the packet back, whenever the
/// packet has a Borsh form at all.
pub proof fn lemma_borsh_round_trip(packet: GossipPacket)
    requires
        packet.order.is_numeric(),
    ensures
        borsh_decoding(borsh_encoding(packet)) == Some(packet),
{
    lemma_auto_spec_u64_to_from_le_bytes();
    lemma_borsh_layout_parts(
        packet.id.0,
        packet.source_id.0,
        packet.ttl,
        packet.order.id,
        market_tag(packet.order.market),
        side_tag(packet.order.side),
        packet.order.price_bits,
        packet.order.quantity_bits,
    );
}

#[verifier::external_type_specification]
#[verifier::external_body]
#[verifier::reject_recursive_types(E)]
#[verifier::reject_recursive_types(I)]
#[verifier::reject_recursive_types(L)]
pub struct ExConfiguration<E, I, L>(bincode::config::Configuration<E, I, L>);

#[verifier::external_type_specification]
#[verifier::external_body]
pub struct ExLittleEndian(bincode::config::LittleEndian);

#[verifier::external_type_specification]
#[verifier::external_body]
pub struct ExVarint(bincode::config::Varint);

#[verifier::external_type_specification]
#[verifier::external_body]
pub struct ExNoLimit(bincode::config::NoLimit);

/// Calls `borsh::to_vec` on a tuple of six integers and two bit patterns.
/// Borsh writes a tuple field by field, a `u64` as its eight little-endian
/// bytes and a `u8` as itself, and writing into a vector cannot fail: the
/// contract claims exactly that layout.
#[verifier::external_body]
fn borsh_to_vec(
    id: u64,
    source: u64,
    ttl: u64,
    order_id: u64,
    market: u8,
    side: u8,
    price_bits: u64,
    quantity_bits: u64,
) -> (bytes: Vec<u8>)
    ensures
        bytes@ == borsh_layout(id, source, ttl, order_id, market, side, price_bits, quantity_bits),
{
    borsh::to_vec(&(id, source, ttl, order_id, market, side, price_bits, quantity_bits)).unwrap()
}

/// Calls `borsh::from_slice` for a tuple of six integers and two bit
/// patterns. Borsh reads the fields in order, eight little-endian bytes for a
/// `u64` and one byte for a `u8`, and fails unless the input ends with the
/// last field: the contract claims that a value comes back for inputs of
/// fifty bytes and no others, and that the input is the layout of that value.
#[verifier::external_body]
fn borsh_from_slice(bytes: &Vec<u8>) -> (fields: Option<(u64, u64, u64, u64, u8, u8, u64, u64)>)
    ensures
        fields is Some <==> bytes@.len() == 50,
        fields matches Some(f) ==> bytes@ == borsh_layout(f.0, f.1, f.2, f.3, f.4, f.5, f.6, f.7),
{
    borsh::from_slice::<(u64, u64, u64, u64, u8, u8, u64, u64)>(bytes.as_slice()).ok()
}

/// Calls `bincode::encode_to_vec` on a tuple of six integers and two byte
/// arrays that hold the bit patterns in little-endian order. The type of the
/// configuration fixes the format, so the bytes depend on the eight values
/// alone; the contract names them, and claims that `bincode_parse` reads the
/// same eight values back from them.
#[verifier::external_body]
fn bincode_encode(
    id: u64,
    source: u64,
    ttl: u64,
    order_id: u64,
    market: u32,
    side: u32,
    price_bits: u64,
    quantity_bits: u64,
    config: Configuration,
) -> (bytes: Vec<u8>)
    ensures
        bytes@ == bincode_layout(id, source, ttl, order_id, market, side, price_bits, quantity_bits),
        bincode_parse(bytes@) == Some(
            (id, source, ttl, order_id, market, side, price_bits, quantity_bits),
        ),
{
    let price = price_bits.to_le_bytes();
    let quantity = quantity_bits.to_le_bytes();
    bincode::encode_to_vec((id, source, ttl, order_id, market, side, price, quantity), config).unwrap()
}

/// Calls `bincode::decode_from_slice` for a tuple of six integers and two
/// byte arrays, and reads the arrays as little-endian bit patterns. The
/// call reads from the front of the input and does not mind what follows the
/// last field. The type of the configuration fixes the format, so the
/// outcome depends on the bytes alone; the contract names it.
#[verifier::external_body]
fn bincode_decode(bytes: &Vec<u8>, config: Configuration) -> (fields: Option<
    (u64, u64, u64, u64, u32, u32, u64, u64),
>)
    ensures
        fields == bincode_parse(bytes@),
{
    match bincode::decode_from_slice::<(u64, u64, u64, u64, u32, u32, [u8; 8], [u8; 8]), Configuration>(
        bytes.as_slice(),
        config,
    ) {
        Ok((f, _)) => Some(
            (f.0, f.1, f.2, f.3, f.4, f.5, u64::from_le_bytes(f.6), u64::from_le_bytes(f.7)),
        ),
        Err(_) => None,
    }
}

fn market_number(market: MarketId) -> (tag: u8)
    ensures
        tag == market_tag(market),
{
    match market {
        MarketId::SolUsd => 0,
    }
}

fn side_number(side: Side) -> (tag: u8)
    ensures
        tag == side_tag(side),
{
    match side {
        Side::Bid => 0,
        Side::Ask => 1,
    }
}

impl SerialiedPacket {
    /// Reads a packet in bincode form; `None` where the bytes hold none.
    pub fn try_bincode_deserialize(&self, config: Configuration) -> (packet: Option<GossipPacket>)
        ensures
            packet == bincode_decoding(self@),
    {
        match bincode_decode(&self.0, config) {
            Some(f) => {
                if GossipPacket::from_wire(f.0, f.1, f.2, f.3, f.4, f.5, f.6, f.7).is_some() {
                    Some(self.bincode_deserialize(config))
                } else {
                    None
                }
            },
            None => None,
        }
    }

    /// Reads a packet in bincode form.
    pub fn bincode_deserialize(&self, config: Configuration) -> (packet: GossipPacket)
        requires
            bincode_decoding(self@) is Some,
        ensures
            Some(packet) == bincode_decoding(self@),
    {
        match bincode_decode(&self.0, config) {
            Some(f) => {
                match GossipPacket::from_wire(f.0, f.1, f.2, f.3, f.4, f.5, f.6, f.7) {
                    Some(packet) => packet,
                    None => unreached(),
                }
            },
            None => unreached(),
        }
    }

    /// Reads a packet in Borsh form; `None` where the bytes hold none.
    pub fn try_borsh_deserialize(&self) -> (packet: Option<GossipPacket>)
        ensures
            packet == borsh_decoding(self@),
    {
        match borsh_from_slice(&self.0) {
            Some(f) => {
                proof {
                    lemma_auto_spec_u64_to_from_le_bytes();
                    lemma_borsh_layout_parts(f.0, f.1, f.2, f.3, f.4, f.5, f.6, f.7);
                }
                match GossipPacket::from_wire(
                    f.0,
                    f.1,
                    f.2,
                    f.3,
                    f.4 as u32,
                    f.5 as u32,
                    f.6,
                    f.7,
                ) {
                    Some(packet) => {
                        if nan_bits(packet.order.price_bits) || nan_bits(
                            packet.order.quantity_bits,
                        ) {
                            None
                        } else {
                            Some(packet)
                        }
                    },
                    None => None,
                }
            },
            None => None,
        }
    }

    /// Reads a packet in Borsh form.
    pub fn borsh_deserialize(&self) -> (packet: GossipPacket)
        requires
            borsh_decoding(self@) is Some,
        ensures
            Some(packet) == borsh_decoding(self@),
    {
        match self.try_borsh_deserialize() {
            Some(packet) => packet,
            None => unreached(),
        }
    }
}

impl GossipPacket {
    pub fn new(id: PacketId, source_id: NodeId, ttl: u64, order: Order) -> (packet: Self)
        ensures
            packet == (GossipPacket { id, source_id, ttl, order }),
    {
        Self { id, source_id, ttl, order }
    }

    /// Builds a packet from the eight values of its wire forms; `None` where
    /// a tag names no market or no side.
    pub fn from_wire(
        id: u64,
        source: u64,
        ttl: u64,
        order_id: u64,
        market: u32,
        side: u32,
        price_bits: u64,
        quantity_bits: u64,
    ) -> (packet: Option<Self>)
        ensures
            packet == assemble(id, source, ttl, order_id, market, side, price_bits, quantity_bits),
    {
        if market != 0 || side > 1 {
            None
        } else {
            let side = if side == 0 {
                Side::Bid
            } else {
                Side::Ask
            };
            Some(
                GossipPacket::new(
                    PacketId::new(id),
                    NodeId::new(source),
                    ttl,
                    Order::new(order_id, MarketId::SolUsd, side, price_bits, quantity_bits),
                ),
            )
        }
    }

    /// Writes the packet in bincode form. Reading the bytes gives the packet
    /// back.
    pub fn bincode_serialize(&self, config: Configuration) -> (bytes: SerialiedPacket)
        ensures
            bytes@ == bincode_encoding(*self),
            bincode_decoding(bytes@) == Some(*self),
    {
        SerialiedPacket(
            bincode_encode(
                self.id.0,
                self.source_id.0,
                self.ttl,
                self.order.id,
                market_number(self.order.market) as u32,
                side_number(self.order.side) as u32,
                self.order.price_bits,
                self.order.quantity_bits,
                config,
            ),
        )
    }

    /// Writes the packet in Borsh form, which has no place for "not a
    /// number". Reading the bytes gives the packet back.
    pub fn borsh_serialize(&self) -> (bytes: SerialiedPacket)
        requires
            self.order.is_numeric(),
        ensures
            bytes@ == borsh_encoding(*self),
            borsh_decoding(bytes@) == Some(*self),
    {
        proof {
            lemma_borsh_round_trip(*self);
        }
        SerialiedPacket(
            borsh_to_vec(
                self.id.0,
                self.source_id.0,
                self.ttl,
                self.order.id,
                market_number(self.order.market),
                side_number(self.order.side),
                self.order.price_bits,
                self.order.quantity_bits,
            ),
        )
    }
}

} // verus!
