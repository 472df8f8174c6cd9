// Protocol-style packets whose codecs are written out field by field.
use voidmc::{Decode, DecodeError, Decoder, Encode, VarI32, VarI64};

#[derive(Debug, PartialEq)]
pub struct SimplePacket {
    pub value: u8,
}

impl Encode for SimplePacket {
    fn encode(&self, buf: &mut Vec<u8>) {
        self.value.encode(buf);
    }
}

impl Decode for SimplePacket {
    fn decode_with(decoder: &mut Decoder<'_>) -> Result<Self, DecodeError> {
        let value = decoder.decode::<u8>()?;
        Ok(Self { value })
    }
}

#[test]
fn test_simple() {
    let packet = SimplePacket { value: 42 };

    let mut buf = Vec::new();
    packet.encode(&mut buf);

    assert_eq!(buf, vec![42]);

    let mut slice = buf.as_slice();
    let decoded = SimplePacket::decode(&mut slice).unwrap();

    assert_eq!(decoded, packet);
}

#[derive(Debug, PartialEq)]
pub struct MultiFieldPacket {
    pub a: u8,
    pub b: i32,
    pub c: bool,
}

impl Encode for MultiFieldPacket {
    fn encode(&self, buf: &mut Vec<u8>) {
        self.a.encode(buf);
        self.b.encode(buf);
        self.c.encode(buf);
    }
}

impl Decode for MultiFieldPacket {
    fn decode_with(decoder: &mut Decoder<'_>) -> Result<Self, DecodeError> {
        let a = decoder.decode::<u8>()?;
        let b = decoder.decode::<i32>()?;
        let c = decoder.decode::<bool>()?;
        Ok(Self { a, b, c })
    }
}

#[test]
fn test_multi_field() {
    let packet = MultiFieldPacket {
        a: 255,
        b: 12345,
        c: true,
    };

    let mut buf = Vec::new();
    packet.encode(&mut buf);

    let mut slice = buf.as_slice();
    let decoded = MultiFieldPacket::decode(&mut slice).unwrap();

    assert_eq!(decoded, packet);
}

#[derive(Debug, PartialEq)]
pub struct VarI32Packet {
    pub prefix: u8,
    pub value: i32,
}

impl Encode for VarI32Packet {
    fn encode(&self, buf: &mut Vec<u8>) {
        self.prefix.encode(buf);
        VarI32(self.value).encode(buf);
    }
}

impl Decode for VarI32Packet {
    fn decode_with(decoder: &mut Decoder<'_>) -> Result<Self, DecodeError> {
        let prefix = decoder.decode::<u8>()?;
        let value = decoder.decode::<VarI32>()?.0;
        Ok(Self { prefix, value })
    }
}

#[test]
fn test_vari32_field() {
    let packet = VarI32Packet {
        prefix: 1,
        value: 12345,
    };

    let mut buf = Vec::new();
    packet.encode(&mut buf);

    assert!(buf.len() > 1, "Should have encoded both fields");

    let mut slice = buf.as_slice();
    let decoded = VarI32Packet::decode(&mut slice).unwrap();

    assert_eq!(decoded, packet);
}

#[derive(Debug, PartialEq)]
pub struct Inner {
    pub value: u8,
}

impl Encode for Inner {
    fn encode(&self, buf: &mut Vec<u8>) {
        self.value.encode(buf);
    }
}

impl Decode for Inner {
    fn decode_with(decoder: &mut Decoder<'_>) -> Result<Self, DecodeError> {
        let value = decoder.decode::<u8>()?;
        Ok(Self { value })
    }
}

#[derive(Debug, PartialEq)]
pub struct Nested {
    pub inner: Inner,
    pub extra: i32,
}

impl Encode for Nested {
    fn encode(&self, buf: &mut Vec<u8>) {
        self.inner.encode(buf);
        self.extra.encode(buf);
    }
}

impl Decode for Nested {
    fn decode_with(decoder: &mut Decoder<'_>) -> Result<Self, DecodeError> {
        let inner = decoder.decode::<Inner>()?;
        let extra = decoder.decode::<i32>()?;
        Ok(Self { inner, extra })
    }
}

#[test]
fn integration_test_test_nested_structs() {
    let packet = Nested {
        inner: Inner { value: 42 },
        extra: 12345,
    };

    let mut buf = Vec::new();
    packet.encode(&mut buf);

    let mut slice = buf.as_slice();
    let decoded = Nested::decode(&mut slice).unwrap();

    assert_eq!(decoded, packet);
}

#[derive(Debug, PartialEq)]
pub struct Packet1 {
    pub data: u8,
}

impl Encode for Packet1 {
    fn encode(&self, buf: &mut Vec<u8>) {
        self.data.encode(buf);
    }
}

impl Decode for Packet1 {
    fn decode_with(decoder: &mut Decoder<'_>) -> Result<Self, DecodeError> {
        let data = decoder.decode::<u8>()?;
        Ok(Self { data })
    }
}

#[derive(Debug, PartialEq)]
pub struct Packet2 {
    pub value: i32,
}

impl Encode for Packet2 {
    fn encode(&self, buf: &mut Vec<u8>) {
        self.value.encode(buf);
    }
}

impl Decode for Packet2 {
    fn decode_with(decoder: &mut Decoder<'_>) -> Result<Self, DecodeError> {
        let value = decoder.decode::<i32>()?;
        Ok(Self { value })
    }
}

pub enum StatePacket {
    First(Packet1),
    Second(Packet2),
}

impl Encode for StatePacket {
    fn encode(&self, buf: &mut Vec<u8>) {
        match self {
            StatePacket::First(inner) => {
                0u8.encode(buf);
                inner.encode(buf);
            }
            StatePacket::Second(inner) => {
                1u8.encode(buf);
                inner.encode(buf);
            }
        }
    }
}

impl Decode for StatePacket {
    fn decode_with(decoder: &mut Decoder<'_>) -> Result<Self, DecodeError> {
        let packet_id = decoder.decode::<u8>()?;
        Ok(match packet_id {
            0 => StatePacket::First(decoder.decode::<Packet1>()?),
            1 => StatePacket::Second(decoder.decode::<Packet2>()?),
            _ => return Err(DecodeError::InvalidPacketId(Some(packet_id))),
        })
    }
}

#[test]
fn test_tagged_enum_first() {
    let packet = StatePacket::First(Packet1 { data: 42 });

    let mut buf = Vec::new();
    packet.encode(&mut buf);

    assert_eq!(buf[0], 0, "First variant should have ID 0");

    let mut slice = buf.as_slice();
    let decoded = StatePacket::decode(&mut slice).unwrap();

    match decoded {
        StatePacket::First(p) => assert_eq!(p.data, 42),
        _ => panic!("Wrong variant"),
    }
}

#[test]
fn test_tagged_enum_second() {
    let packet = StatePacket::Second(Packet2 { value: 12345 });

    let mut buf = Vec::new();
    packet.encode(&mut buf);

    assert_eq!(buf[0], 1, "Second variant should have ID 1");

    let mut slice = buf.as_slice();
    let decoded = StatePacket::decode(&mut slice).unwrap();

    match decoded {
        StatePacket::Second(p) => assert_eq!(p.value, 12345),
        _ => panic!("Wrong variant"),
    }
}

#[test]
fn integration_test_test_tagged_enum_invalid_id() {
    let buf = vec![255];
    let mut slice = buf.as_slice();
    let result = StatePacket::decode(&mut slice);

    assert!(result.is_err(), "Should fail with invalid packet ID");
}

#[derive(Debug, PartialEq)]
pub struct MixedPacket {
    pub regular: u8,
    pub compact: i32,
    pub regular2: i32,
    pub compact2: i32,
}

impl Encode for MixedPacket {
    fn encode(&self, buf: &mut Vec<u8>) {
        self.regular.encode(buf);
        VarI32(self.compact).encode(buf);
        self.regular2.encode(buf);
        VarI32(self.compact2).encode(buf);
    }
}

impl Decode for MixedPacket {
    fn decode_with(decoder: &mut Decoder<'_>) -> Result<Self, DecodeError> {
        let regular = decoder.decode::<u8>()?;
        let compact = decoder.decode::<VarI32>()?.0;
        let regular2 = decoder.decode::<i32>()?;
        let compact2 = decoder.decode::<VarI32>()?.0;
        Ok(Self {
            regular,
            compact,
            regular2,
            compact2,
        })
    }
}

#[test]
fn integration_test_test_mixed_vari32_and_regular() {
    let packet = MixedPacket {
        regular: 255,
        compact: 100,
        regular2: 0x12345678,
        compact2: 50000,
    };

    let mut buf = Vec::new();
    packet.encode(&mut buf);

    let mut slice = buf.as_slice();
    let decoded = MixedPacket::decode(&mut slice).unwrap();

    assert_eq!(decoded, packet);
}

#[derive(Debug, PartialEq)]
pub struct UnitStruct;

impl Encode for UnitStruct {
    fn encode(&self, _buf: &mut Vec<u8>) {}
}

impl Decode for UnitStruct {
    fn decode_with(_decoder: &mut Decoder<'_>) -> Result<Self, DecodeError> {
        Ok(Self)
    }
}

#[test]
fn integration_test_test_unit_struct() {
    let packet = UnitStruct;

    let mut buf = Vec::new();
    packet.encode(&mut buf);

    assert_eq!(buf.len(), 0, "Unit struct should encode to nothing");

    let mut slice = buf.as_slice();
    let decoded = UnitStruct::decode(&mut slice).unwrap();

    assert_eq!(decoded, packet);
}

#[derive(Debug, PartialEq)]
pub struct LoginPacket {
    pub username: u8,
}

impl Encode for LoginPacket {
    fn encode(&self, buf: &mut Vec<u8>) {
        self.username.encode(buf);
    }
}

impl Decode for LoginPacket {
    fn decode_with(decoder: &mut Decoder<'_>) -> Result<Self, DecodeError> {
        let username = decoder.decode::<u8>()?;
        Ok(Self { username })
    }
}

#[derive(Debug, PartialEq)]
pub struct PlayPacket {
    pub entity_id: i32,
}

impl Encode for PlayPacket {
    fn encode(&self, buf: &mut Vec<u8>) {
        self.entity_id.encode(buf);
    }
}

impl Decode for PlayPacket {
    fn decode_with(decoder: &mut Decoder<'_>) -> Result<Self, DecodeError> {
        let entity_id = decoder.decode::<i32>()?;
        Ok(Self { entity_id })
    }
}

pub enum ProtocolPacket {
    Login(LoginPacket),
    Play(PlayPacket),
}

impl Encode for ProtocolPacket {
    fn encode(&self, buf: &mut Vec<u8>) {
        match self {
            ProtocolPacket::Login(inner) => {
                0x00u8.encode(buf);
                inner.encode(buf);
            }
            ProtocolPacket::Play(inner) => {
                0x20u8.encode(buf);
                inner.encode(buf);
            }
        }
    }
}

impl Decode for ProtocolPacket {
    fn decode_with(decoder: &mut Decoder<'_>) -> Result<Self, DecodeError> {
        let packet_id = decoder.decode::<u8>()?;
        Ok(match packet_id {
            0x00 => ProtocolPacket::Login(decoder.decode::<LoginPacket>()?),
            0x20 => ProtocolPacket::Play(decoder.decode::<PlayPacket>()?),
            _ => return Err(DecodeError::InvalidPacketId(Some(packet_id))),
        })
    }
}

#[test]
fn test_custom_packet_ids() {
    let packet = ProtocolPacket::Login(LoginPacket { username: 42 });

    let mut buf = Vec::new();
    packet.encode(&mut buf);

    assert_eq!(buf[0], 0x00, "Login should use custom ID 0x00");

    let mut slice = buf.as_slice();
    let decoded = ProtocolPacket::decode(&mut slice).unwrap();

    match decoded {
        ProtocolPacket::Login(p) => assert_eq!(p.username, 42),
        _ => panic!("Wrong variant"),
    }
}

#[test]
fn test_custom_packet_ids_play() {
    let packet = ProtocolPacket::Play(PlayPacket { entity_id: 123 });

    let mut buf = Vec::new();
    packet.encode(&mut buf);

    assert_eq!(buf[0], 0x20, "Play should use custom ID 0x20");

    let mut slice = buf.as_slice();
    let decoded = ProtocolPacket::decode(&mut slice).unwrap();

    match decoded {
        ProtocolPacket::Play(p) => assert_eq!(p.entity_id, 123),
        _ => panic!("Wrong variant"),
    }
}

#[derive(Debug, PartialEq)]
pub struct ChunkData {
    pub chunk_x: i32,
    pub blocks: Vec<u8>,
}

impl Encode for ChunkData {
    fn encode(&self, buf: &mut Vec<u8>) {
        self.chunk_x.encode(buf);
        self.blocks.encode(buf);
    }
}

impl Decode for ChunkData {
    fn decode_with(decoder: &mut Decoder<'_>) -> Result<Self, DecodeError> {
        let chunk_x = decoder.decode::<i32>()?;
        let blocks = decoder.decode::<Vec<u8>>()?;
        Ok(Self { chunk_x, blocks })
    }
}

#[test]
fn test_vec_in_struct() {
    let packet = ChunkData {
        chunk_x: 42,
        blocks: vec![1, 2, 3, 4, 5],
    };

    let mut buf = Vec::new();
    packet.encode(&mut buf);

    let mut slice = buf.as_slice();
    let decoded = ChunkData::decode(&mut slice).unwrap();

    assert_eq!(decoded, packet);
    assert_eq!(decoded.chunk_x, 42);
    assert_eq!(decoded.blocks, vec![1, 2, 3, 4, 5]);
}

#[derive(Debug, PartialEq)]
pub struct EntityList {
    pub entities: Vec<i32>,
}

impl Encode for EntityList {
    fn encode(&self, buf: &mut Vec<u8>) {
        self.entities.encode(buf);
    }
}

impl Decode for EntityList {
    fn decode_with(decoder: &mut Decoder<'_>) -> Result<Self, DecodeError> {
        let entities = decoder.decode::<Vec<i32>>()?;
        Ok(Self { entities })
    }
}

#[test]
fn test_vec_empty_in_struct() {
    let packet = EntityList { entities: vec![] };

    let mut buf = Vec::new();
    packet.encode(&mut buf);

    let mut slice = buf.as_slice();
    let decoded = EntityList::decode(&mut slice).unwrap();

    assert_eq!(decoded.entities.len(), 0);
}

#[derive(Debug, PartialEq)]
pub struct MultipleVecs {
    pub ids: Vec<u8>,
    pub values: Vec<i32>,
    pub flags: Vec<bool>,
}

impl Encode for MultipleVecs {
    fn encode(&self, buf: &mut Vec<u8>) {
        self.ids.encode(buf);
        self.values.encode(buf);
        self.flags.encode(buf);
    }
}

impl Decode for MultipleVecs {
    fn decode_with(decoder: &mut Decoder<'_>) -> Result<Self, DecodeError> {
        let ids = decoder.decode::<Vec<u8>>()?;
        let values = decoder.decode::<Vec<i32>>()?;
        let flags = decoder.decode::<Vec<bool>>()?;
        Ok(Self { ids, values, flags })
    }
}

#[test]
fn test_multiple_vecs_in_struct() {
    let packet = MultipleVecs {
        ids: vec![1, 2, 3],
        values: vec![100, 200, 300],
        flags: vec![true, false, true],
    };

    let mut buf = Vec::new();
    packet.encode(&mut buf);

    let mut slice = buf.as_slice();
    let decoded = MultipleVecs::decode(&mut slice).unwrap();

    assert_eq!(decoded, packet);
}

#[derive(Debug, PartialEq, Clone, Copy)]
pub enum SimpleState {
    Idle,
    Running,
    Paused,
}

impl Encode for SimpleState {
    fn encode(&self, buf: &mut Vec<u8>) {
        let discriminant: u8 = match self {
            SimpleState::Idle => 0,
            SimpleState::Running => 1,
            SimpleState::Paused => 2,
        };
        discriminant.encode(buf);
    }
}

impl Decode for SimpleState {
    fn decode_with(decoder: &mut Decoder<'_>) -> Result<Self, DecodeError> {
        let discriminant = decoder.decode::<u8>()?;
        Ok(match discriminant {
            0 => SimpleState::Idle,
            1 => SimpleState::Running,
            2 => SimpleState::Paused,
            _ => return Err(DecodeError::InvalidPacketId(None)),
        })
    }
}

#[test]
fn integration_test_test_repr_u8_enum() {
    for state in [SimpleState::Idle, SimpleState::Running, SimpleState::Paused] {
        let mut buf = Vec::new();
        state.encode(&mut buf);

        assert_eq!(buf.len(), 1);

        let mut slice = buf.as_slice();
        let decoded = SimpleState::decode(&mut slice).unwrap();

        assert_eq!(decoded, state);
        assert_eq!(slice.len(), 0);
    }
}

#[derive(Debug, PartialEq, Clone, Copy)]
pub enum DetailedStatus {
    Unknown,
    Init,
    Ready,
    Complete,
}

impl Encode for DetailedStatus {
    fn encode(&self, buf: &mut Vec<u8>) {
        let discriminant: i32 = match self {
            DetailedStatus::Unknown => -1,
            DetailedStatus::Init => 0,
            DetailedStatus::Ready => 100,
            DetailedStatus::Complete => 1000,
        };
        discriminant.encode(buf);
    }
}

impl Decode for DetailedStatus {
    fn decode_with(decoder: &mut Decoder<'_>) -> Result<Self, DecodeError> {
        let discriminant = decoder.decode::<i32>()?;
        Ok(match discriminant {
            -1 => DetailedStatus::Unknown,
            0 => DetailedStatus::Init,
            100 => DetailedStatus::Ready,
            1000 => DetailedStatus::Complete,
            _ => return Err(DecodeError::InvalidPacketId(None)),
        })
    }
}

#[test]
fn integration_test_test_repr_i32_enum() {
    let status = DetailedStatus::Complete;

    let mut buf = Vec::new();
    status.encode(&mut buf);

    assert_eq!(buf.len(), 4);

    let mut slice = buf.as_slice();
    let decoded = DetailedStatus::decode(&mut slice).unwrap();

    assert_eq!(decoded, status);
}

#[derive(Debug, PartialEq, Clone, Copy)]
pub enum CompressedState {
    Zero,
    Small,
    Medium,
    Large,
}

impl Encode for CompressedState {
    fn encode(&self, buf: &mut Vec<u8>) {
        let discriminant: i32 = match self {
            CompressedState::Zero => 0,
            CompressedState::Small => 50,
            CompressedState::Medium => 500,
            CompressedState::Large => 50000,
        };
        VarI32(discriminant).encode(buf);
    }
}

impl Decode for CompressedState {
    fn decode_with(decoder: &mut Decoder<'_>) -> Result<Self, DecodeError> {
        let discriminant = decoder.decode::<VarI32>()?.0;
        Ok(match discriminant {
            0 => CompressedState::Zero,
            50 => CompressedState::Small,
            500 => CompressedState::Medium,
            50000 => CompressedState::Large,
            _ => return Err(DecodeError::InvalidPacketId(None)),
        })
    }
}

#[test]
fn test_repr_i32_enum_with_varint32() {
    let mut buf = Vec::new();
    CompressedState::Medium.encode(&mut buf);

    let mut slice = buf.as_slice();
    let decoded = CompressedState::decode(&mut slice).unwrap();

    assert_eq!(decoded, CompressedState::Medium);
    assert!(buf.len() < 4);
}

#[derive(Debug, PartialEq)]
pub struct StatePacketRepr {
    pub state: SimpleState,
    pub counter: u32,
}

impl Encode for StatePacketRepr {
    fn encode(&self, buf: &mut Vec<u8>) {
        self.state.encode(buf);
        self.counter.encode(buf);
    }
}

impl Decode for StatePacketRepr {
    fn decode_with(decoder: &mut Decoder<'_>) -> Result<Self, DecodeError> {
        let state = decoder.decode::<SimpleState>()?;
        let counter = decoder.decode::<u32>()?;
        Ok(Self { state, counter })
    }
}

#[test]
fn test_struct_with_repr_enum_field() {
    let packet = StatePacketRepr {
        state: SimpleState::Running,
        counter: 12345,
    };

    let mut buf = Vec::new();
    packet.encode(&mut buf);

    let mut slice = buf.as_slice();
    let decoded = StatePacketRepr::decode(&mut slice).unwrap();

    assert_eq!(decoded, packet);
}

#[derive(Debug, PartialEq)]
pub enum CompressedLongState {
    Zero,
    Small,
    Medium,
    Large,
}

impl Encode for CompressedLongState {
    fn encode(&self, buf: &mut Vec<u8>) {
        let discriminant: i64 = match self {
            CompressedLongState::Zero => 0,
            CompressedLongState::Small => 100,
            CompressedLongState::Medium => 10000,
            CompressedLongState::Large => 1000000,
        };
        VarI64(discriminant).encode(buf);
    }
}

impl Decode for CompressedLongState {
    fn decode_with(decoder: &mut Decoder<'_>) -> Result<Self, DecodeError> {
        let discriminant = decoder.decode::<VarI64>()?.0;
        Ok(match discriminant {
            0 => CompressedLongState::Zero,
            100 => CompressedLongState::Small,
            10000 => CompressedLongState::Medium,
            1000000 => CompressedLongState::Large,
            _ => return Err(DecodeError::InvalidPacketId(None)),
        })
    }
}

#[test]
fn test_repr_i64_enum_with_varint64() {
    let mut buf = Vec::new();
    CompressedLongState::Large.encode(&mut buf);

    let mut slice = buf.as_slice();
    let decoded = CompressedLongState::decode(&mut slice).unwrap();

    assert_eq!(decoded, CompressedLongState::Large);
    assert!(buf.len() < 8);
}

#[derive(Debug, PartialEq)]
pub struct PacketWithVarI64 {
    pub long_value: i64,
    pub id: u32,
}

impl Encode for PacketWithVarI64 {
    fn encode(&self, buf: &mut Vec<u8>) {
        VarI64(self.long_value).encode(buf);
        self.id.encode(buf);
    }
}

impl Decode for PacketWithVarI64 {
    fn decode_with(decoder: &mut Decoder<'_>) -> Result<Self, DecodeError> {
        let long_value = decoder.decode::<VarI64>()?.0;
        let id = decoder.decode::<u32>()?;
        Ok(Self { long_value, id })
    }
}

#[test]
fn test_struct_field_with_varint64() {
    let packet = PacketWithVarI64 {
        long_value: 1000000000000i64,
        id: 42,
    };

    let mut buf = Vec::new();
    packet.encode(&mut buf);

    let mut slice = buf.as_slice();
    let decoded = PacketWithVarI64::decode(&mut slice).unwrap();

    assert_eq!(decoded, packet);
    assert!(buf.len() < 12);
}
