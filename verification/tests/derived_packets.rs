// Packet types whose codecs are written by hand against the library's
// traits: structs encode their fields in order, tagged enums lead with a
// one-byte packet id, repr enums write their discriminant.
use voidmc::{
    decode_fixed_length_vec, decode_fixed_length_vec_u8, encode_fixed_length_vec, decode_remaining_vec_u8, encode_fixed_length_vec_u8,
    encode_remaining_vec_u8, Decode, DecodeError, Decoder, Encode, VarI32,
};

fn fixed_len_u32(value: u32) -> Result<usize, DecodeError> {
    usize::try_from(value).map_err(|_| DecodeError::InvalidLength)
}

fn fixed_len_product(a: u32, b: u32) -> Result<usize, DecodeError> {
    a.checked_mul(b)
        .ok_or(DecodeError::InvalidLength)
        .and_then(fixed_len_u32)
}

fn encode_fixed_bytes(data: &[u8], expected_len: usize, buf: &mut Vec<u8>) {
    match encode_fixed_length_vec_u8(data, expected_len, buf) {
        Ok(_) => {}
        Err(e) => panic!("{}", e),
    }
}

#[derive(PartialEq, Debug)]
pub struct MixedFieldsPacket {
    pub a: u8,
    pub b: i32,
    pub c: bool,
}

impl Encode for MixedFieldsPacket {
    fn encode(&self, buf: &mut Vec<u8>) {
        self.a.encode(buf);
        self.b.encode(buf);
        self.c.encode(buf);
    }
}

impl Decode for MixedFieldsPacket {
    fn decode_with(decoder: &mut Decoder<'_>) -> Result<Self, DecodeError> {
        let a = decoder.decode::<u8>()?;
        let b = decoder.decode::<i32>()?;
        let c = decoder.decode::<bool>()?;
        Ok(Self { a, b, c })
    }
}

#[test]
fn test_struct_with_mixed_fields() {
    let packet = MixedFieldsPacket {
        a: 42,
        b: 12345,
        c: true,
    };

    let mut buf = Vec::new();
    packet.encode(&mut buf);

    let mut slice = buf.as_slice();
    let decoded = MixedFieldsPacket::decode(&mut slice).unwrap();

    assert_eq!(decoded, packet);
    assert_eq!(slice.len(), 0);
}

#[derive(PartialEq, Debug)]
pub struct VarPacket {
    pub prefix: u8,
    pub value: i32,
}

impl Encode for VarPacket {
    fn encode(&self, buf: &mut Vec<u8>) {
        self.prefix.encode(buf);
        VarI32(self.value).encode(buf);
    }
}

impl Decode for VarPacket {
    fn decode_with(decoder: &mut Decoder<'_>) -> Result<Self, DecodeError> {
        let prefix = decoder.decode::<u8>()?;
        let value = decoder.decode::<VarI32>()?.0;
        Ok(Self { prefix, value })
    }
}

#[test]
fn test_struct_with_vari32() {
    let packet = VarPacket {
        prefix: 1,
        value: 12345,
    };

    let mut buf = Vec::new();
    packet.encode(&mut buf);

    let mut slice = buf.as_slice();
    let decoded = VarPacket::decode(&mut slice).unwrap();

    assert_eq!(decoded, packet);
    assert_eq!(slice.len(), 0);
}

#[derive(PartialEq, Debug)]
pub struct SingleVarPacket {
    pub value: i32,
}

impl Encode for SingleVarPacket {
    fn encode(&self, buf: &mut Vec<u8>) {
        VarI32(self.value).encode(buf);
    }
}

impl Decode for SingleVarPacket {
    fn decode_with(decoder: &mut Decoder<'_>) -> Result<Self, DecodeError> {
        let value = decoder.decode::<VarI32>()?.0;
        Ok(Self { value })
    }
}

#[test]
fn test_struct_with_vari32_compression() {
    let packet = SingleVarPacket { value: 100 };

    let mut buf = Vec::new();
    packet.encode(&mut buf);

    let small_vari_size = buf.len();

    let packet2 = SingleVarPacket { value: i32::MAX };

    let mut buf2 = Vec::new();
    packet2.encode(&mut buf2);

    let large_vari_size = buf2.len();

    assert!(small_vari_size < large_vari_size);
    assert_eq!(small_vari_size, 1);
    assert_eq!(large_vari_size, 5);
}

#[test]
fn test_large_varint() {
    let packet = SingleVarPacket { value: 268435455 };

    let mut buf = Vec::new();
    packet.encode(&mut buf);

    assert_eq!(buf.len(), 4);

    let mut slice = buf.as_slice();
    let decoded = SingleVarPacket::decode(&mut slice).unwrap();

    assert_eq!(decoded, packet);
}

#[derive(PartialEq, Debug)]
pub struct DataPacket {
    pub data: u8,
}

impl Encode for DataPacket {
    fn encode(&self, buf: &mut Vec<u8>) {
        self.data.encode(buf);
    }
}

impl Decode for DataPacket {
    fn decode_with(decoder: &mut Decoder<'_>) -> Result<Self, DecodeError> {
        let data = decoder.decode::<u8>()?;
        Ok(Self { data })
    }
}

#[derive(PartialEq, Debug)]
pub struct ValuePacket {
    pub value: i32,
}

impl Encode for ValuePacket {
    fn encode(&self, buf: &mut Vec<u8>) {
        self.value.encode(buf);
    }
}

impl Decode for ValuePacket {
    fn decode_with(decoder: &mut Decoder<'_>) -> Result<Self, DecodeError> {
        let value = decoder.decode::<i32>()?;
        Ok(Self { value })
    }
}

pub enum TwoStatePacket {
    First(DataPacket),
    Second(ValuePacket),
}

impl Encode for TwoStatePacket {
    fn encode(&self, buf: &mut Vec<u8>) {
        match self {
            TwoStatePacket::First(inner) => {
                0u8.encode(buf);
                inner.encode(buf);
            }
            TwoStatePacket::Second(inner) => {
                1u8.encode(buf);
                inner.encode(buf);
            }
        }
    }
}

impl Decode for TwoStatePacket {
    fn decode_with(decoder: &mut Decoder<'_>) -> Result<Self, DecodeError> {
        let packet_id = decoder.decode::<u8>()?;
        Ok(match packet_id {
            0 => TwoStatePacket::First(decoder.decode::<DataPacket>()?),
            1 => TwoStatePacket::Second(decoder.decode::<ValuePacket>()?),
            _ => return Err(DecodeError::InvalidPacketId(Some(packet_id))),
        })
    }
}

#[test]
fn test_tagged_enum() {
    let packet = TwoStatePacket::First(DataPacket { data: 42 });

    let mut buf = Vec::new();
    packet.encode(&mut buf);

    assert_eq!(buf[0], 0);

    let mut slice = buf.as_slice();
    let decoded = TwoStatePacket::decode(&mut slice).unwrap();

    match decoded {
        TwoStatePacket::First(p) => assert_eq!(p.data, 42),
        _ => panic!("Wrong variant"),
    }
}

#[test]
fn test_tagged_enum_second_variant() {
    let packet = TwoStatePacket::Second(ValuePacket { value: 12345 });

    let mut buf = Vec::new();
    packet.encode(&mut buf);

    assert_eq!(buf[0], 1);

    let mut slice = buf.as_slice();
    let decoded = TwoStatePacket::decode(&mut slice).unwrap();

    match decoded {
        TwoStatePacket::Second(p) => assert_eq!(p.value, 12345),
        _ => panic!("Wrong variant"),
    }
}

#[derive(Debug, PartialEq)]
pub enum SingleStatePacket {
    First(u8),
}

impl Encode for SingleStatePacket {
    fn encode(&self, buf: &mut Vec<u8>) {
        match self {
            SingleStatePacket::First(inner) => {
                0u8.encode(buf);
                inner.encode(buf);
            }
        }
    }
}

impl Decode for SingleStatePacket {
    fn decode_with(decoder: &mut Decoder<'_>) -> Result<Self, DecodeError> {
        let packet_id = decoder.decode::<u8>()?;
        Ok(match packet_id {
            0 => SingleStatePacket::First(decoder.decode::<u8>()?),
            _ => return Err(DecodeError::InvalidPacketId(Some(packet_id))),
        })
    }
}

#[test]
fn lib_test_tagged_enum_invalid_id() {
    let buf = vec![255];
    let mut slice = buf.as_slice();
    let result = SingleStatePacket::decode(&mut slice);

    assert_eq!(result, Err(DecodeError::InvalidPacketId(Some(255))));
}

#[derive(PartialEq, Debug)]
pub struct UnitPacket;

impl Encode for UnitPacket {
    fn encode(&self, _buf: &mut Vec<u8>) {}
}

impl Decode for UnitPacket {
    fn decode_with(_decoder: &mut Decoder<'_>) -> Result<Self, DecodeError> {
        Ok(Self)
    }
}

#[test]
fn lib_test_unit_struct() {
    let packet = UnitPacket;

    let mut buf = Vec::new();
    packet.encode(&mut buf);

    assert_eq!(buf.len(), 0);

    let mut slice = buf.as_slice();
    let decoded = UnitPacket::decode(&mut slice).unwrap();

    assert_eq!(decoded, packet);
}

#[derive(PartialEq, Debug)]
pub struct OneIntPacket {
    pub a: i32,
}

impl Encode for OneIntPacket {
    fn encode(&self, buf: &mut Vec<u8>) {
        self.a.encode(buf);
    }
}

impl Decode for OneIntPacket {
    fn decode_with(decoder: &mut Decoder<'_>) -> Result<Self, DecodeError> {
        let a = decoder.decode::<i32>()?;
        Ok(Self { a })
    }
}

#[test]
fn test_empty_decode() {
    let mut slice = &[][..];
    let result = OneIntPacket::decode(&mut slice);

    assert_eq!(result, Err(DecodeError::UnexpectedEof));
}

#[derive(PartialEq, Debug)]
pub struct MultiVarPacket {
    pub a: i32,
    pub b: i32,
    pub c: i32,
}

impl Encode for MultiVarPacket {
    fn encode(&self, buf: &mut Vec<u8>) {
        VarI32(self.a).encode(buf);
        VarI32(self.b).encode(buf);
        VarI32(self.c).encode(buf);
    }
}

impl Decode for MultiVarPacket {
    fn decode_with(decoder: &mut Decoder<'_>) -> Result<Self, DecodeError> {
        let a = decoder.decode::<VarI32>()?.0;
        let b = decoder.decode::<VarI32>()?.0;
        let c = decoder.decode::<VarI32>()?.0;
        Ok(Self { a, b, c })
    }
}

#[test]
fn test_multiple_vari32_fields() {
    let packet = MultiVarPacket {
        a: 1,
        b: 128,
        c: -1,
    };

    let mut buf = Vec::new();
    packet.encode(&mut buf);

    let mut slice = buf.as_slice();
    let decoded = MultiVarPacket::decode(&mut slice).unwrap();

    assert_eq!(decoded, packet);
}

#[derive(PartialEq, Debug)]
pub struct MixedVarPacket {
    pub regular: u8,
    pub compact: i32,
    pub regular2: i32,
    pub compact2: i32,
}

impl Encode for MixedVarPacket {
    fn encode(&self, buf: &mut Vec<u8>) {
        self.regular.encode(buf);
        VarI32(self.compact).encode(buf);
        self.regular2.encode(buf);
        VarI32(self.compact2).encode(buf);
    }
}

impl Decode for MixedVarPacket {
    fn decode_with(decoder: &mut Decoder<'_>) -> Result<Self, DecodeError> {
        let regular = decoder.decode::<u8>()?;
        let compact = decoder.decode::<VarI32>()?.0;
        let regular2 = decoder.decode::<i32>()?;
        let compact2 = decoder.decode::<VarI32>()?.0;
        Ok(Self {
            regular,
            compact,
            regular2,
            compact2,
        })
    }
}

#[test]
fn lib_test_mixed_vari32_and_regular() {
    let packet = MixedVarPacket {
        regular: 255,
        compact: 100,
        regular2: 0x12345678,
        compact2: 50000,
    };

    let mut buf = Vec::new();
    packet.encode(&mut buf);

    let mut slice = buf.as_slice();
    let decoded = MixedVarPacket::decode(&mut slice).unwrap();

    assert_eq!(decoded, packet);
}

#[derive(PartialEq, Debug)]
pub struct InnerPart {
    pub value: u8,
}

impl Encode for InnerPart {
    fn encode(&self, buf: &mut Vec<u8>) {
        self.value.encode(buf);
    }
}

impl Decode for InnerPart {
    fn decode_with(decoder: &mut Decoder<'_>) -> Result<Self, DecodeError> {
        let value = decoder.decode::<u8>()?;
        Ok(Self { value })
    }
}

#[derive(PartialEq, Debug)]
pub struct OuterPart {
    pub inner: InnerPart,
    pub extra: i32,
}

impl Encode for OuterPart {
    fn encode(&self, buf: &mut Vec<u8>) {
        self.inner.encode(buf);
        self.extra.encode(buf);
    }
}

impl Decode for OuterPart {
    fn decode_with(decoder: &mut Decoder<'_>) -> Result<Self, DecodeError> {
        let inner = decoder.decode::<InnerPart>()?;
        let extra = decoder.decode::<i32>()?;
        Ok(Self { inner, extra })
    }
}

#[test]
fn lib_test_nested_structs() {
    let packet = OuterPart {
        inner: InnerPart { value: 42 },
        extra: 12345,
    };

    let mut buf = Vec::new();
    packet.encode(&mut buf);

    let mut slice = buf.as_slice();
    let decoded = OuterPart::decode(&mut slice).unwrap();

    assert_eq!(decoded, packet);
}

#[derive(PartialEq, Debug, Clone, Copy)]
pub enum ByteEnum {
    First,
    Second,
    Third,
}

impl Encode for ByteEnum {
    fn encode(&self, buf: &mut Vec<u8>) {
        let discriminant: u8 = match self {
            ByteEnum::First => 0,
            ByteEnum::Second => 1,
            ByteEnum::Third => 42,
        };
        discriminant.encode(buf);
    }
}

impl Decode for ByteEnum {
    fn decode_with(decoder: &mut Decoder<'_>) -> Result<Self, DecodeError> {
        let discriminant = decoder.decode::<u8>()?;
        Ok(match discriminant {
            0 => ByteEnum::First,
            1 => ByteEnum::Second,
            42 => ByteEnum::Third,
            _ => return Err(DecodeError::InvalidPacketId(None)),
        })
    }
}

#[test]
fn lib_test_repr_u8_enum() {
    for variant in [ByteEnum::First, ByteEnum::Second, ByteEnum::Third] {
        let mut buf = Vec::new();
        variant.encode(&mut buf);

        assert_eq!(buf.len(), 1);

        let mut slice = buf.as_slice();
        let decoded = ByteEnum::decode(&mut slice).unwrap();

        assert_eq!(decoded, variant);
        assert_eq!(slice.len(), 0);
    }
}

#[derive(PartialEq, Debug, Clone, Copy)]
pub enum IntStatus {
    Pending,
    Active,
    Complete,
}

impl Encode for IntStatus {
    fn encode(&self, buf: &mut Vec<u8>) {
        let discriminant: i32 = match self {
            IntStatus::Pending => -1,
            IntStatus::Active => 0,
            IntStatus::Complete => 1,
        };
        discriminant.encode(buf);
    }
}

impl Decode for IntStatus {
    fn decode_with(decoder: &mut Decoder<'_>) -> Result<Self, DecodeError> {
        let discriminant = decoder.decode::<i32>()?;
        Ok(match discriminant {
            -1 => IntStatus::Pending,
            0 => IntStatus::Active,
            1 => IntStatus::Complete,
            _ => return Err(DecodeError::InvalidPacketId(None)),
        })
    }
}

#[test]
fn lib_test_repr_i32_enum() {
    for variant in [IntStatus::Pending, IntStatus::Active, IntStatus::Complete] {
        let mut buf = Vec::new();
        variant.encode(&mut buf);

        assert_eq!(buf.len(), 4);

        let mut slice = buf.as_slice();
        let decoded = IntStatus::decode(&mut slice).unwrap();

        assert_eq!(decoded, variant);
        assert_eq!(slice.len(), 0);
    }
}

#[derive(PartialEq, Debug, Clone, Copy)]
pub enum VarEnum {
    Small,
    Medium,
    Large,
}

impl Encode for VarEnum {
    fn encode(&self, buf: &mut Vec<u8>) {
        let discriminant: i32 = match self {
            VarEnum::Small => 0,
            VarEnum::Medium => 100,
            VarEnum::Large => 268435455,
        };
        VarI32(discriminant).encode(buf);
    }
}

impl Decode for VarEnum {
    fn decode_with(decoder: &mut Decoder<'_>) -> Result<Self, DecodeError> {
        let discriminant = decoder.decode::<VarI32>()?.0;
        Ok(match discriminant {
            0 => VarEnum::Small,
            100 => VarEnum::Medium,
            268435455 => VarEnum::Large,
            _ => return Err(DecodeError::InvalidPacketId(None)),
        })
    }
}

#[test]
fn test_repr_i32_enum_varint32_compression() {
    let variant = VarEnum::Large;
    let mut buf = Vec::new();
    variant.encode(&mut buf);

    assert_eq!(buf.len(), 4);

    let mut slice = buf.as_slice();
    let decoded = VarEnum::decode(&mut slice).unwrap();

    assert_eq!(decoded, variant);
}

#[test]
fn test_repr_i32_enum_varint32() {
    let mut buf = Vec::new();
    VarEnum::Medium.encode(&mut buf);

    assert!(buf.len() < 4);

    let mut slice = buf.as_slice();
    let decoded = VarEnum::decode(&mut slice).unwrap();

    assert_eq!(decoded, VarEnum::Medium);
}

#[derive(PartialEq, Debug)]
pub enum TwoByteStatus {
    Active,
    Inactive,
}

impl Decode for TwoByteStatus {
    fn decode_with(decoder: &mut Decoder<'_>) -> Result<Self, DecodeError> {
        let discriminant = decoder.decode::<u8>()?;
        Ok(match discriminant {
            1 => TwoByteStatus::Active,
            2 => TwoByteStatus::Inactive,
            _ => return Err(DecodeError::InvalidPacketId(None)),
        })
    }
}

#[test]
fn test_repr_u8_enum_invalid_discriminant() {
    let buf = vec![99u8];
    match TwoByteStatus::decode(&mut buf.as_slice()) {
        Err(DecodeError::InvalidPacketId(None)) => (),
        other => panic!("Expected InvalidPacketId error, got {:?}", other),
    }
}

#[derive(PartialEq, Debug)]
pub struct FixedThree {
    pub data: Vec<u8>,
}

impl Encode for FixedThree {
    fn encode(&self, buf: &mut Vec<u8>) {
        encode_fixed_bytes(&self.data, 3, buf);
    }
}

impl Decode for FixedThree {
    fn decode_with(decoder: &mut Decoder<'_>) -> Result<Self, DecodeError> {
        let data = decode_fixed_length_vec_u8(3, decoder)?;
        Ok(Self { data })
    }
}

#[test]
fn test_fixed_length_vec_literal() {
    let original = FixedThree {
        data: vec![1, 2, 3],
    };

    let mut buf = Vec::new();
    original.encode(&mut buf);

    let mut slice = buf.as_slice();
    let decoded = FixedThree::decode(&mut slice).unwrap();

    assert_eq!(decoded, original);
}

#[test]
#[should_panic(expected = "Fixed-length vector length mismatch")]
fn test_fixed_length_vec_wrong_length() {
    let invalid = FixedThree {
        data: vec![1, 2], // Wrong: should be 3 items
    };

    let mut buf = Vec::new();
    invalid.encode(&mut buf); // Should panic
}

#[derive(PartialEq, Debug)]
pub struct FixedByField {
    pub length: u32,
    pub data: Vec<u8>,
}

impl Encode for FixedByField {
    fn encode(&self, buf: &mut Vec<u8>) {
        self.length.encode(buf);
        encode_fixed_bytes(&self.data, self.length as usize, buf);
    }
}

impl Decode for FixedByField {
    fn decode_with(decoder: &mut Decoder<'_>) -> Result<Self, DecodeError> {
        let length = decoder.decode::<u32>()?;
        let data = decode_fixed_length_vec_u8(fixed_len_u32(length)?, decoder)?;
        Ok(Self { length, data })
    }
}

#[test]
fn test_fixed_length_vec_field_reference() {
    let original = FixedByField {
        length: 5,
        data: vec![10, 20, 30, 40, 50],
    };

    let mut buf = Vec::new();
    original.encode(&mut buf);

    let mut slice = buf.as_slice();
    let decoded = FixedByField::decode(&mut slice).unwrap();

    assert_eq!(decoded, original);
}

#[test]
fn test_fixed_length_no_length_prefix() {
    let original = FixedByField {
        length: 5,
        data: vec![10, 20, 30, 40, 50],
    };

    let mut buf = Vec::new();
    original.encode(&mut buf);

    assert_eq!(
        buf.len(),
        9,
        "Fixed-length vector should not include length prefix"
    );
    assert_eq!(buf[0..4], [0, 0, 0, 5]);
    assert_eq!(buf[4..9], [10, 20, 30, 40, 50]);
}

#[test]
fn test_fixed_length_decode_from_raw_bytes() {
    let buf = vec![0x00, 0x00, 0x00, 0x05, 100, 101, 102, 103, 104];

    let mut slice = buf.as_slice();
    let decoded = FixedByField::decode(&mut slice).unwrap();

    assert_eq!(decoded.length, 5);
    assert_eq!(decoded.data, vec![100, 101, 102, 103, 104]);
    assert_eq!(slice.len(), 0);
}

#[test]
fn test_fixed_length_roundtrip_preserves_format() {
    let original = FixedByField {
        length: 3,
        data: vec![42, 43, 44],
    };

    let mut buf1 = Vec::new();
    original.encode(&mut buf1);

    let mut slice = buf1.as_slice();
    let decoded = FixedByField::decode(&mut slice).unwrap();

    let mut buf2 = Vec::new();
    decoded.encode(&mut buf2);

    assert_eq!(
        buf1, buf2,
        "Roundtrip encode/decode should produce identical bytes"
    );
}

#[test]
fn test_fixed_length_vec_u8_large_buffer() {
    let large_data = vec![42u8; 10000];
    let original = FixedByField {
        length: 10000,
        data: large_data.clone(),
    };

    let mut buf = Vec::new();
    original.encode(&mut buf);

    assert_eq!(buf.len(), 10004);

    let mut slice = buf.as_slice();
    let decoded = FixedByField::decode(&mut slice).unwrap();

    assert_eq!(decoded.length, 10000);
    assert_eq!(decoded.data, large_data);
    assert_eq!(slice.len(), 0);
}

#[derive(PartialEq, Debug)]
pub struct FixedByProduct {
    pub length: u32,
    pub factor: u32,
    pub data: Vec<u8>,
}

impl Encode for FixedByProduct {
    fn encode(&self, buf: &mut Vec<u8>) {
        self.length.encode(buf);
        self.factor.encode(buf);
        encode_fixed_bytes(&self.data, (self.length * self.factor) as usize, buf);
    }
}

impl Decode for FixedByProduct {
    fn decode_with(decoder: &mut Decoder<'_>) -> Result<Self, DecodeError> {
        let length = decoder.decode::<u32>()?;
        let factor = decoder.decode::<u32>()?;
        let data = decode_fixed_length_vec_u8(fixed_len_product(length, factor)?, decoder)?;
        Ok(Self {
            length,
            factor,
            data,
        })
    }
}

#[test]
fn test_fixed_length_vec_arithmetic() {
    let original = FixedByProduct {
        length: 3,
        factor: 2,
        data: vec![1, 2, 3, 4, 5, 6],
    };

    let mut buf = Vec::new();
    original.encode(&mut buf);

    let mut slice = buf.as_slice();
    let decoded = FixedByProduct::decode(&mut slice).unwrap();

    assert_eq!(decoded, original);
}

#[test]
fn test_fixed_length_with_expression_binary() {
    let original = FixedByProduct {
        length: 3,
        factor: 2,
        data: vec![1, 2, 3, 4, 5, 6],
    };

    let mut buf = Vec::new();
    original.encode(&mut buf);

    assert_eq!(buf.len(), 14);

    let mut slice = buf.as_slice();
    let decoded = FixedByProduct::decode(&mut slice).unwrap();
    assert_eq!(decoded, original);
    assert_eq!(slice.len(), 0);
}

#[derive(PartialEq, Debug)]
pub struct FixedByExpression {
    pub length: u32,
    pub factor: u32,
    pub data: Vec<u8>,
}

fn complex_len(length: u32, factor: u32) -> Result<usize, DecodeError> {
    length
        .checked_add(5)
        .and_then(|v| v.checked_mul(factor))
        .and_then(|v| v.checked_sub(2))
        .ok_or(DecodeError::InvalidLength)
        .and_then(fixed_len_u32)
}

impl Encode for FixedByExpression {
    fn encode(&self, buf: &mut Vec<u8>) {
        self.length.encode(buf);
        self.factor.encode(buf);
        let expected = ((self.length + 5) * self.factor - 2) as usize;
        encode_fixed_bytes(&self.data, expected, buf);
    }
}

impl Decode for FixedByExpression {
    fn decode_with(decoder: &mut Decoder<'_>) -> Result<Self, DecodeError> {
        let length = decoder.decode::<u32>()?;
        let factor = decoder.decode::<u32>()?;
        let data = decode_fixed_length_vec_u8(complex_len(length, factor)?, decoder)?;
        Ok(Self {
            length,
            factor,
            data,
        })
    }
}

#[test]
fn test_fixed_length_vec_complex_expression() {
    // (4 + 5) * 2 - 2 = 16
    let original = FixedByExpression {
        length: 4,
        factor: 2,
        data: vec![1, 2, 3, 4, 5, 6, 7, 8, 9, 10, 11, 12, 13, 14, 15, 16],
    };

    let mut buf = Vec::new();
    original.encode(&mut buf);

    let mut slice = buf.as_slice();
    let decoded = FixedByExpression::decode(&mut slice).unwrap();

    assert_eq!(decoded, original);
}

#[derive(PartialEq, Debug)]
pub struct MultipleFixed {
    pub length: u32,
    pub factor: u32,
    pub field_a: Vec<u8>,
    pub field_b: Vec<u8>,
    pub field_c: Vec<u8>,
}

impl Encode for MultipleFixed {
    fn encode(&self, buf: &mut Vec<u8>) {
        self.length.encode(buf);
        self.factor.encode(buf);
        encode_fixed_bytes(&self.field_a, self.length as usize, buf);
        encode_fixed_bytes(&self.field_b, (self.length * self.factor) as usize, buf);
        encode_fixed_bytes(&self.field_c, 2, buf);
    }
}

impl Decode for MultipleFixed {
    fn decode_with(decoder: &mut Decoder<'_>) -> Result<Self, DecodeError> {
        let length = decoder.decode::<u32>()?;
        let factor = decoder.decode::<u32>()?;
        let field_a = decode_fixed_length_vec_u8(fixed_len_u32(length)?, decoder)?;
        let field_b = decode_fixed_length_vec_u8(fixed_len_product(length, factor)?, decoder)?;
        let field_c = decode_fixed_length_vec_u8(2, decoder)?;
        Ok(Self {
            length,
            factor,
            field_a,
            field_b,
            field_c,
        })
    }
}

#[test]
fn test_fixed_length_vec_multiple_fields() {
    let original = MultipleFixed {
        length: 3,
        factor: 2,
        field_a: vec![1, 2, 3],
        field_b: vec![4, 5, 6, 7, 8, 9],
        field_c: vec![10, 11],
    };

    let mut buf = Vec::new();
    original.encode(&mut buf);

    let mut slice = buf.as_slice();
    let decoded = MultipleFixed::decode(&mut slice).unwrap();

    assert_eq!(decoded, original);
}

#[derive(PartialEq, Debug)]
pub struct SimpleRemaining {
    pub id: u32,
    pub data: Vec<u8>,
}

impl Encode for SimpleRemaining {
    fn encode(&self, buf: &mut Vec<u8>) {
        self.id.encode(buf);
        encode_remaining_vec_u8(&self.data, buf);
    }
}

impl Decode for SimpleRemaining {
    fn decode_with(decoder: &mut Decoder<'_>) -> Result<Self, DecodeError> {
        let id = decoder.decode::<u32>()?;
        let data = decode_remaining_vec_u8(decoder)?;
        Ok(Self { id, data })
    }
}

#[test]
fn test_remaining_basic() {
    let original = SimpleRemaining {
        id: 42,
        data: vec![1, 2, 3, 4, 5],
    };

    let mut buf = Vec::new();
    original.encode(&mut buf);

    assert_eq!(buf.len(), 9);

    let mut slice = buf.as_slice();
    let decoded = SimpleRemaining::decode(&mut slice).unwrap();

    assert_eq!(decoded, original);
    assert_eq!(slice.len(), 0);
}

#[test]
fn test_remaining_empty() {
    let original = SimpleRemaining {
        id: 100,
        data: vec![],
    };

    let mut buf = Vec::new();
    original.encode(&mut buf);

    assert_eq!(buf.len(), 4);

    let mut slice = buf.as_slice();
    let decoded = SimpleRemaining::decode(&mut slice).unwrap();

    assert_eq!(decoded, original);
    assert_eq!(slice.len(), 0);
}

#[test]
fn test_remaining_large_data() {
    let data = vec![42u8; 10000];
    let original = SimpleRemaining {
        id: 999,
        data: data.clone(),
    };

    let mut buf = Vec::new();
    original.encode(&mut buf);

    assert_eq!(buf.len(), 10004);

    let mut slice = buf.as_slice();
    let decoded = SimpleRemaining::decode(&mut slice).unwrap();

    assert_eq!(decoded, original);
    assert_eq!(slice.len(), 0);
}

#[test]
fn test_remaining_consumes_all_bytes() {
    let original = SimpleRemaining {
        id: 1,
        data: vec![10, 20, 30],
    };

    let mut buf = Vec::new();
    original.encode(&mut buf);

    buf.push(255);
    buf.push(254);
    buf.push(253);

    let mut slice = buf.as_slice();
    let decoded = SimpleRemaining::decode(&mut slice).unwrap();

    assert_eq!(slice.len(), 0);
    assert_eq!(decoded.data, vec![10, 20, 30, 255, 254, 253]);
}

#[test]
fn test_remaining_no_length_prefix() {
    let original = SimpleRemaining {
        id: 5,
        data: vec![100, 101, 102],
    };

    let mut buf = Vec::new();
    original.encode(&mut buf);

    assert_eq!(buf[0..4], [0, 0, 0, 5]);
    assert_eq!(buf[4..7], [100, 101, 102]);
    assert_eq!(buf.len(), 7);
}

#[test]
fn test_remaining_preserves_all_bytes() {
    let data = b"Plugin message with binary \x00\x01\x02\x03 data".to_vec();
    let original = SimpleRemaining {
        id: 777,
        data: data.clone(),
    };

    let mut buf = Vec::new();
    original.encode(&mut buf);

    let mut slice = buf.as_slice();
    let decoded = SimpleRemaining::decode(&mut slice).unwrap();

    assert_eq!(decoded.data, data);
    assert_eq!(slice.len(), 0);
}

#[test]
fn test_remaining_roundtrip_multiple_times() {
    let test_cases = vec![
        vec![],
        vec![1],
        vec![1, 2, 3, 4, 5],
        vec![255, 254, 253],
        vec![0; 100],
    ];

    for data in test_cases {
        let original = SimpleRemaining {
            id: 42,
            data: data.clone(),
        };

        let mut buf = Vec::new();
        original.encode(&mut buf);

        let mut slice = buf.as_slice();
        let decoded = SimpleRemaining::decode(&mut slice).unwrap();

        assert_eq!(decoded, original, "Roundtrip failed for data: {:?}", data);
        assert_eq!(slice.len(), 0);

        let mut buf2 = Vec::new();
        decoded.encode(&mut buf2);
        assert_eq!(buf, buf2, "Encode changed for data: {:?}", data);
    }
}

#[derive(PartialEq, Debug)]
pub struct RemainingTail {
    pub byte1: u8,
    pub byte2: u8,
    pub rest: Vec<u8>,
}

impl Encode for RemainingTail {
    fn encode(&self, buf: &mut Vec<u8>) {
        self.byte1.encode(buf);
        self.byte2.encode(buf);
        encode_remaining_vec_u8(&self.rest, buf);
    }
}

impl Decode for RemainingTail {
    fn decode_with(decoder: &mut Decoder<'_>) -> Result<Self, DecodeError> {
        let byte1 = decoder.decode::<u8>()?;
        let byte2 = decoder.decode::<u8>()?;
        let rest = decode_remaining_vec_u8(decoder)?;
        Ok(Self { byte1, byte2, rest })
    }
}

#[test]
fn test_remaining_multiple_u8_fields() {
    let original = RemainingTail {
        byte1: 10,
        byte2: 20,
        rest: vec![30, 40, 50, 60],
    };

    let mut buf = Vec::new();
    original.encode(&mut buf);

    assert_eq!(buf.len(), 6);

    let mut slice = buf.as_slice();
    let decoded = RemainingTail::decode(&mut slice).unwrap();

    assert_eq!(decoded, original);
    assert_eq!(slice.len(), 0);
}

#[test]
fn test_remaining_vs_fixed_length_size_difference() {
    let data = vec![1, 2, 3, 4];

    let mut buf_fixed = Vec::new();
    encode_fixed_bytes(&data, 4, &mut buf_fixed);

    let mut buf_remaining = Vec::new();
    encode_remaining_vec_u8(&data, &mut buf_remaining);

    assert_eq!(buf_fixed.len(), buf_remaining.len());
    assert_eq!(buf_fixed, buf_remaining);
}

#[derive(Debug, PartialEq)]
pub struct MessageWithData {
    pub channel: String,
    pub payload: Vec<u8>,
}

impl Encode for MessageWithData {
    fn encode(&self, buf: &mut Vec<u8>) {
        self.channel.encode(buf);
        encode_remaining_vec_u8(&self.payload, buf);
    }
}

impl Decode for MessageWithData {
    fn decode_with(decoder: &mut Decoder<'_>) -> Result<Self, DecodeError> {
        let channel = decoder.decode::<String>()?;
        let payload = decode_remaining_vec_u8(decoder)?;
        Ok(Self { channel, payload })
    }
}

#[test]
fn test_remaining_with_string_field() {
    let original = MessageWithData {
        channel: "test_channel".to_string(),
        payload: vec![1, 2, 3, 4],
    };

    let mut buf = Vec::new();
    original.encode(&mut buf);

    let mut slice = buf.as_slice();
    let decoded = MessageWithData::decode(&mut slice).unwrap();

    assert_eq!(decoded, original);
    assert_eq!(slice.len(), 0);
}

pub struct WithNormalVector {
    pub data: Vec<u8>,
}

impl Encode for WithNormalVector {
    fn encode(&self, buf: &mut Vec<u8>) {
        self.data.encode(buf);
    }
}

#[test]
fn test_fixed_length_vs_normal_vector_size() {
    let data = vec![1, 2, 3, 4, 5];

    let normal = WithNormalVector { data: data.clone() };
    let fixed = FixedByField {
        length: 5,
        data: data.clone(),
    };

    let mut normal_buf = Vec::new();
    normal.encode(&mut normal_buf);

    let mut fixed_buf = Vec::new();
    fixed.encode(&mut fixed_buf);

    assert_eq!(
        normal_buf.len(),
        6,
        "Normal vector should include 1-byte varint32 length prefix"
    );
    assert_eq!(normal_buf[0], 5);
    assert_eq!(normal_buf[1..], [1, 2, 3, 4, 5]);

    assert_eq!(
        fixed_buf.len(),
        9,
        "Fixed-length vector struct includes u32 field"
    );
    assert_eq!(fixed_buf[0..4], [0, 0, 0, 5]);
    assert_eq!(fixed_buf[4..9], [1, 2, 3, 4, 5]);
}

#[derive(PartialEq, Debug)]
pub struct MultipleFix {
    pub len_a: u32,
    pub len_b: u32,
    pub field_a: Vec<u8>,
    pub field_b: Vec<u8>,
}

impl Encode for MultipleFix {
    fn encode(&self, buf: &mut Vec<u8>) {
        self.len_a.encode(buf);
        self.len_b.encode(buf);
        encode_fixed_bytes(&self.field_a, self.len_a as usize, buf);
        encode_fixed_bytes(&self.field_b, self.len_b as usize, buf);
    }
}

impl Decode for MultipleFix {
    fn decode_with(decoder: &mut Decoder<'_>) -> Result<Self, DecodeError> {
        let len_a = decoder.decode::<u32>()?;
        let len_b = decoder.decode::<u32>()?;
        let field_a = decode_fixed_length_vec_u8(fixed_len_u32(len_a)?, decoder)?;
        let field_b = decode_fixed_length_vec_u8(fixed_len_u32(len_b)?, decoder)?;
        Ok(Self {
            len_a,
            len_b,
            field_a,
            field_b,
        })
    }
}

#[test]
fn test_fixed_length_multiple_fields_binary_format() {
    let original = MultipleFix {
        len_a: 2,
        len_b: 3,
        field_a: vec![1, 2],
        field_b: vec![10, 11, 12],
    };

    let mut buf = Vec::new();
    original.encode(&mut buf);

    assert_eq!(buf.len(), 13);
    assert_eq!(buf[0..4], [0, 0, 0, 2]);
    assert_eq!(buf[4..8], [0, 0, 0, 3]);
    assert_eq!(buf[8..10], [1, 2]);
    assert_eq!(buf[10..13], [10, 11, 12]);

    let mut slice = buf.as_slice();
    let decoded = MultipleFix::decode(&mut slice).unwrap();
    assert_eq!(decoded, original);
}

#[derive(PartialEq, Debug)]
pub struct MixedVectors {
    pub len: u32,
    pub bytes: Vec<u8>,
    pub numbers: Vec<u16>,
}

impl Encode for MixedVectors {
    fn encode(&self, buf: &mut Vec<u8>) {
        self.len.encode(buf);
        encode_fixed_bytes(&self.bytes, self.len as usize, buf);
        match encode_fixed_length_vec(&self.numbers, self.len as usize, buf) {
            Ok(_) => {}
            Err(e) => panic!("{}", e),
        }
    }
}

impl Decode for MixedVectors {
    fn decode_with(decoder: &mut Decoder<'_>) -> Result<Self, DecodeError> {
        let len = decoder.decode::<u32>()?;
        let bytes = decode_fixed_length_vec_u8(fixed_len_u32(len)?, decoder)?;
        let numbers = decode_fixed_length_vec::<u16>(fixed_len_u32(len)?, decoder)?;
        Ok(Self {
            len,
            bytes,
            numbers,
        })
    }
}

#[test]
fn test_fixed_length_vec_u8_optimized_vs_generic() {
    let original = MixedVectors {
        len: 5,
        bytes: vec![1, 2, 3, 4, 5],
        numbers: vec![100, 101, 102, 103, 104],
    };

    let mut buf = Vec::new();
    original.encode(&mut buf);

    assert_eq!(buf.len(), 19);

    let mut slice = buf.as_slice();
    let decoded = MixedVectors::decode(&mut slice).unwrap();

    assert_eq!(decoded, original);
    assert_eq!(slice.len(), 0);
}
