use ussr_nbt::owned::{Nbt, Tag};
use voidmc::{Decode, Encode};
#[test]
fn test_nbt_encode_produces_output() {
    // Create a simple NBT by reading from known data
    // The NBT library writes: TAG_ID (0x0A) + Name Length (0x00 0x00) + Payload
    let nbt_data = vec![
        0x0A, // Compound tag
        0x00, 0x00, // Empty name
        0x00, // End tag
    ];

    let mut slice = nbt_data.as_slice();
    let nbt = Nbt::read(&mut slice).expect("Failed to read NBT");

    // Now test our encode for 1.21.4+ format
    let mut buf = Vec::new();
    nbt.encode(&mut buf);

    // For 1.21.4+ (Protocol >= 764):
    // Encoding produces: 0x0A tag + payload (no name)
    // So: 0x0A + buffer[3..] (skips tag + name)
    assert_eq!(buf.len(), 2); // 0x0A + 0x00
    assert_eq!(buf[0], 0x0A); // Compound tag
    assert_eq!(buf[1], 0x00); // End tag (start of payload)
}

#[test]
fn test_nbt_decode_with_reader() {
    // For 1.21.4+ format: the incoming data is just the payload (no name)
    // Reader prepends 0x0A tag, then reads the payload
    let nbt_data = vec![
        0x00, // End tag (minimal payload)
    ];

    let mut slice = nbt_data.as_slice();
    let result = Nbt::decode(&mut slice);

    // Should either succeed or gracefully fail - the key is it doesn't panic
    let _ = result;
}

#[test]
fn test_nbt_truncated_data() {
    let mut slice = &[][..];
    let result = Nbt::decode(&mut slice);

    // Should handle truncated data gracefully
    assert!(result.is_err());
}

#[test]
fn test_nbt_empty_buffer() {
    let buf = Vec::new();
    let mut slice = buf.as_slice();

    let result = Nbt::decode(&mut slice);
    assert!(result.is_err());
}

#[test]
fn test_nbt_roundtrip_simple() {

    // Create a simple NBT structure like in configuration.rs
    let original_nbt = Nbt {
        name: "".into(),
        compound: vec![("field".into(), Tag::String("value".into()))].into(),
    };

    // Encode the NBT
    let mut encoded = Vec::new();
    original_nbt.encode(&mut encoded);

    assert!(!encoded.is_empty());
    assert_eq!(encoded[0], 0x0A, "First byte should be compound tag");

    // Decode the NBT
    let mut buf_slice = encoded.as_slice();
    let decoded_nbt = Nbt::decode(&mut buf_slice).expect("Failed to decode NBT");

    // Check the decoded NBT has the same structure
    assert_eq!(decoded_nbt.name, original_nbt.name);
    assert_eq!(
        decoded_nbt.compound.tags.len(),
        original_nbt.compound.tags.len(),
        "Should have same number of fields"
    );
}

#[test]
fn test_nbt_roundtrip_multiple_tags() {

    // Create a more complex NBT with multiple field types (like real Minecraft configs)
    let original_nbt = Nbt {
        name: "".into(),
        compound: vec![
            (
                "wild_texture".into(),
                Tag::String("minecraft:entity/wolf/wolf_ashen".into()),
            ),
            ("flag".into(), Tag::Byte(1)),
        ]
        .into(),
    };

    // Encode
    let mut encoded = Vec::new();
    original_nbt.encode(&mut encoded);

    assert_eq!(encoded[0], 0x0A);

    // Decode
    let mut buf_slice = encoded.as_slice();
    let decoded = Nbt::decode(&mut buf_slice).expect("Failed to decode multi-tag NBT");

    // Verify structure preserved
    assert_eq!(decoded.name, original_nbt.name);
    assert_eq!(
        decoded.compound.tags.len(),
        original_nbt.compound.tags.len()
    );
}
