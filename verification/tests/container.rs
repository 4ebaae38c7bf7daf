//! Tests for the binary container envelope and the end-to-end load path.

use kgltf::glb::{GLB, GLBError};

fn glb_bytes(version: u32, payload: &[u8]) -> Vec<u8> {
    let mut data = Vec::new();
    data.extend_from_slice(b"glTF");
    data.extend_from_slice(&version.to_le_bytes());
    let total_len = (20 + payload.len()) as u32;
    data.extend_from_slice(&total_len.to_le_bytes());
    data.extend_from_slice(&(payload.len() as u32).to_le_bytes());
    data.extend_from_slice(b"JSON");
    data.extend_from_slice(payload);
    data
}

#[test]
fn container_round_trip() {
    let data = glb_bytes(2, br#"{"asset":{"version":"2.0"}}"#);
    let glb = GLB::from_bytes(&data).unwrap();
    assert_eq!(glb.glb_version, 2);
    assert_eq!(glb.gltf.asset.version, "2.0");
}

#[test]
fn corrupt_magic_bytes() {
    let good = glb_bytes(2, br#"{"asset":{"version":"2.0"}}"#);
    for i in 0..4 {
        let mut data = good.clone();
        data[i] ^= 0xFF;
        assert_eq!(GLB::from_bytes(&data), Err(GLBError::IncorrectMagicNumber));
    }
}

#[test]
fn truncated_input() {
    assert_eq!(GLB::from_bytes(b""), Err(GLBError::UnexpectedEnd));
    assert_eq!(GLB::from_bytes(b"gl"), Err(GLBError::UnexpectedEnd));
    assert_eq!(GLB::from_bytes(b"glTF\x02\x00\x00\x00"), Err(GLBError::UnexpectedEnd));
    let mut data = glb_bytes(2, br#"{"asset":{"version":"2.0"}}"#);
    data.truncate(data.len() - 1);
    assert_eq!(GLB::from_bytes(&data), Err(GLBError::UnexpectedEnd));
}

#[test]
fn wrong_chunk_tag() {
    let mut data = glb_bytes(2, br#"{"asset":{"version":"2.0"}}"#);
    data[16] = b'B';
    data[17] = b'I';
    data[18] = b'N';
    data[19] = 0;
    assert_eq!(GLB::from_bytes(&data), Err(GLBError::IncorrectFormatting));
}

#[test]
fn invalid_utf8_payload() {
    let data = glb_bytes(2, &[0xFF, 0xFE, 0x80]);
    assert_eq!(GLB::from_bytes(&data), Err(GLBError::IncorrectFormatting));
}

#[test]
fn invalid_json_payload() {
    let data = glb_bytes(2, b"not json at all");
    assert_eq!(GLB::from_bytes(&data), Err(GLBError::InvalidJSON));
    let data = glb_bytes(2, br#"{"scenes":[]}"#);
    assert_eq!(GLB::from_bytes(&data), Err(GLBError::InvalidJSON));
}
