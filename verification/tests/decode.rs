use labanim::bone::{AnimDataBone, KeyEncoding};
use labanim::error::LabError;
use labanim::MIN_VERSION;

fn le16(out: &mut Vec<u8>, v: u16) {
    out.extend_from_slice(&v.to_le_bytes());
}

fn le32(out: &mut Vec<u8>, v: u32) {
    out.extend_from_slice(&v.to_le_bytes());
}

fn name64(out: &mut Vec<u8>, name: &str) {
    let mut buf = [0u8; 64];
    let bytes = name.as_bytes();
    buf[..bytes.len()].copy_from_slice(bytes);
    out.extend_from_slice(&buf);
}

fn fixture_name(i: usize) -> String {
    match i {
        0 => String::from("Bip01"),
        1 => String::from("Bip01 Footsteps"),
        2 => String::from("Bip01 Pelvis"),
        20 => String::from("Bip01 R Finger0Nub"),
        33 => String::from("Bip01 Tail2"),
        _ => format!("Bip01 Part{}", i),
    }
}

fn fixture_parent(i: usize) -> u32 {
    match i {
        0 => 4294967295,
        1 | 2 => 0,
        _ => (i - 1) as u32,
    }
}

/// A complete quaternion-encoded file: 35 bones, 228 frames, 2 markers.
fn quat_fixture() -> Vec<u8> {
    let bones = 35usize;
    let frames = 228usize;
    let mut v = Vec::new();
    le16(&mut v, 4010);
    le16(&mut v, 0);
    le32(&mut v, bones as u32);
    le32(&mut v, frames as u32);
    le32(&mut v, 2);
    le32(&mut v, 3); // quaternion encoding
    for i in 0..bones {
        name64(&mut v, &fixture_name(i));
        le32(&mut v, i as u32);
        le32(&mut v, fixture_parent(i));
    }
    // inverse bind matrices
    v.extend(std::iter::repeat(0u8).take(bones * 64));
    // two markers on bone 2
    for id in 0..2u32 {
        le32(&mut v, id);
        le32(&mut v, 2);
        v.extend(std::iter::repeat(0u8).take(64));
    }
    // key data: per bone, 228 positions then 228 quaternions
    v.extend(std::iter::repeat(0u8).take(bones * frames * 28));
    v
}

#[test]
fn it_loads_header_info_correctly() {
    let bytes = quat_fixture();
    let mut bone = AnimDataBone::new();
    bone.load_header(bytes.as_slice()).unwrap();
    assert_eq!(bone.header.bone_num, 35);
    assert_eq!(bone.header.frame_num, 228);
    assert_eq!(bone.header.dummy_num, 2);
    assert_eq!(bone.header.key_type, KeyEncoding::QuatPos);
}

#[test]
fn it_loads_base_bone_info_correctly() {
    let bytes = quat_fixture();
    let mut bone = AnimDataBone::new();
    bone.load_header(bytes.as_slice()).unwrap();
    bone.load_base_seq(bytes.as_slice()).unwrap();

    struct BoneBaseTestInfo {
        pub id: u32,
        pub parent_id: u32,
        pub name: String,
    }

    let actual_bones = vec![
        BoneBaseTestInfo { id: 0, parent_id: 4294967295, name: String::from("Bip01") },
        BoneBaseTestInfo { id: 1, parent_id: 0, name: String::from("Bip01 Footsteps") },
        BoneBaseTestInfo { id: 2, parent_id: 0, name: String::from("Bip01 Pelvis") },
        BoneBaseTestInfo { id: 20, parent_id: 19, name: String::from("Bip01 R Finger0Nub") },
        BoneBaseTestInfo { id: 33, parent_id: 32, name: String::from("Bip01 Tail2") },
    ];

    for expected in &actual_bones {
        let bone_id = expected.id as usize;
        assert_eq!(expected.id, bone.base_seq[bone_id].id);
        assert_eq!(expected.parent_id, bone.base_seq[bone_id].parent_id);
        assert_eq!(expected.name.as_bytes(), bone.base_seq[bone_id].get_name().as_slice());
    }
}

#[test]
fn decoded_names_hold_no_null_and_stop_at_first_null() {
    // a name with an embedded null: everything after it is dropped
    let mut v = Vec::new();
    le16(&mut v, MIN_VERSION);
    le16(&mut v, 0);
    le32(&mut v, 1);
    le32(&mut v, 1);
    le32(&mut v, 0);
    le32(&mut v, 2);
    let mut buf = [0u8; 64];
    buf[..3].copy_from_slice(b"abc");
    buf[3] = 0;
    buf[4] = b'z';
    v.extend_from_slice(&buf);
    le32(&mut v, 0);
    le32(&mut v, 4294967295);
    v.extend(std::iter::repeat(0u8).take(64)); // inverse bind matrix
    v.extend(std::iter::repeat(0u8).take(64)); // one 4x4 key frame
    let d = AnimDataBone::load_from_bytes(v.as_slice()).unwrap();
    let name = d.base_seq[0].get_name();
    assert_eq!(name, b"abc".to_vec());
    assert!(!name.contains(&0u8));
}

#[test]
fn header_decode_is_idempotent() {
    let bytes = quat_fixture();
    let mut first = AnimDataBone::new();
    first.load_header(bytes.as_slice()).unwrap();
    let mut second = AnimDataBone::new();
    second.load_header(bytes.as_slice()).unwrap();
    assert_eq!(first.header.bone_num, second.header.bone_num);
    assert_eq!(first.header.frame_num, second.header.frame_num);
    assert_eq!(first.header.dummy_num, second.header.dummy_num);
    assert_eq!(first.header.key_type, second.header.key_type);
}

#[test]
fn truncated_stream_is_a_single_final_failure() {
    let bytes = quat_fixture();
    let cut = &bytes[..bytes.len() - 1];
    match AnimDataBone::load_from_bytes(cut) {
        Err(LabError::Truncated { offset }) => {
            assert_eq!(offset, bytes.len() as u128);
        },
        other => panic!("expected a truncation failure, got {:?}", other),
    }
    // far too short for even the header
    match AnimDataBone::load_from_bytes(&bytes[..10]) {
        Err(LabError::Truncated { offset }) => assert_eq!(offset, 20),
        other => panic!("expected a truncation failure, got {:?}", other),
    }
}

#[test]
fn old_version_is_rejected_before_decoding() {
    let mut bytes = quat_fixture();
    bytes[0] = 0x09;
    bytes[1] = 0x0F; // version 3849
    match AnimDataBone::load_from_bytes(bytes.as_slice()) {
        Err(LabError::UnsupportedVersion { found }) => assert_eq!(found, 3849),
        other => panic!("expected a version failure, got {:?}", other),
    }
}

#[test]
fn unknown_key_encoding_decodes_as_invalid_and_transforms_fail() {
    let mut v = Vec::new();
    le16(&mut v, MIN_VERSION);
    le16(&mut v, 0);
    le32(&mut v, 1);
    le32(&mut v, 1);
    le32(&mut v, 0);
    le32(&mut v, 99); // unrecognized encoding
    name64(&mut v, "Root");
    le32(&mut v, 0);
    le32(&mut v, 4294967295);
    v.extend(std::iter::repeat(0u8).take(64));
    let d = AnimDataBone::load_from_bytes(v.as_slice()).unwrap();
    assert_eq!(d.header.key_type, KeyEncoding::Invalid);
    match d.local_transform(0, 0) {
        Err(LabError::TrackMismatch { bone: 0, frame: 0 }) => {},
        other => panic!("expected a track mismatch, got {:?}", other),
    }
    assert!(d.generate_transformation_matrices_for_all_frames().is_err());
}

#[test]
fn quat_components_are_reordered_from_disk() {
    // one bone, one frame: position (1,2,3), quaternion stored (x,y,z,w)
    let mut v = Vec::new();
    le16(&mut v, MIN_VERSION);
    le16(&mut v, 0);
    le32(&mut v, 1);
    le32(&mut v, 1);
    le32(&mut v, 0);
    le32(&mut v, 3);
    name64(&mut v, "Root");
    le32(&mut v, 0);
    le32(&mut v, 4294967295);
    v.extend(std::iter::repeat(0u8).take(64));
    le32(&mut v, 10);
    le32(&mut v, 20);
    le32(&mut v, 30); // position bits
    le32(&mut v, 1);
    le32(&mut v, 2);
    le32(&mut v, 3);
    le32(&mut v, 4); // quaternion bits, on-disk order (x, y, z, w)
    let d = AnimDataBone::load_from_bytes(v.as_slice()).unwrap();
    let keys = d.get_transforms_for_frame(0).unwrap();
    assert_eq!(keys.len(), 1);
    assert_eq!(keys[0].pos.x, 10);
    assert_eq!(keys[0].pos.y, 20);
    assert_eq!(keys[0].pos.z, 30);
    assert_eq!(keys[0].quat.w, 4);
    assert_eq!(keys[0].quat.x, 1);
    assert_eq!(keys[0].quat.y, 2);
    assert_eq!(keys[0].quat.z, 3);
}
