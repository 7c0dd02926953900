use labanim::bone::AnimDataBone;
use labanim::error::LabError;
use labanim::MIN_VERSION;

fn le16(out: &mut Vec<u8>, v: u16) {
    out.extend_from_slice(&v.to_le_bytes());
}

fn le32(out: &mut Vec<u8>, v: u32) {
    out.extend_from_slice(&v.to_le_bytes());
}

fn name64(out: &mut Vec<u8>, name: &str) {
    let mut buf = [0u8; 64];
    let bytes = name.as_bytes();
    buf[..bytes.len()].copy_from_slice(bytes);
    out.extend_from_slice(&buf);
}

/// A 4x4-encoded file with one frame and the given bone table.
fn mat44_file(bones: &[(&str, u32, u32)]) -> Vec<u8> {
    let n = bones.len();
    let mut v = Vec::new();
    le16(&mut v, MIN_VERSION);
    le16(&mut v, 0);
    le32(&mut v, n as u32);
    le32(&mut v, 1);
    le32(&mut v, 0);
    le32(&mut v, 2); // 4x4 matrix encoding
    for (name, id, parent) in bones {
        name64(&mut v, name);
        le32(&mut v, *id);
        le32(&mut v, *parent);
    }
    v.extend(std::iter::repeat(0u8).take(n * 64)); // inverse bind matrices
    v.extend(std::iter::repeat(0u8).take(n * 64)); // one 4x4 key frame per bone
    v
}

const ROOT: u32 = 4294967295;

#[test]
fn tree_has_one_root_and_resolving_parents() {
    let bytes = mat44_file(&[("a", 0, ROOT), ("b", 1, 0), ("c", 2, 1), ("d", 3, 1)]);
    let d = AnimDataBone::load_from_bytes(bytes.as_slice()).unwrap();
    let t = d.generate_joint_structure().unwrap();
    assert_eq!(t.root, 0);
    let mut orphans = 0;
    for (k, j) in t.joints.iter().enumerate() {
        match j.parent {
            None => orphans += 1,
            Some(p) => {
                assert!(p < t.joints.len());
                assert_eq!(t.joints[p].bone_id, j.parent_id);
                assert!(t.joints[p].children.contains(&k));
            },
        }
    }
    assert_eq!(orphans, 1);
    assert_eq!(t.joints[1].children, vec![2, 3]);
    assert_eq!(t.joints[0].depth, 0);
    assert_eq!(t.joints[2].depth, 2);
}

#[test]
fn end_to_end_fixture_names_and_parents() {
    // the quaternion fixture: 35 bones, 228 frames, two markers
    let bones = 35usize;
    let frames = 228usize;
    let mut v = Vec::new();
    le16(&mut v, 4010);
    le16(&mut v, 0);
    le32(&mut v, bones as u32);
    le32(&mut v, frames as u32);
    le32(&mut v, 2);
    le32(&mut v, 3);
    for i in 0..bones {
        let name = match i {
            0 => String::from("Bip01"),
            1 => String::from("Bip01 Footsteps"),
            2 => String::from("Bip01 Pelvis"),
            20 => String::from("Bip01 R Finger0Nub"),
            33 => String::from("Bip01 Tail2"),
            _ => format!("Bip01 Part{}", i),
        };
        name64(&mut v, &name);
        le32(&mut v, i as u32);
        let parent: u32 = match i {
            0 => ROOT,
            1 | 2 => 0,
            _ => (i - 1) as u32,
        };
        le32(&mut v, parent);
    }
    v.extend(std::iter::repeat(0u8).take(bones * 64));
    for id in 0..2u32 {
        le32(&mut v, id);
        le32(&mut v, 2);
        v.extend(std::iter::repeat(0u8).take(64));
    }
    v.extend(std::iter::repeat(0u8).take(bones * frames * 28));

    let d = AnimDataBone::load_from_bytes(v.as_slice()).unwrap();
    assert_eq!(d.get_num_bones(), 35);
    assert_eq!(d.get_num_frames(), 228);
    let t = d.generate_joint_structure().unwrap();
    assert_eq!(t.joints[20].bone_name, b"Bip01 R Finger0Nub".to_vec());
    assert_eq!(t.joints[20].parent_id, 19);
    assert_eq!(t.joints[33].bone_name, b"Bip01 Tail2".to_vec());
    assert_eq!(t.joints[33].parent_id, 32);
    assert_eq!(t.joints[0].bone_name, b"Bip01".to_vec());
    assert_eq!(t.joints[0].parent_id, 4294967295);
    assert_eq!(t.joints[0].parent, None);
    // the two markers hang off bone 2
    assert_eq!(t.joints[2].dummies, vec![0, 1]);
}

#[test]
fn non_dense_bone_id_is_reported() {
    let bytes = mat44_file(&[("a", 0, ROOT), ("b", 7, 0)]);
    let d = AnimDataBone::load_from_bytes(bytes.as_slice()).unwrap();
    match d.generate_joint_structure() {
        Err(LabError::NonDenseBoneId { index, id }) => {
            assert_eq!(index, 1);
            assert_eq!(id, 7);
        },
        other => panic!("expected a non-dense id failure, got {:?}", other),
    }
}

#[test]
fn missing_root_is_reported() {
    let bytes = mat44_file(&[("a", 0, 1), ("b", 1, 0)]);
    let d = AnimDataBone::load_from_bytes(bytes.as_slice()).unwrap();
    match d.generate_joint_structure() {
        Err(LabError::MissingRoot) => {},
        other => panic!("expected a missing-root failure, got {:?}", other),
    }
}

#[test]
fn multiple_roots_are_reported() {
    let bytes = mat44_file(&[("a", 0, ROOT), ("b", 1, ROOT), ("c", 2, ROOT)]);
    let d = AnimDataBone::load_from_bytes(bytes.as_slice()).unwrap();
    match d.generate_joint_structure() {
        Err(LabError::MultipleRoots { first, second }) => {
            assert_eq!(first, 0);
            assert_eq!(second, 1);
        },
        other => panic!("expected a multiple-roots failure, got {:?}", other),
    }
}

#[test]
fn every_dangling_parent_is_reported_at_once() {
    let bytes = mat44_file(&[("a", 0, ROOT), ("b", 1, 9), ("c", 2, 0), ("d", 3, 11)]);
    let d = AnimDataBone::load_from_bytes(bytes.as_slice()).unwrap();
    match d.generate_joint_structure() {
        Err(LabError::UnresolvedParents { pairs }) => {
            assert_eq!(pairs, vec![(1, 9), (3, 11)]);
        },
        other => panic!("expected an unresolved-parents failure, got {:?}", other),
    }
}

#[test]
fn parent_cycles_are_reported() {
    // bones 2 and 3 point at each other: they never reach the root
    let bytes = mat44_file(&[("a", 0, ROOT), ("b", 1, 0), ("c", 2, 3), ("d", 3, 2)]);
    let d = AnimDataBone::load_from_bytes(bytes.as_slice()).unwrap();
    match d.generate_joint_structure() {
        Err(LabError::UnreachableBones { ids }) => {
            assert_eq!(ids, vec![2, 3]);
        },
        other => panic!("expected an unreachable-bones failure, got {:?}", other),
    }
}
