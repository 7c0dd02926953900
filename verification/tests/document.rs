use labanim::bone::AnimDataBone;
use labanim::collada::{write_all_matrices, write_collada_data, write_collada_document, write_matrix};
use labanim::d3d::{lwMatrix43, lwMatrix44, F32_ONE_BITS, F32_ZERO_BITS};
use labanim::error::LabError;
use labanim::text::{sanitize_name, time_text, u64_to_dec};
use labanim::transform::LocalTransform;
use labanim::MIN_VERSION;

fn le16(out: &mut Vec<u8>, v: u16) {
    out.extend_from_slice(&v.to_le_bytes());
}

fn le32(out: &mut Vec<u8>, v: u32) {
    out.extend_from_slice(&v.to_le_bytes());
}

fn name64(out: &mut Vec<u8>, name: &str) {
    let mut buf = [0u8; 64];
    let bytes = name.as_bytes();
    buf[..bytes.len()].copy_from_slice(bytes);
    out.extend_from_slice(&buf);
}

/// A 4x4-encoded file: a root with the given name and one child bone,
/// one marker (id 5) on the root; every stored matrix is the identity,
/// as bit patterns.
fn small_mat44_file(frames: u32, root_name: &str) -> Vec<u8> {
    let mut v = Vec::new();
    le16(&mut v, MIN_VERSION);
    le16(&mut v, 0);
    le32(&mut v, 2);
    le32(&mut v, frames);
    le32(&mut v, 1);
    le32(&mut v, 2);
    name64(&mut v, root_name);
    le32(&mut v, 0);
    le32(&mut v, 4294967295);
    name64(&mut v, "Child");
    le32(&mut v, 1);
    le32(&mut v, 0);
    let identity: [u32; 16] = [
        F32_ONE_BITS, F32_ZERO_BITS, F32_ZERO_BITS, F32_ZERO_BITS,
        F32_ZERO_BITS, F32_ONE_BITS, F32_ZERO_BITS, F32_ZERO_BITS,
        F32_ZERO_BITS, F32_ZERO_BITS, F32_ONE_BITS, F32_ZERO_BITS,
        F32_ZERO_BITS, F32_ZERO_BITS, F32_ZERO_BITS, F32_ONE_BITS,
    ];
    for _ in 0..2 {
        for e in identity {
            le32(&mut v, e);
        }
    }
    le32(&mut v, 5);
    le32(&mut v, 0);
    for e in identity {
        le32(&mut v, e);
    }
    for _ in 0..(2 * frames) {
        for e in identity {
            le32(&mut v, e);
        }
    }
    v
}

fn sixteen(text: &str) -> Vec<String> {
    (0..16).map(|_| String::from(text)).collect()
}

fn document_for(frames: u32, root_name: &str) -> String {
    let bytes = small_mat44_file(frames, root_name);
    let d = AnimDataBone::load_from_bytes(bytes.as_slice()).unwrap();
    let t = d.generate_joint_structure().unwrap();
    let rest_text = vec![sixteen("1"), sixteen("1")];
    let dummy_text = vec![vec![sixteen("0")], vec![]];
    let anim_text: Vec<Vec<String>> =
        (0..2).map(|_| (0..16 * frames).map(|_| String::from("7")).collect()).collect();
    let created = String::from("2024-01-01 00:00:00 UTC");
    write_collada_document(&t, frames, &created, &rest_text, &dummy_text, &anim_text)
}

#[test]
fn document_structure_and_fixed_metadata() {
    let doc = document_for(3, "Bip01 Spine");
    assert!(doc.starts_with("<COLLADA xmlns=\"http://www.collada.org/2005/11/COLLADASchema\" version=\"1.4.1\">"));
    assert!(doc.ends_with("</COLLADA>"));
    assert!(doc.contains("<author>Perseus</author>"));
    assert!(doc.contains("<created>2024-01-01 00:00:00 UTC</created>"));
    assert!(doc.contains("<up_axis>Z_UP</up_axis>"));
    assert!(doc.contains("<visual_scene id=\"Scene\" name=\"Scene\">"));
    assert!(doc.contains("<node id=\"Skeleton\" name=\"Skeleton\" type=\"NODE\">"));
    assert!(doc.contains("<scene><instance_visual_scene url=\"#Scene\"></instance_visual_scene></scene>"));
    // the asset block comes before the scene graph, the scene graph
    // before the animation library, and that before the instantiation
    let asset = doc.find("<asset>").unwrap();
    let scenes = doc.find("<library_visual_scenes>").unwrap();
    let anims = doc.find("<library_animations>").unwrap();
    let inst = doc.find("<scene>").unwrap();
    assert!(asset < scenes && scenes < anims && anims < inst);
}

#[test]
fn joint_ids_are_sanitized_but_names_kept_verbatim() {
    let doc = document_for(1, "Bip01 Spine");
    assert!(doc.contains("<node id=\"Bip01_Spine\" sid=\"Bip01_Spine\" name=\"Bip01 Spine\" type=\"JOINT\">"));
    assert!(doc.contains("<node id=\"Child\" sid=\"Child\" name=\"Child\" type=\"JOINT\">"));
    // the marker with id 5 hangs off the root as a plain node
    assert!(doc.contains("<node id=\"Dummy_5\" name=\"Dummy 5\" type=\"NODE\">"));
}

#[test]
fn name_bytes_outside_utf8_are_replaced_not_passed_through() {
    let bytes = small_mat44_file(1, "X\u{0}");
    // overwrite the root name's first byte with an invalid UTF-8 byte
    let mut bytes = bytes;
    bytes[20] = 0xFF;
    let d = AnimDataBone::load_from_bytes(bytes.as_slice()).unwrap();
    let t = d.generate_joint_structure().unwrap();
    let rest_text = vec![sixteen("1"), sixteen("1")];
    let dummy_text = vec![vec![sixteen("0")], vec![]];
    let anim_text = vec![sixteen("7"), sixteen("7")];
    let created = String::from("now");
    let doc = write_collada_document(&t, 1, &created, &rest_text, &dummy_text, &anim_text);
    assert!(doc.contains('\u{FFFD}'));
    assert!(!doc.as_bytes().contains(&0xFFu8));
}

#[test]
fn quotes_in_names_are_escaped_in_attributes() {
    let doc = document_for(1, "a\"b");
    assert!(doc.contains("id=\"a&quot;b\""));
    assert!(doc.contains("name=\"a&quot;b\""));
}

#[test]
fn time_samples_follow_the_fixed_frame_rate() {
    assert_eq!(time_text(0), "0");
    assert_eq!(time_text(1), "0.04");
    assert_eq!(time_text(2), "0.08");
    assert_eq!(time_text(5), "0.2");
    assert_eq!(time_text(25), "1");
    assert_eq!(time_text(30), "1.2");
    assert_eq!(time_text(228), "9.12");
    // the same values the source tool computes in 32-bit floats
    for i in 0..1000u32 {
        assert_eq!(time_text(i), (i as f32 / 25.0).to_string(), "sample {}", i);
    }
}

#[test]
fn input_source_holds_one_sample_per_frame() {
    let doc = document_for(3, "Root");
    assert!(doc.contains("<float_array id=\"Root_pose_matrix-input-array\" count=\"3\">0 0.04 0.08 </float_array>"));
    assert!(doc.contains("<accessor source=\"#Root_pose_matrix-input-array\" count=\"3\" stride=\"1\">"));
    assert!(doc.contains("<param name=\"TIME\" type=\"float\">"));
}

#[test]
fn output_source_holds_sixteen_values_per_frame() {
    let doc = document_for(3, "Root");
    // 16 x 3 values, each written once with a trailing space
    let expected: String = std::iter::repeat("7 ").take(48).collect();
    assert!(doc.contains(&format!(
        "<float_array id=\"Root_pose_matrix-output-array\" count=\"48\">{}</float_array>",
        expected
    )));
    assert!(doc.contains("<accessor source=\"#Root_pose_matrix-output-array\" count=\"3\" stride=\"16\">"));
    assert!(doc.contains("<param name=\"TRANSFORM\" type=\"float4x4\">"));
}

#[test]
fn interpolation_sampler_and_channel_are_bound_per_bone() {
    let doc = document_for(2, "Root");
    assert!(doc.contains("<Name_array id=\"Root_pose_matrix-interpolation-array\" count=\"2\">LINEAR LINEAR </Name_array>"));
    assert!(doc.contains("<input semantic=\"INPUT\" source=\"#Root_pose_matrix-input\">"));
    assert!(doc.contains("<input semantic=\"OUTPUT\" source=\"#Root_pose_matrix-output\">"));
    assert!(doc.contains("<input semantic=\"INTERPOLATION\" source=\"#Root_pose_matrix-interpolation\">"));
    assert!(doc.contains("<channel source=\"#Root_pose_matrix-sampler\" target=\"Root/transform\">"));
    assert!(doc.contains("<animation id=\"Child_pose_matrix\" name=\"Child_pose_matrix\">"));
}

#[test]
fn stamped_document_carries_a_created_element() {
    let bytes = small_mat44_file(1, "Root");
    let d = AnimDataBone::load_from_bytes(bytes.as_slice()).unwrap();
    let t = d.generate_joint_structure().unwrap();
    let rest_text = vec![sixteen("1"), sixteen("1")];
    let dummy_text = vec![vec![sixteen("0")], vec![]];
    let anim_text = vec![sixteen("7"), sixteen("7")];
    let doc = write_collada_data(&t, 1, &rest_text, &dummy_text, &anim_text);
    let open = doc.find("<created>").unwrap();
    let close = doc.find("</created>").unwrap();
    assert!(open + "<created>".len() < close, "the timestamp must not be empty");
}

#[test]
fn decimal_rendering_is_exact() {
    assert_eq!(u64_to_dec(0), "0");
    assert_eq!(u64_to_dec(9), "9");
    assert_eq!(u64_to_dec(10), "10");
    assert_eq!(u64_to_dec(4294967295), "4294967295");
    assert_eq!(u64_to_dec(16 * 228), "3648");
}

#[test]
fn sanitizing_replaces_every_space() {
    let s = sanitize_name(&b"Bip01 R Finger0Nub".to_vec());
    assert_eq!(s, b"Bip01_R_Finger0Nub".to_vec());
}

#[test]
fn matrix_element_writes_values_in_order() {
    let vals: Vec<String> = (0..16).map(|i| i.to_string()).collect();
    let mut out = String::new();
    write_matrix(&mut out, &vals);
    assert_eq!(
        out,
        "<matrix sid=\"transform\">0 1 2 3 4 5 6 7 8 9 10 11 12 13 14 15 </matrix>"
    );
    let mut plain = String::new();
    write_all_matrices(&mut plain, &vals);
    assert_eq!(plain, "0 1 2 3 4 5 6 7 8 9 10 11 12 13 14 15 ");
}

#[test]
fn whole_document_of_a_single_bone_file() {
    let mut v = Vec::new();
    le16(&mut v, MIN_VERSION);
    le16(&mut v, 0);
    le32(&mut v, 1);
    le32(&mut v, 1);
    le32(&mut v, 0);
    le32(&mut v, 2);
    name64(&mut v, "Root");
    le32(&mut v, 0);
    le32(&mut v, 4294967295);
    v.extend(std::iter::repeat(0u8).take(64)); // inverse bind matrix
    v.extend(std::iter::repeat(0u8).take(64)); // one 4x4 key frame
    let d = AnimDataBone::load_from_bytes(v.as_slice()).unwrap();
    let t = d.generate_joint_structure().unwrap();
    let rest_text = vec![sixteen("1")];
    let dummy_text: Vec<Vec<Vec<String>>> = vec![vec![]];
    let anim_text = vec![sixteen("7")];
    let created = String::from("T");
    let doc = write_collada_document(&t, 1, &created, &rest_text, &dummy_text, &anim_text);
    let mut expected = String::new();
    expected.push_str("<COLLADA xmlns=\"http://www.collada.org/2005/11/COLLADASchema\" version=\"1.4.1\">");
    expected.push_str("<asset><contributor><author>Perseus</author></contributor>");
    expected.push_str("<created>T</created><up_axis>Z_UP</up_axis></asset>");
    expected.push_str("<library_visual_scenes><visual_scene id=\"Scene\" name=\"Scene\">");
    expected.push_str("<node id=\"Skeleton\" name=\"Skeleton\" type=\"NODE\">");
    expected.push_str("<node id=\"Root\" sid=\"Root\" name=\"Root\" type=\"JOINT\">");
    expected.push_str("<matrix sid=\"transform\">1 1 1 1 1 1 1 1 1 1 1 1 1 1 1 1 </matrix></node>");
    expected.push_str("</node></visual_scene></library_visual_scenes>");
    expected.push_str("<library_animations><animation id=\"Root_pose_matrix\" name=\"Root_pose_matrix\">");
    expected.push_str("<source id=\"Root_pose_matrix-input\">");
    expected.push_str("<float_array id=\"Root_pose_matrix-input-array\" count=\"1\">0 </float_array>");
    expected.push_str("<technique_common><accessor source=\"#Root_pose_matrix-input-array\" count=\"1\" stride=\"1\">");
    expected.push_str("<param name=\"TIME\" type=\"float\"></param></accessor></technique_common></source>");
    expected.push_str("<source id=\"Root_pose_matrix-output\">");
    expected.push_str("<float_array id=\"Root_pose_matrix-output-array\" count=\"16\">7 7 7 7 7 7 7 7 7 7 7 7 7 7 7 7 </float_array>");
    expected.push_str("<technique_common><accessor source=\"#Root_pose_matrix-output-array\" count=\"1\" stride=\"16\">");
    expected.push_str("<param name=\"TRANSFORM\" type=\"float4x4\"></param></accessor></technique_common></source>");
    expected.push_str("<source id=\"Root_pose_matrix-interpolation\">");
    expected.push_str("<Name_array id=\"Root_pose_matrix-interpolation-array\" count=\"1\">LINEAR </Name_array>");
    expected.push_str("<technique_common><accessor source=\"#Root_pose_matrix-interpolation-array\" count=\"1\" stride=\"1\">");
    expected.push_str("<param name=\"INTERPOLATION\" type=\"name\"></param></accessor></technique_common></source>");
    expected.push_str("<sampler id=\"Root_pose_matrix-sampler\">");
    expected.push_str("<input semantic=\"INPUT\" source=\"#Root_pose_matrix-input\"></input>");
    expected.push_str("<input semantic=\"OUTPUT\" source=\"#Root_pose_matrix-output\"></input>");
    expected.push_str("<input semantic=\"INTERPOLATION\" source=\"#Root_pose_matrix-interpolation\"></input></sampler>");
    expected.push_str("<channel source=\"#Root_pose_matrix-sampler\" target=\"Root/transform\"></channel>");
    expected.push_str("</animation></library_animations>");
    expected.push_str("<scene><instance_visual_scene url=\"#Scene\"></instance_visual_scene></scene></COLLADA>");
    assert_eq!(doc, expected);
}

#[test]
fn rest_pose_of_identity_matrix_bone_is_identity() {
    let bytes = small_mat44_file(2, "Root");
    let d = AnimDataBone::load_from_bytes(bytes.as_slice()).unwrap();
    let rest = d.generate_position_matrices_at_rest().unwrap();
    assert_eq!(rest.len(), 2);
    match &rest[0] {
        LocalTransform::Matrix(m) => {
            assert_eq!(m.m, lwMatrix44::identity().m);
        },
        other => panic!("expected a matrix rest pose, got {:?}", other),
    }
}

#[test]
fn quaternion_lookup_on_matrix_file_is_a_track_mismatch() {
    let bytes = small_mat44_file(2, "Root");
    let d = AnimDataBone::load_from_bytes(bytes.as_slice()).unwrap();
    match d.get_transforms_for_frame(0) {
        Err(LabError::TrackMismatch { .. }) => {},
        other => panic!("expected a track mismatch, got {:?}", other),
    }
    match d.get_transforms_for_frame_and_bone(1, 1) {
        Err(LabError::TrackMismatch { bone: 1, frame: 1 }) => {},
        other => panic!("expected a track mismatch, got {:?}", other),
    }
}

#[test]
fn stored_4x3_matrices_expand_with_a_fixed_last_column() {
    let m43 = lwMatrix43 { m: (1..=12).collect() };
    let m44 = m43.get_matrix4();
    assert_eq!(
        m44.m,
        vec![1, 2, 3, 0, 4, 5, 6, 0, 7, 8, 9, 0, 10, 11, 12, F32_ONE_BITS]
    );
    let id = lwMatrix44::identity();
    assert_eq!(id.print_order(), id.m, "the identity is symmetric");
    let seq = lwMatrix44 { m: (0..16).collect() };
    assert_eq!(
        seq.print_order(),
        vec![0, 4, 8, 12, 1, 5, 9, 13, 2, 6, 10, 14, 3, 7, 11, 15]
    );
}
