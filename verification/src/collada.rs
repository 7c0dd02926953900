use vstd::prelude::*;
use vstd::string::StringExecFns;

use crate::skeleton::JointTree;
use crate::text::{
    bytes_to_text, current_utc_text, escape_attr, sanitize_name, spec_dec, spec_escape_attr,
    spec_digit, spec_sanitize, spec_time_text, time_text, u64_to_dec, utf8_text_of,
};

verus! {

// ---------------------------------------------------------------------
// Document model
// ---------------------------------------------------------------------

/// One attribute as written inside a start tag.
pub open spec fn spec_attr(name: Seq<char>, value: Seq<char>) -> Seq<char> {
    " "@ + name + "=\""@ + value + "\""@
}

/// One element: start tag with its attributes, body, end tag.
pub open spec fn spec_elem(name: Seq<char>, attrs: Seq<char>, body: Seq<char>) -> Seq<char> {
    "<"@ + name + attrs + ">"@ + body + "</"@ + name + ">"@
}

/// The values of a float or name array, each followed by one space.
pub open spec fn spec_join_vals(vals: Seq<String>, i: int) -> Seq<char>
    decreases i,
{
    if i <= 0 {
        Seq::empty()
    } else {
        spec_join_vals(vals, i - 1) + vals[i - 1]@ + " "@
    }
}

/// A bone's `id`/`sid` as the document writes it: the name with spaces
/// replaced by underscores, quotes escaped, decoded to text.
pub open spec fn spec_sid_text(name: Seq<u8>) -> Seq<char> {
    utf8_text_of(spec_escape_attr(spec_sanitize(name)))
}

/// A bone's `name` attribute as the document writes it: the raw name,
/// quotes escaped, decoded to text.
pub open spec fn spec_name_text(name: Seq<u8>) -> Seq<char> {
    utf8_text_of(spec_escape_attr(name))
}

// ---------------------------------------------------------------------
// Exec building blocks
// ---------------------------------------------------------------------

/// `a` followed by `b`.
fn join2(a: &str, b: &str) -> (r: String)
    ensures
        r@ == a@ + b@,
{
    let mut s = String::from_str(a);
    s.append(b);
    s
}

/// An empty string.
fn empty_str() -> (r: String)
    ensures
        r@ == Seq::<char>::empty(),
{
    String::new()
}

/// `a` with `b` appended.
fn cat(a: String, b: &String) -> (r: String)
    ensures
        r@ == a@ + b@,
{
    let mut s = a;
    s.append(b.as_str());
    s
}

/// One rendered attribute.
fn mk_attr(name: &str, value: &str) -> (r: String)
    ensures
        r@ == spec_attr(name@, value@),
{
    let mut s = String::from_str(" ");
    s.append(name);
    s.append("=\"");
    s.append(value);
    s.append("\"");
    proof {
        assert(s@ =~= spec_attr(name@, value@));
    }
    s
}

/// One rendered element.
fn mk_elem(name: &str, attrs: &String, body: &String) -> (r: String)
    ensures
        r@ == spec_elem(name@, attrs@, body@),
{
    let mut s = String::from_str("<");
    s.append(name);
    s.append(attrs.as_str());
    s.append(">");
    s.append(body.as_str());
    s.append("</");
    s.append(name);
    s.append(">");
    proof {
        assert(s@ =~= spec_elem(name@, attrs@, body@));
    }
    s
}

fn push_attr(out: &mut String, name: &str, value: &str)
    ensures
        final(out)@ == old(out)@ + spec_attr(name@, value@),
{
    out.append(" ");
    out.append(name);
    out.append("=\"");
    out.append(value);
    out.append("\"");
    proof {
        assert(out@ =~= old(out)@ + spec_attr(name@, value@));
    }
}

fn push_open(out: &mut String, name: &str)
    ensures
        final(out)@ == old(out)@ + "<"@ + name@,
{
    out.append("<");
    out.append(name);
    proof {
        assert(out@ =~= old(out)@ + "<"@ + name@);
    }
}

fn push_gt(out: &mut String)
    ensures
        final(out)@ == old(out)@ + ">"@,
{
    out.append(">");
}

fn push_close(out: &mut String, name: &str)
    ensures
        final(out)@ == old(out)@ + "</"@ + name@ + ">"@,
{
    out.append("</");
    out.append(name);
    out.append(">");
    proof {
        assert(out@ =~= old(out)@ + "</"@ + name@ + ">"@);
    }
}

/// An element with no attributes whose body is the given text.
fn push_text_elem(out: &mut String, name: &str, text: &str)
    ensures
        final(out)@ == old(out)@ + spec_elem(name@, Seq::empty(), text@),
{
    push_open(out, name);
    push_gt(out);
    out.append(text);
    push_close(out, name);
    proof {
        assert(out@ =~= old(out)@ + spec_elem(name@, Seq::empty(), text@));
    }
}

/// Writes the values of an array, each followed by one space.
pub fn write_all_matrices(out: &mut String, vals: &Vec<String>)
    ensures
        final(out)@ == old(out)@ + spec_join_vals(vals@, vals@.len() as int),
{
    let n = vals.len();
    let mut j: usize = 0;
    while j < n
        invariant
            vals@.len() == n,
            j <= n,
            out@ == old(out)@ + spec_join_vals(vals@, j as int),
        decreases n - j,
    {
        out.append(vals[j].as_str());
        out.append(" ");
        proof {
            assert(out@ =~= old(out)@ + spec_join_vals(vals@, j + 1));
        }
        j = j + 1;
    }
}

/// A joint's or marker's rest matrix element.
pub open spec fn spec_matrix_elem(vals: Seq<String>) -> Seq<char> {
    spec_elem(
        "matrix"@,
        spec_attr("sid"@, "transform"@),
        spec_join_vals(vals, vals.len() as int),
    )
}

/// Writes a `matrix` element carrying sixteen formatted values.
pub fn write_matrix(out: &mut String, vals: &Vec<String>)
    ensures
        final(out)@ == old(out)@ + spec_matrix_elem(vals@),
{
    push_open(out, "matrix");
    push_attr(out, "sid", "transform");
    push_gt(out);
    write_all_matrices(out, vals);
    push_close(out, "matrix");
    proof {
        assert(out@ =~= old(out)@ + spec_matrix_elem(vals@));
    }
}

// ---------------------------------------------------------------------
// Scene graph
// ---------------------------------------------------------------------

/// An attachment marker's scene node.
pub open spec fn spec_dummy_node(id: u32, vals: Seq<String>) -> Seq<char> {
    spec_elem(
        "node"@,
        spec_attr("id"@, "Dummy_"@ + spec_dec(id as int)) + spec_attr(
            "name"@,
            "Dummy "@ + spec_dec(id as int),
        ) + spec_attr("type"@, "NODE"@),
        spec_matrix_elem(vals),
    )
}

/// The scene nodes of the first `d` attachment markers of one joint.
pub open spec fn spec_dummy_nodes(ids: Seq<u32>, texts: Seq<Vec<String>>, d: int) -> Seq<char>
    decreases d,
{
    if d <= 0 {
        Seq::empty()
    } else {
        spec_dummy_nodes(ids, texts, d - 1) + spec_dummy_node(ids[d - 1], texts[d - 1]@)
    }
}

fn write_dummy_node(out: &mut String, id: u32, vals: &Vec<String>)
    ensures
        final(out)@ == old(out)@ + spec_dummy_node(id, vals@),
{
    let dec = u64_to_dec(id as u64);
    let idv = join2("Dummy_", dec.as_str());
    let namev = join2("Dummy ", dec.as_str());
    push_open(out, "node");
    push_attr(out, "id", idv.as_str());
    push_attr(out, "name", namev.as_str());
    push_attr(out, "type", "NODE");
    push_gt(out);
    write_matrix(out, vals);
    push_close(out, "node");
    proof {
        assert(out@ =~= old(out)@ + spec_dummy_node(id, vals@));
    }
}

/// The text tables have one row of sixteen formatted values per joint
/// (`rest`), and one row of sixteen values per attached marker of each
/// joint (`dummy`).
pub open spec fn spec_texts_wf(
    t: JointTree,
    rest: Seq<Vec<String>>,
    dummy: Seq<Vec<Vec<String>>>,
) -> bool {
    let n = t.joints@.len() as int;
    &&& rest.len() == n
    &&& dummy.len() == n
    &&& forall|k: int|
        0 <= k < n ==> (#[trigger] dummy[k])@.len() == t.joints@[k].dummies@.len()
}

/// The scene node of joint `k`: its sanitized ids, raw name, rest
/// matrix, attached markers and, nested, its children in index order.
pub open spec fn spec_joint_node(
    t: JointTree,
    rest: Seq<Vec<String>>,
    dummy: Seq<Vec<Vec<String>>>,
    k: int,
) -> Seq<char>
    decreases t.joints@.len() - t.joints@[k].depth, t.joints@[k].children@.len() + 1
        when t.wf() && 0 <= k < t.joints@.len()
        via spec_joint_node_decreases
{
    let j = t.joints@[k];
    let sid = spec_sid_text(j.bone_name@);
    let nm = spec_name_text(j.bone_name@);
    spec_elem(
        "node"@,
        spec_attr("id"@, sid) + spec_attr("sid"@, sid) + spec_attr("name"@, nm) + spec_attr(
            "type"@,
            "JOINT"@,
        ),
        spec_matrix_elem(rest[k]@) + spec_dummy_nodes(j.dummies@, dummy[k]@, j.dummies@.len() as int)
            + spec_child_nodes(t, rest, dummy, k, j.children@.len() as int),
    )
}

#[via_fn]
proof fn spec_joint_node_decreases(
    t: JointTree,
    rest: Seq<Vec<String>>,
    dummy: Seq<Vec<Vec<String>>>,
    k: int,
) {
    assert(t.joint_wf(k));
}

/// The scene nodes of the first `c` children of joint `k`.
pub open spec fn spec_child_nodes(
    t: JointTree,
    rest: Seq<Vec<String>>,
    dummy: Seq<Vec<Vec<String>>>,
    k: int,
    c: int,
) -> Seq<char>
    decreases t.joints@.len() - t.joints@[k].depth, c
        when t.wf() && 0 <= k < t.joints@.len() && c <= t.joints@[k].children@.len()
        via spec_child_nodes_decreases
{
    if c <= 0 {
        Seq::empty()
    } else {
        spec_child_nodes(t, rest, dummy, k, c - 1) + spec_joint_node(
            t,
            rest,
            dummy,
            t.joints@[k].children@[c - 1] as int,
        )
    }
}

#[via_fn]
proof fn spec_child_nodes_decreases(
    t: JointTree,
    rest: Seq<Vec<String>>,
    dummy: Seq<Vec<Vec<String>>>,
    k: int,
    c: int,
) {
    if c > 0 {
        assert(t.joint_wf(k));
        let ch = t.joints@[k].children@[c - 1] as int;
        assert(t.joint_wf(ch));
        assert(t.joints@[ch].parent == Some(k as usize));
        assert(ch != t.root as int);
        assert(t.joints@[ch].depth == t.joints@[k].depth + 1);
    }
}

/// Writes the scene node of joint `k` and, nested, its subtree.
#[verifier::rlimit(100)]
#[verifier::spinoff_prover]
pub fn write_joint_node(
    out: &mut String,
    t: &JointTree,
    rest_text: &Vec<Vec<String>>,
    dummy_text: &Vec<Vec<Vec<String>>>,
    k: usize,
)
    requires
        t.wf(),
        (k as int) < t.joints@.len(),
        spec_texts_wf(*t, rest_text@, dummy_text@),
    ensures
        final(out)@ == old(out)@ + spec_joint_node(*t, rest_text@, dummy_text@, k as int),
    decreases t.joints@.len() - t.joints@[k as int].depth, t.joints@[k as int].children@.len() + 1,
{
    proof {
        assert(t.joint_wf(k as int));
    }
    let j = &t.joints[k];
    let sanitized = sanitize_name(&j.bone_name);
    let esc_sid = escape_attr(&sanitized);
    let sid = bytes_to_text(&esc_sid);
    let esc_nm = escape_attr(&j.bone_name);
    let nm = bytes_to_text(&esc_nm);
    push_open(out, "node");
    push_attr(out, "id", sid.as_str());
    push_attr(out, "sid", sid.as_str());
    push_attr(out, "name", nm.as_str());
    push_attr(out, "type", "JOINT");
    push_gt(out);
    write_matrix(out, &rest_text[k]);
    let ghost mid = out@;
    let dn = j.dummies.len();
    let mut d: usize = 0;
    while d < dn
        invariant
            t.wf(),
            (k as int) < t.joints@.len(),
            spec_texts_wf(*t, rest_text@, dummy_text@),
            j == &t.joints@[k as int],
            dn == j.dummies@.len(),
            d <= dn,
            out@ == mid + spec_dummy_nodes(j.dummies@, dummy_text@[k as int]@, d as int),
        decreases dn - d,
    {
        write_dummy_node(out, j.dummies[d], &dummy_text[k][d]);
        proof {
            assert(out@ =~= mid + spec_dummy_nodes(
                j.dummies@,
                dummy_text@[k as int]@,
                d + 1,
            ));
        }
        d = d + 1;
    }
    let ghost mid2 = out@;
    let cn = j.children.len();
    let mut c: usize = 0;
    while c < cn
        invariant
            t.wf(),
            (k as int) < t.joints@.len(),
            spec_texts_wf(*t, rest_text@, dummy_text@),
            j == &t.joints@[k as int],
            cn == j.children@.len(),
            c <= cn,
            out@ == mid2 + spec_child_nodes(*t, rest_text@, dummy_text@, k as int, c as int),
        decreases cn - c,
    {
        let child = j.children[c];
        proof {
            assert(t.joint_wf(k as int));
            assert(t.joint_wf(child as int));
        }
        write_joint_node(out, t, rest_text, dummy_text, child);
        proof {
            assert(out@ =~= mid2 + spec_child_nodes(
                *t,
                rest_text@,
                dummy_text@,
                k as int,
                c + 1,
            ));
        }
        c = c + 1;
    }
    push_close(out, "node");
    proof {
        assert(out@ =~= old(out)@ + spec_joint_node(*t, rest_text@, dummy_text@, k as int));
    }
}

// ---------------------------------------------------------------------
// Asset and scene sections
// ---------------------------------------------------------------------

/// The asset metadata: author, generation time, fixed up axis.
pub open spec fn spec_asset(created: Seq<char>) -> Seq<char> {
    spec_elem(
        "asset"@,
        Seq::empty(),
        spec_elem(
            "contributor"@,
            Seq::empty(),
            spec_elem("author"@, Seq::empty(), "Perseus"@),
        ) + spec_elem("created"@, Seq::empty(), created) + spec_elem(
            "up_axis"@,
            Seq::empty(),
            "Z_UP"@,
        ),
    )
}

/// Writes the asset metadata.
pub fn write_asset_data(out: &mut String, created: &String)
    ensures
        final(out)@ == old(out)@ + spec_asset(created@),
{
    push_open(out, "asset");
    push_gt(out);
    push_open(out, "contributor");
    push_gt(out);
    push_text_elem(out, "author", "Perseus");
    push_close(out, "contributor");
    push_text_elem(out, "created", created.as_str());
    push_text_elem(out, "up_axis", "Z_UP");
    push_close(out, "asset");
    proof {
        assert(out@ =~= old(out)@ + spec_asset(created@));
    }
}

/// The scene-graph section: one visual scene holding a skeleton node and
/// under it the whole joint hierarchy, rooted at the tree's root.
pub open spec fn spec_visual_scenes(
    t: JointTree,
    rest: Seq<Vec<String>>,
    dummy: Seq<Vec<Vec<String>>>,
) -> Seq<char> {
    spec_elem(
        "library_visual_scenes"@,
        Seq::empty(),
        spec_elem(
            "visual_scene"@,
            spec_attr("id"@, "Scene"@) + spec_attr("name"@, "Scene"@),
            spec_elem(
                "node"@,
                spec_attr("id"@, "Skeleton"@) + spec_attr("name"@, "Skeleton"@) + spec_attr(
                    "type"@,
                    "NODE"@,
                ),
                spec_joint_node(t, rest, dummy, t.root as int),
            ),
        ),
    )
}

/// Writes the scene-graph section.
#[verifier::rlimit(100)]
#[verifier::spinoff_prover]
pub fn write_visual_scene_data(
    out: &mut String,
    t: &JointTree,
    rest_text: &Vec<Vec<String>>,
    dummy_text: &Vec<Vec<Vec<String>>>,
)
    requires
        t.wf(),
        spec_texts_wf(*t, rest_text@, dummy_text@),
    ensures
        final(out)@ == old(out)@ + spec_visual_scenes(*t, rest_text@, dummy_text@),
{
    let mut jn = String::new();
    write_joint_node(&mut jn, t, rest_text, dummy_text, t.root);
    proof {
        assert(jn@ =~= spec_joint_node(*t, rest_text@, dummy_text@, t.root as int));
    }
    let skel_attrs = cat(
        cat(mk_attr("id", "Skeleton"), &mk_attr("name", "Skeleton")),
        &mk_attr("type", "NODE"),
    );
    let skel = mk_elem("node", &skel_attrs, &jn);
    let vs_attrs = cat(mk_attr("id", "Scene"), &mk_attr("name", "Scene"));
    let vs = mk_elem("visual_scene", &vs_attrs, &skel);
    let lib = mk_elem("library_visual_scenes", &empty_str(), &vs);
    proof {
        assert(lib@ == spec_visual_scenes(*t, rest_text@, dummy_text@));
    }
    out.append(lib.as_str());
}

/// The scene instantiation referencing the visual scene.
pub open spec fn spec_scene() -> Seq<char> {
    spec_elem(
        "scene"@,
        Seq::empty(),
        spec_elem("instance_visual_scene"@, spec_attr("url"@, "#Scene"@), Seq::empty()),
    )
}

/// Writes the scene instantiation.
pub fn write_scene_element(out: &mut String)
    ensures
        final(out)@ == old(out)@ + spec_scene(),
{
    push_open(out, "scene");
    push_gt(out);
    push_open(out, "instance_visual_scene");
    push_attr(out, "url", "#Scene");
    push_gt(out);
    push_close(out, "instance_visual_scene");
    push_close(out, "scene");
    proof {
        assert(out@ =~= old(out)@ + spec_scene());
    }
}

// ---------------------------------------------------------------------
// Animation library
// ---------------------------------------------------------------------

/// The first `f` time samples, each followed by one space: sample `i`
/// reads `i / 25` seconds.
pub open spec fn spec_times(f: int) -> Seq<char>
    decreases f,
{
    if f <= 0 {
        Seq::empty()
    } else {
        spec_times(f - 1) + spec_time_text(f - 1) + " "@
    }
}

/// Writes the `fnum` time samples of the input source.
fn write_times(out: &mut String, fnum: u32)
    ensures
        final(out)@ == old(out)@ + spec_times(fnum as int),
{
    let mut j: u32 = 0;
    while j < fnum
        invariant
            j <= fnum,
            out@ == old(out)@ + spec_times(j as int),
        decreases fnum - j,
    {
        let t = time_text(j);
        out.append(t.as_str());
        out.append(" ");
        proof {
            assert(out@ =~= old(out)@ + spec_times(j + 1));
        }
        j = j + 1;
    }
}

/// `f` repetitions of the literal `LINEAR`, each followed by one space.
pub open spec fn spec_interps(f: int) -> Seq<char>
    decreases f,
{
    if f <= 0 {
        Seq::empty()
    } else {
        spec_interps(f - 1) + "LINEAR "@
    }
}

fn write_interps(out: &mut String, fnum: u32)
    ensures
        final(out)@ == old(out)@ + spec_interps(fnum as int),
{
    let mut j: u32 = 0;
    while j < fnum
        invariant
            j <= fnum,
            out@ == old(out)@ + spec_interps(j as int),
        decreases fnum - j,
    {
        out.append("LINEAR ");
        proof {
            assert(out@ =~= old(out)@ + spec_interps(j + 1));
        }
        j = j + 1;
    }
}

/// The time-sample source: `fnum` floats, sample `i` at `i / 25`
/// seconds, under the fixed 25-samples-per-second convention.
#[verifier::opaque]
pub open spec fn spec_source_input(s: Seq<char>, fnum: int) -> Seq<char> {
    spec_elem(
        "source"@,
        spec_attr("id"@, s + "_pose_matrix-input"@),
        spec_elem(
            "float_array"@,
            spec_attr("id"@, s + "_pose_matrix-input-array"@) + spec_attr("count"@, spec_dec(fnum)),
            spec_times(fnum),
        ) + spec_elem(
            "technique_common"@,
            Seq::empty(),
            spec_elem(
                "accessor"@,
                spec_attr("source"@, "#"@ + s + "_pose_matrix-input-array"@) + spec_attr(
                    "count"@,
                    spec_dec(fnum),
                ) + spec_attr("stride"@, "1"@),
                spec_elem(
                    "param"@,
                    spec_attr("name"@, "TIME"@) + spec_attr("type"@, "float"@),
                    Seq::empty(),
                ),
            ),
        ),
    )
}

/// The output source: `16 * fnum` floats, the flattened per-frame
/// transform matrices of one bone.
#[verifier::opaque]
pub open spec fn spec_source_output(s: Seq<char>, fnum: int, vals: Seq<String>) -> Seq<char> {
    spec_elem(
        "source"@,
        spec_attr("id"@, s + "_pose_matrix-output"@),
        spec_elem(
            "float_array"@,
            spec_attr("id"@, s + "_pose_matrix-output-array"@) + spec_attr(
                "count"@,
                spec_dec(16 * fnum),
            ),
            spec_join_vals(vals, vals.len() as int),
        ) + spec_elem(
            "technique_common"@,
            Seq::empty(),
            spec_elem(
                "accessor"@,
                spec_attr("source"@, "#"@ + s + "_pose_matrix-output-array"@) + spec_attr(
                    "count"@,
                    spec_dec(fnum),
                ) + spec_attr("stride"@, "16"@),
                spec_elem(
                    "param"@,
                    spec_attr("name"@, "TRANSFORM"@) + spec_attr("type"@, "float4x4"@),
                    Seq::empty(),
                ),
            ),
        ),
    )
}

/// The interpolation source: `fnum` repetitions of `LINEAR`.
#[verifier::opaque]
pub open spec fn spec_source_interp(s: Seq<char>, fnum: int) -> Seq<char> {
    spec_elem(
        "source"@,
        spec_attr("id"@, s + "_pose_matrix-interpolation"@),
        spec_elem(
            "Name_array"@,
            spec_attr("id"@, s + "_pose_matrix-interpolation-array"@) + spec_attr(
                "count"@,
                spec_dec(fnum),
            ),
            spec_interps(fnum),
        ) + spec_elem(
            "technique_common"@,
            Seq::empty(),
            spec_elem(
                "accessor"@,
                spec_attr("source"@, "#"@ + s + "_pose_matrix-interpolation-array"@) + spec_attr(
                    "count"@,
                    spec_dec(fnum),
                ) + spec_attr("stride"@, "1"@),
                spec_elem(
                    "param"@,
                    spec_attr("name"@, "INTERPOLATION"@) + spec_attr("type"@, "name"@),
                    Seq::empty(),
                ),
            ),
        ),
    )
}

/// The sampler binding the three sources to their semantics.
#[verifier::opaque]
pub open spec fn spec_sampler(s: Seq<char>) -> Seq<char> {
    spec_elem(
        "sampler"@,
        spec_attr("id"@, s + "_pose_matrix-sampler"@),
        spec_elem(
            "input"@,
            spec_attr("semantic"@, "INPUT"@) + spec_attr("source"@, "#"@ + s + "_pose_matrix-input"@),
            Seq::empty(),
        ) + spec_elem(
            "input"@,
            spec_attr("semantic"@, "OUTPUT"@) + spec_attr(
                "source"@,
                "#"@ + s + "_pose_matrix-output"@,
            ),
            Seq::empty(),
        ) + spec_elem(
            "input"@,
            spec_attr("semantic"@, "INTERPOLATION"@) + spec_attr(
                "source"@,
                "#"@ + s + "_pose_matrix-interpolation"@,
            ),
            Seq::empty(),
        ),
    )
}

/// The channel routing the sampler to the bone's transform target.
#[verifier::opaque]
pub open spec fn spec_channel(s: Seq<char>) -> Seq<char> {
    spec_elem(
        "channel"@,
        spec_attr("source"@, "#"@ + s + "_pose_matrix-sampler"@) + spec_attr(
            "target"@,
            s + "/transform"@,
        ),
        Seq::empty(),
    )
}

/// One bone's animation block: time samples, output matrices,
/// interpolation names, sampler and channel.
#[verifier::opaque]
pub open spec fn spec_anim_elem(s: Seq<char>, fnum: int, vals: Seq<String>) -> Seq<char> {
    spec_elem(
        "animation"@,
        spec_attr("id"@, s + "_pose_matrix"@) + spec_attr("name"@, s + "_pose_matrix"@),
        spec_source_input(s, fnum) + spec_source_output(s, fnum, vals) + spec_source_interp(s, fnum)
            + spec_sampler(s) + spec_channel(s),
    )
}

/// Writes one bone's animation block.  `sname` is the bone's sanitized
/// name; `vals` are the `16 * fnum` formatted entries of its per-frame
/// transforms.
fn mk_source_input(sname: &String, fnum: u32, fnum_dec: &String) -> (r: String)
    requires
        fnum_dec@ == spec_dec(fnum as int),
    ensures
        r@ == spec_source_input(sname@, fnum as int),
{
    let s = sname.as_str();
    let input_id = join2(s, "_pose_matrix-input");
    let input_arr = join2(s, "_pose_matrix-input-array");
    let input_arr_ref = join2("#", input_arr.as_str());
    let mut times = String::new();
    write_times(&mut times, fnum);
    proof {
        assert(times@ =~= spec_times(fnum as int));
    }
    let fa = mk_elem(
        "float_array",
        &cat(mk_attr("id", input_arr.as_str()), &mk_attr("count", fnum_dec.as_str())),
        &times,
    );
    let param = mk_elem(
        "param",
        &cat(mk_attr("name", "TIME"), &mk_attr("type", "float")),
        &empty_str(),
    );
    let acc = mk_elem(
        "accessor",
        &cat(
            cat(mk_attr("source", input_arr_ref.as_str()), &mk_attr("count", fnum_dec.as_str())),
            &mk_attr("stride", "1"),
        ),
        &param,
    );
    let tc = mk_elem("technique_common", &empty_str(), &acc);
    let src = mk_elem("source", &mk_attr("id", input_id.as_str()), &cat(fa, &tc));
    proof {
        reveal(spec_source_input);
        assert(src@ == spec_source_input(sname@, fnum as int));
    }
    src
}

fn mk_source_output(
    sname: &String,
    fnum: u32,
    fnum_dec: &String,
    out_count: &String,
    vals: &Vec<String>,
) -> (r: String)
    requires
        fnum_dec@ == spec_dec(fnum as int),
        out_count@ == spec_dec(16 * (fnum as int)),
    ensures
        r@ == spec_source_output(sname@, fnum as int, vals@),
{
    let s = sname.as_str();
    let output_id = join2(s, "_pose_matrix-output");
    let output_arr = join2(s, "_pose_matrix-output-array");
    let output_arr_ref = join2("#", output_arr.as_str());
    let mut outvals = String::new();
    write_all_matrices(&mut outvals, vals);
    proof {
        assert(outvals@ =~= spec_join_vals(vals@, vals@.len() as int));
    }
    let fa = mk_elem(
        "float_array",
        &cat(mk_attr("id", output_arr.as_str()), &mk_attr("count", out_count.as_str())),
        &outvals,
    );
    let param = mk_elem(
        "param",
        &cat(mk_attr("name", "TRANSFORM"), &mk_attr("type", "float4x4")),
        &empty_str(),
    );
    let acc = mk_elem(
        "accessor",
        &cat(
            cat(mk_attr("source", output_arr_ref.as_str()), &mk_attr("count", fnum_dec.as_str())),
            &mk_attr("stride", "16"),
        ),
        &param,
    );
    let tc = mk_elem("technique_common", &empty_str(), &acc);
    let src = mk_elem("source", &mk_attr("id", output_id.as_str()), &cat(fa, &tc));
    proof {
        reveal(spec_source_output);
        assert(src@ == spec_source_output(sname@, fnum as int, vals@));
    }
    src
}

fn mk_source_interp(sname: &String, fnum: u32, fnum_dec: &String) -> (r: String)
    requires
        fnum_dec@ == spec_dec(fnum as int),
    ensures
        r@ == spec_source_interp(sname@, fnum as int),
{
    let s = sname.as_str();
    let interp_id = join2(s, "_pose_matrix-interpolation");
    let interp_arr = join2(s, "_pose_matrix-interpolation-array");
    let interp_arr_ref = join2("#", interp_arr.as_str());
    let mut interps = String::new();
    write_interps(&mut interps, fnum);
    proof {
        assert(interps@ =~= spec_interps(fnum as int));
    }
    let na = mk_elem(
        "Name_array",
        &cat(mk_attr("id", interp_arr.as_str()), &mk_attr("count", fnum_dec.as_str())),
        &interps,
    );
    let param = mk_elem(
        "param",
        &cat(mk_attr("name", "INTERPOLATION"), &mk_attr("type", "name")),
        &empty_str(),
    );
    let acc = mk_elem(
        "accessor",
        &cat(
            cat(mk_attr("source", interp_arr_ref.as_str()), &mk_attr("count", fnum_dec.as_str())),
            &mk_attr("stride", "1"),
        ),
        &param,
    );
    let tc = mk_elem("technique_common", &empty_str(), &acc);
    let src = mk_elem("source", &mk_attr("id", interp_id.as_str()), &cat(na, &tc));
    proof {
        reveal(spec_source_interp);
        assert(src@ == spec_source_interp(sname@, fnum as int));
    }
    src
}

fn mk_sampler(sname: &String) -> (r: String)
    ensures
        r@ == spec_sampler(sname@),
{
    let s = sname.as_str();
    let sampler_id = join2(s, "_pose_matrix-sampler");
    let input_ref = cat(join2("#", s), &String::from_str("_pose_matrix-input"));
    let output_ref = cat(join2("#", s), &String::from_str("_pose_matrix-output"));
    let interp_ref = cat(join2("#", s), &String::from_str("_pose_matrix-interpolation"));
    let in1 = mk_elem(
        "input",
        &cat(mk_attr("semantic", "INPUT"), &mk_attr("source", input_ref.as_str())),
        &empty_str(),
    );
    let in2 = mk_elem(
        "input",
        &cat(mk_attr("semantic", "OUTPUT"), &mk_attr("source", output_ref.as_str())),
        &empty_str(),
    );
    let in3 = mk_elem(
        "input",
        &cat(mk_attr("semantic", "INTERPOLATION"), &mk_attr("source", interp_ref.as_str())),
        &empty_str(),
    );
    let sampler = mk_elem(
        "sampler",
        &mk_attr("id", sampler_id.as_str()),
        &cat(cat(in1, &in2), &in3),
    );
    proof {
        reveal(spec_sampler);
        assert(sampler@ == spec_sampler(sname@));
    }
    sampler
}

fn mk_channel(sname: &String) -> (r: String)
    ensures
        r@ == spec_channel(sname@),
{
    let s = sname.as_str();
    let sampler_ref = cat(join2("#", s), &String::from_str("_pose_matrix-sampler"));
    let target = join2(s, "/transform");
    let channel = mk_elem(
        "channel",
        &cat(mk_attr("source", sampler_ref.as_str()), &mk_attr("target", target.as_str())),
        &empty_str(),
    );
    proof {
        reveal(spec_channel);
        assert(channel@ == spec_channel(sname@));
    }
    channel
}

/// Writes one bone's animation block.  `sname` is the bone's sanitized
/// name; `vals` are the `16 * fnum` formatted entries of its per-frame
/// transforms.
pub fn write_animation_element(out: &mut String, sname: &String, fnum: u32, vals: &Vec<String>)
    ensures
        final(out)@ == old(out)@ + spec_anim_elem(sname@, fnum as int, vals@),
{
    let pm = join2(sname.as_str(), "_pose_matrix");
    let fnum_dec = u64_to_dec(fnum as u64);
    let out_count = u64_to_dec(16u64 * (fnum as u64));
    let src_in = mk_source_input(sname, fnum, &fnum_dec);
    let src_out = mk_source_output(sname, fnum, &fnum_dec, &out_count, vals);
    let src_interp = mk_source_interp(sname, fnum, &fnum_dec);
    let sampler = mk_sampler(sname);
    let channel = mk_channel(sname);
    let body = cat(cat(cat(cat(src_in, &src_out), &src_interp), &sampler), &channel);
    let anim = mk_elem(
        "animation",
        &cat(mk_attr("id", pm.as_str()), &mk_attr("name", pm.as_str())),
        &body,
    );
    proof {
        reveal(spec_anim_elem);
        assert(anim@ == spec_anim_elem(sname@, fnum as int, vals@));
    }
    out.append(anim.as_str());
}

/// The animation blocks of the first `i` bones.
pub open spec fn spec_anim_blocks(
    t: JointTree,
    anim: Seq<Vec<String>>,
    fnum: int,
    i: int,
) -> Seq<char>
    decreases i,
{
    if i <= 0 {
        Seq::empty()
    } else {
        spec_anim_blocks(t, anim, fnum, i - 1) + spec_anim_elem(
            spec_sid_text(t.joints@[i - 1].bone_name@),
            fnum,
            anim[i - 1]@,
        )
    }
}

/// The animation-library section: one block per bone, in bone order.
pub open spec fn spec_library_animations(
    t: JointTree,
    anim: Seq<Vec<String>>,
    fnum: int,
) -> Seq<char> {
    spec_elem(
        "library_animations"@,
        Seq::empty(),
        spec_anim_blocks(t, anim, fnum, t.joints@.len() as int),
    )
}

/// Writes the animation-library section.
#[verifier::rlimit(100)]
#[verifier::spinoff_prover]
pub fn write_animation_data(out: &mut String, t: &JointTree, fnum: u32, anim_text: &Vec<Vec<String>>)
    requires
        anim_text@.len() == t.joints@.len(),
    ensures
        final(out)@ == old(out)@ + spec_library_animations(*t, anim_text@, fnum as int),
{
    push_open(out, "library_animations");
    push_gt(out);
    let ghost base0 = out@;
    let n = t.joints.len();
    let mut i: usize = 0;
    while i < n
        invariant
            anim_text@.len() == t.joints@.len(),
            n == t.joints@.len(),
            i <= n,
            out@ == base0 + spec_anim_blocks(*t, anim_text@, fnum as int, i as int),
        decreases n - i,
    {
        let sanitized = sanitize_name(&t.joints[i].bone_name);
        let esc = escape_attr(&sanitized);
        let sname = bytes_to_text(&esc);
        write_animation_element(out, &sname, fnum, &anim_text[i]);
        proof {
            assert(out@ =~= base0 + spec_anim_blocks(*t, anim_text@, fnum as int, i + 1));
        }
        i = i + 1;
    }
    push_close(out, "library_animations");
    proof {
        assert(out@ =~= old(out)@ + spec_library_animations(*t, anim_text@, fnum as int));
    }
}

// ---------------------------------------------------------------------
// Laws of the animation sources
// ---------------------------------------------------------------------

/// The time values of an input source: sample `i` reads `i / 25`
/// seconds.
pub open spec fn spec_time_samples(f: int) -> Seq<Seq<char>> {
    Seq::new(f as nat, |i: int| spec_time_text(i))
}

/// The first `i` of the given texts, each followed by one space.
pub open spec fn spec_join_texts(ts: Seq<Seq<char>>, i: int) -> Seq<char>
    decreases i,
{
    if i <= 0 {
        Seq::empty()
    } else {
        spec_join_texts(ts, i - 1) + ts[i - 1] + " "@
    }
}

proof fn lemma_join_texts_agree(a: Seq<Seq<char>>, b: Seq<Seq<char>>, i: int)
    requires
        forall|k: int| 0 <= k < i ==> a[k] == b[k],
    ensures
        spec_join_texts(a, i) == spec_join_texts(b, i),
    decreases i,
{
    if i > 0 {
        lemma_join_texts_agree(a, b, i - 1);
    }
}

/// The time-sample source of every animation block renders exactly
/// `fnum` samples, and sample `i` reads `i / 25` seconds.
pub proof fn lemma_time_source_samples(fnum: int)
    requires
        0 <= fnum,
    ensures
        spec_time_samples(fnum).len() == fnum,
        forall|i: int| 0 <= i < fnum ==> spec_time_samples(fnum)[i] == spec_time_text(i),
        spec_times(fnum) == spec_join_texts(spec_time_samples(fnum), fnum),
    decreases fnum,
{
    if fnum > 0 {
        lemma_time_source_samples(fnum - 1);
        lemma_join_texts_agree(spec_time_samples(fnum), spec_time_samples(fnum - 1), fnum - 1);
    }
}

/// How often `c` occurs in `s`.
pub open spec fn spec_count_char(s: Seq<char>, c: char) -> int
    decreases s.len(),
{
    if s.len() == 0 {
        0
    } else {
        spec_count_char(s.drop_last(), c) + if s.last() == c {
            1int
        } else {
            0int
        }
    }
}

proof fn lemma_count_concat(a: Seq<char>, b: Seq<char>, c: char)
    ensures
        spec_count_char(a + b, c) == spec_count_char(a, c) + spec_count_char(b, c),
    decreases b.len(),
{
    if b.len() == 0 {
        assert(a + b =~= a);
    } else {
        lemma_count_concat(a, b.drop_last(), c);
        assert((a + b).drop_last() =~= a + b.drop_last());
        assert((a + b).last() == b.last());
    }
}

proof fn lemma_count_zero(s: Seq<char>, c: char)
    requires
        forall|k: int| 0 <= k < s.len() ==> s[k] != c,
    ensures
        spec_count_char(s, c) == 0,
    decreases s.len(),
{
    if s.len() > 0 {
        lemma_count_zero(s.drop_last(), c);
    }
}

proof fn lemma_space_count_one()
    ensures
        spec_count_char(" "@, ' ') == 1,
{
    reveal_strlit(" ");
    assert(" "@.len() == 1);
    assert(" "@.last() == ' ');
    assert(" "@.drop_last() =~= Seq::<char>::empty());
    assert(spec_count_char(" "@.drop_last(), ' ') == 0);
}

/// The output source of a bone's animation block holds exactly
/// `16 * frame_count` space-terminated values, provided no single value
/// contains a space.
pub proof fn lemma_output_source_count(vals: Seq<String>, fnum: int)
    requires
        0 <= fnum,
        vals.len() == 16 * fnum,
        forall|j: int, k: int|
            0 <= j < vals.len() && 0 <= k < vals[j]@.len() ==> #[trigger] vals[j]@[k] != ' ',
    ensures
        spec_count_char(spec_join_vals(vals, vals.len() as int), ' ') == 16 * fnum,
{
    lemma_join_vals_count(vals, vals.len() as int);
}

proof fn lemma_join_vals_count(vals: Seq<String>, i: int)
    requires
        i <= vals.len(),
        forall|j: int, k: int|
            0 <= j < vals.len() && 0 <= k < vals[j]@.len() ==> #[trigger] vals[j]@[k] != ' ',
    ensures
        spec_count_char(spec_join_vals(vals, i), ' ') == if i <= 0 {
            0int
        } else {
            i
        },
    decreases i,
{
    if i > 0 {
        lemma_join_vals_count(vals, i - 1);
        lemma_count_concat(spec_join_vals(vals, i - 1), vals[i - 1]@, ' ');
        lemma_count_concat(spec_join_vals(vals, i - 1) + vals[i - 1]@, " "@, ' ');
        lemma_count_zero(vals[i - 1]@, ' ');
        lemma_space_count_one();
        assert(spec_join_vals(vals, i) == spec_join_vals(vals, i - 1) + vals[i - 1]@ + " "@);
    }
}

/// The time-sample source of every animation block renders exactly
/// `frame_count` space-terminated values: no time text contains a space.
pub proof fn lemma_time_source_count(fnum: int)
    requires
        0 <= fnum,
    ensures
        spec_count_char(spec_times(fnum), ' ') == fnum,
    decreases fnum,
{
    if fnum > 0 {
        lemma_time_source_count(fnum - 1);
        lemma_count_concat(spec_times(fnum - 1), spec_time_text(fnum - 1), ' ');
        lemma_count_concat(spec_times(fnum - 1) + spec_time_text(fnum - 1), " "@, ' ');
        lemma_time_text_no_space(fnum - 1);
        lemma_count_zero(spec_time_text(fnum - 1), ' ');
        lemma_space_count_one();
    }
}

proof fn lemma_dec_no_space(n: int)
    ensures
        forall|k: int| 0 <= k < spec_dec(n).len() ==> spec_dec(n)[k] != ' ',
    decreases n,
{
    if n < 10 {
        assert forall|k: int| 0 <= k < spec_dec(n).len() implies spec_dec(n)[k] != ' ' by {
            assert(spec_dec(n)[k] == spec_digit(n));
        }
    } else {
        lemma_dec_no_space(n / 10);
        assert forall|k: int| 0 <= k < spec_dec(n).len() implies spec_dec(n)[k] != ' ' by {
            if k < spec_dec(n).len() - 1 {
                assert(spec_dec(n)[k] == spec_dec(n / 10)[k]);
            } else {
                assert(spec_dec(n)[k] == spec_digit(n % 10));
            }
        }
    }
}

proof fn lemma_time_text_no_space(i: int)
    ensures
        forall|k: int| 0 <= k < spec_time_text(i).len() ==> spec_time_text(i)[k] != ' ',
{
    lemma_dec_no_space(i / 25);
    let w = spec_dec(i / 25);
    assert forall|k: int| 0 <= k < spec_time_text(i).len() implies spec_time_text(i)[k] != ' ' by {
        if k < w.len() {
            assert(spec_time_text(i)[k] == w[k]);
        }
    }
}

// ---------------------------------------------------------------------
// Whole document
// ---------------------------------------------------------------------

/// The whole interchange document: root element with schema and version,
/// then asset metadata, scene graph, animation library and scene
/// instantiation, in that order.
pub open spec fn spec_collada_doc(
    t: JointTree,
    fnum: int,
    created: Seq<char>,
    rest: Seq<Vec<String>>,
    dummy: Seq<Vec<Vec<String>>>,
    anim: Seq<Vec<String>>,
) -> Seq<char> {
    spec_elem(
        "COLLADA"@,
        spec_attr("xmlns"@, "http://www.collada.org/2005/11/COLLADASchema"@) + spec_attr(
            "version"@,
            "1.4.1"@,
        ),
        spec_asset(created) + spec_visual_scenes(t, rest, dummy) + spec_library_animations(
            t,
            anim,
            fnum,
        ) + spec_scene(),
    )
}

/// Renders the whole document for a given generation timestamp.
pub fn write_collada_document(
    t: &JointTree,
    fnum: u32,
    created: &String,
    rest_text: &Vec<Vec<String>>,
    dummy_text: &Vec<Vec<Vec<String>>>,
    anim_text: &Vec<Vec<String>>,
) -> (r: String)
    requires
        t.wf(),
        spec_texts_wf(*t, rest_text@, dummy_text@),
        anim_text@.len() == t.joints@.len(),
    ensures
        r@ == spec_collada_doc(
            *t,
            fnum as int,
            created@,
            rest_text@,
            dummy_text@,
            anim_text@,
        ),
{
    let mut asset = String::new();
    write_asset_data(&mut asset, created);
    proof {
        assert(asset@ =~= spec_asset(created@));
    }
    let mut vs = String::new();
    write_visual_scene_data(&mut vs, t, rest_text, dummy_text);
    proof {
        assert(vs@ =~= spec_visual_scenes(*t, rest_text@, dummy_text@));
    }
    let mut anims = String::new();
    write_animation_data(&mut anims, t, fnum, anim_text);
    proof {
        assert(anims@ =~= spec_library_animations(*t, anim_text@, fnum as int));
    }
    let mut scene = String::new();
    write_scene_element(&mut scene);
    proof {
        assert(scene@ =~= spec_scene());
    }
    let body = cat(cat(cat(asset, &vs), &anims), &scene);
    let doc = mk_elem(
        "COLLADA",
        &cat(
            mk_attr("xmlns", "http://www.collada.org/2005/11/COLLADASchema"),
            &mk_attr("version", "1.4.1"),
        ),
        &body,
    );
    proof {
        assert(doc@ == spec_collada_doc(
            *t,
            fnum as int,
            created@,
            rest_text@,
            dummy_text@,
            anim_text@,
        ));
    }
    doc
}

/// Renders the whole document, stamped with the current time.  The
/// timestamp depends on the clock, so only its place in the document is
/// promised.
pub fn write_collada_data(
    t: &JointTree,
    fnum: u32,
    rest_text: &Vec<Vec<String>>,
    dummy_text: &Vec<Vec<Vec<String>>>,
    anim_text: &Vec<Vec<String>>,
) -> (r: String)
    requires
        t.wf(),
        spec_texts_wf(*t, rest_text@, dummy_text@),
        anim_text@.len() == t.joints@.len(),
    ensures
        exists|created: Seq<char>|
            r@ == spec_collada_doc(
                *t,
                fnum as int,
                created,
                rest_text@,
                dummy_text@,
                anim_text@,
            ),
{
    let created = current_utc_text();
    let r = write_collada_document(t, fnum, &created, rest_text, dummy_text, anim_text);
    proof {
        assert(r@ == spec_collada_doc(
            *t,
            fnum as int,
            created@,
            rest_text@,
            dummy_text@,
            anim_text@,
        ));
    }
    r
}

} // verus!
