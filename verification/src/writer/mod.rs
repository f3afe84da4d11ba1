//! The binary container of a compiled model.
//!
//! All integers are little-endian. The container holds, in this order: the
//! four bytes `MCBM` and the version; the identifier table; the position of
//! the particle texture in the table; the eight display transformations;
//! the meshes.

pub mod bytes;
pub mod quantize;
pub mod table;

use vstd::prelude::*;
use vstd::string::StringSliceAdditionalSpecFns;
use vstd::utf8::encode_utf8;
use crate::binary32::binary32_bits;
use crate::fixed::Fixed;
use crate::ident::{DEFAULT_NAMESPACE, Identifier, IdentifierView};
use crate::text::str_eq;
use crate::model::{Mesh, Model, ModelView, Quad, QuadView, Vertex};
use crate::types::{Direction, Display, DisplayTransformation, Vec2, Vec3};
use crate::writer::bytes::{
    le_i32,
    le_u16,
    le_u32,
    write_bytes,
    write_i32,
    write_u16,
    write_u32,
    write_u8,
};
use crate::writer::quantize::{quantize, quantized};
use crate::writer::table::{IdentifierTable, identifier_table, is_table_of, lemma_table_is, strictly_sorted};

verus! {

/// The version of the container's layout.
pub const VERSION: u16 = 3;

/// The length that stands for the default namespace in the identifier
/// table, the bytes of the namespace being left out.
pub const DEFAULT_NAMESPACE_MARK: u16 = 0xFFFF;

/// The code that stands for a quad without a cull face.
pub const NO_CULL_FACE: u8 = 0xFF;

/// The least position coordinate that can be written, -1.5, in raw units.
pub const POSITION_MIN: i32 = -98304;

/// The greatest position coordinate that can be written, 2.5, in raw units.
pub const POSITION_MAX: i32 = 163840;

/// The least texture coordinate that can be written, -0.5, in raw units.
pub const UV_MIN: i32 = -32768;

/// The greatest texture coordinate that can be written, 1.5, in raw units.
pub const UV_MAX: i32 = 98304;

/// The least component of a normal that can be written, -1, in raw units.
pub const NORMAL_MIN: i32 = -65536;

/// The greatest component of a normal that can be written, 1, in raw units.
pub const NORMAL_MAX: i32 = 65536;

/// The limit that a model exceeds.
#[derive(Copy, Clone, Debug, PartialEq, Eq, Structural)]
pub enum Capacity {
    /// More than 65535 distinct identifiers.
    Identifiers,
    /// A segment of an identifier of more than 65535 bytes.
    IdentifierLength,
    /// More than 65535 meshes.
    Meshes,
    /// More than 65535 quads in one mesh.
    Quads,
}

/// Why a model cannot be written.
#[derive(Copy, Clone, Debug, PartialEq, Eq, Structural)]
pub enum WriteError {
    /// The model exceeds a limit of the container.
    CapacityExceeded(Capacity),
    /// A coordinate lies outside the range from `min` to `max` that the
    /// container declares for it.
    OutOfRange { value: Fixed, min: Fixed, max: Fixed },
}

/// Bytes, or the reason why there are none.
pub type Encoded = Result<Seq<u8>, WriteError>;

/// The bytes of `a` followed by those of `b`, or the first error of the two.
pub open spec fn then(a: Encoded, b: Encoded) -> Encoded {
    match a {
        Ok(x) => match b {
            Ok(y) => Ok(x + y),
            Err(e) => Err(e),
        },
        Err(e) => Err(e),
    }
}

/// `then` is associative.
pub proof fn lemma_then_assoc(a: Encoded, b: Encoded, c: Encoded)
    ensures
        then(then(a, b), c) == then(a, then(b, c)),
{
    if let Ok(x) = a {
        if let Ok(y) = b {
            if let Ok(z) = c {
                assert((x + y) + z =~= x + (y + z));
            }
        }
    }
}

/// What a step of writing leaves: the buffer, or the error of the step.
pub open spec fn outcome(r: Result<(), WriteError>, out: Seq<u8>) -> Encoded {
    match r {
        Ok(_) => Ok(out),
        Err(e) => Err(e),
    }
}

/// The four bytes that every container starts with.
pub open spec fn magic() -> Seq<u8> {
    seq![0x4Du8, 0x43u8, 0x42u8, 0x4Du8]
}

/// A coordinate as its step in the range from `min` to `max`, or the error
/// of a coordinate outside the range.
pub open spec fn encode_fixed16(f: Fixed, min: int, max: int) -> Encoded {
    if min <= f@ <= max {
        Ok(le_u16(quantized(f@, min, max)))
    } else {
        Err(WriteError::OutOfRange { value: f, min: Fixed { raw: min as i32 }, max: Fixed { raw: max as i32 } })
    }
}

/// Three coordinates, each as its step in the range.
pub open spec fn encode_vec3_fixed(v: Vec3, min: int, max: int) -> Encoded {
    then(then(encode_fixed16(v[0], min, max), encode_fixed16(v[1], min, max)), encode_fixed16(v[2], min, max))
}

/// Two coordinates, each as its step in the range.
pub open spec fn encode_vec2_fixed(v: Vec2, min: int, max: int) -> Encoded {
    then(encode_fixed16(v[0], min, max), encode_fixed16(v[1], min, max))
}

/// A vertex: its position, then its texture coordinate.
pub open spec fn encode_vertex(v: Vertex) -> Encoded {
    then(
        encode_vec3_fixed(v.xyz, POSITION_MIN as int, POSITION_MAX as int),
        encode_vec2_fixed(v.uv, UV_MIN as int, UV_MAX as int),
    )
}

/// The code of a cull face: the position of the direction in the fixed
/// order, or the code for none.
pub open spec fn cull_code(cull_face: Option<Direction>) -> u8 {
    match cull_face {
        Some(d) => d.spec_index() as u8,
        None => NO_CULL_FACE,
    }
}

/// What follows the vertices of a quad: the normal, the tint index and the
/// code of the cull face.
pub open spec fn encode_quad_tail(q: QuadView) -> Encoded {
    then(
        encode_vec3_fixed(q.normal, NORMAL_MIN as int, NORMAL_MAX as int),
        Ok(le_i32(q.color_index as int) + seq![cull_code(q.cull_face)]),
    )
}

/// The four vertices of a quad.
pub open spec fn encode_vertices(q: QuadView) -> Encoded {
    then(
        then(encode_vertex(q.vertices[0]), encode_vertex(q.vertices[1])),
        then(encode_vertex(q.vertices[2]), encode_vertex(q.vertices[3])),
    )
}

/// A quad: the position of its texture in the table, its four vertices,
/// its normal, its tint index and the code of its cull face.
#[verifier::opaque]
pub open spec fn encode_quad(q: QuadView, table: Seq<IdentifierView>) -> Encoded {
    then(Ok(le_u16(table.index_of(q.texture))), then(encode_vertices(q), encode_quad_tail(q)))
}

/// Some quads, one after the other.
pub open spec fn encode_quads(quads: Seq<QuadView>, table: Seq<IdentifierView>) -> Encoded
    decreases quads.len(),
{
    if quads.len() == 0 {
        Ok(Seq::empty())
    } else {
        then(encode_quad(quads[0], table), encode_quads(quads.drop_first(), table))
    }
}

/// A mesh: the number of its quads, then the quads.
#[verifier::opaque]
pub open spec fn encode_mesh(quads: Seq<QuadView>, table: Seq<IdentifierView>) -> Encoded {
    if quads.len() > 65535 {
        Err(WriteError::CapacityExceeded(Capacity::Quads))
    } else {
        then(Ok(le_u16(quads.len() as int)), encode_quads(quads, table))
    }
}

/// Some meshes, one after the other.
pub open spec fn encode_meshes(meshes: Seq<Seq<QuadView>>, table: Seq<IdentifierView>) -> Encoded
    decreases meshes.len(),
{
    if meshes.len() == 0 {
        Ok(Seq::empty())
    } else {
        then(encode_mesh(meshes[0], table), encode_meshes(meshes.drop_first(), table))
    }
}

/// The meshes of a model: their number, then the meshes.
pub open spec fn encode_mesh_list(meshes: Seq<Seq<QuadView>>, table: Seq<IdentifierView>) -> Encoded {
    if meshes.len() > 65535 {
        Err(WriteError::CapacityExceeded(Capacity::Meshes))
    } else {
        then(Ok(le_u16(meshes.len() as int)), encode_meshes(meshes, table))
    }
}

/// An identifier: the length of its namespace in bytes, or the mark of the
/// default namespace; the length of its path; the bytes of the namespace,
/// unless it is the default one; the bytes of the path.
#[verifier::opaque]
pub open spec fn encode_identifier(id: IdentifierView) -> Encoded {
    let namespace = encode_utf8(id.namespace);
    let path = encode_utf8(id.path);
    if namespace.len() > 65535 || path.len() > 65535 {
        Err(WriteError::CapacityExceeded(Capacity::IdentifierLength))
    } else if id.namespace == DEFAULT_NAMESPACE@ {
        Ok(le_u16(DEFAULT_NAMESPACE_MARK as int) + le_u16(path.len() as int) + path)
    } else {
        Ok(le_u16(namespace.len() as int) + le_u16(path.len() as int) + namespace + path)
    }
}

/// Some identifiers, one after the other.
pub open spec fn encode_identifiers(ids: Seq<IdentifierView>) -> Encoded
    decreases ids.len(),
{
    if ids.len() == 0 {
        Ok(Seq::empty())
    } else {
        then(encode_identifier(ids[0]), encode_identifiers(ids.drop_first()))
    }
}

/// The identifier table: the number of its entries, then the entries.
pub open spec fn encode_table(table: Seq<IdentifierView>) -> Encoded {
    if table.len() > 65535 {
        Err(WriteError::CapacityExceeded(Capacity::Identifiers))
    } else {
        then(Ok(le_u16(table.len() as int)), encode_identifiers(table))
    }
}

/// Three scalars, each as a single-precision number.
pub open spec fn encode_vec3(v: Vec3) -> Seq<u8> {
    le_u32(binary32_bits(v[0]@)) + le_u32(binary32_bits(v[1]@)) + le_u32(binary32_bits(v[2]@))
}

/// A display transformation: rotation, translation, scale.
pub open spec fn encode_transformation(t: DisplayTransformation) -> Seq<u8> {
    encode_vec3(t.rotation) + encode_vec3(t.translation) + encode_vec3(t.scale)
}

/// The eight display transformations: right and left hand of the third
/// person, right and left hand of the first person, gui, head, ground,
/// fixed.
#[verifier::opaque]
pub open spec fn encode_display(d: Display) -> Seq<u8> {
    encode_transformation(d.thirdperson_righthand) + encode_transformation(d.thirdperson_lefthand)
        + encode_transformation(d.firstperson_righthand) + encode_transformation(
        d.firstperson_lefthand,
    ) + encode_transformation(d.gui) + encode_transformation(d.head) + encode_transformation(
        d.ground,
    ) + encode_transformation(d.fixed)
}

/// The identifiers that a model names: its particle texture and the
/// texture of each quad.
pub open spec fn referenced(m: ModelView) -> Set<IdentifierView> {
    Set::new(
        |id: IdentifierView|
            id == m.particle || exists|a: int, b: int|
                0 <= a < m.meshes.len() && 0 <= b < m.meshes[a].len() && #[trigger] m.meshes[a][b].texture
                    == id,
    )
}

/// The start of every container: the magic bytes and the version.
pub open spec fn encode_header() -> Seq<u8> {
    magic() + le_u16(VERSION as int)
}

/// The container of a model.
pub open spec fn encode_model(m: ModelView) -> Encoded {
    let table = identifier_table(referenced(m));
    then(
        then(Ok(encode_header()), encode_table(table)),
        then(
            Ok(le_u16(table.index_of(m.particle)) + encode_display(m.transformation)),
            encode_mesh_list(m.meshes, table),
        ),
    )
}

/// Appends a coordinate as its step in the range from `min` to `max`.
/// Fails, and does not clamp, where the coordinate lies outside the range.
pub fn write_fixed_u16(out: &mut Vec<u8>, f: Fixed, min: i32, max: i32) -> (r: Result<(), WriteError>)
    requires
        min < max,
    ensures
        outcome(r, final(out)@) == then(Ok(old(out)@), encode_fixed16(f, min as int, max as int)),
{
    match quantize(f, Fixed::from_raw(min), Fixed::from_raw(max)) {
        Some(q) => {
            write_u16(out, q);
            Ok(())
        },
        None => Err(
            WriteError::OutOfRange { value: f, min: Fixed::from_raw(min), max: Fixed::from_raw(max) },
        ),
    }
}

/// Appends three coordinates, each as its step in the range.
fn write_vec3_fixed_u16(out: &mut Vec<u8>, v: &Vec3, min: i32, max: i32) -> (r: Result<
    (),
    WriteError,
>)
    requires
        min < max,
    ensures
        outcome(r, final(out)@) == then(Ok(old(out)@), encode_vec3_fixed(*v, min as int, max as int)),
{
    let ghost e0 = encode_fixed16(v[0], min as int, max as int);
    let ghost e1 = encode_fixed16(v[1], min as int, max as int);
    let ghost e2 = encode_fixed16(v[2], min as int, max as int);
    proof {
        lemma_then_assoc(Ok(old(out)@), then(e0, e1), e2);
        lemma_then_assoc(Ok(old(out)@), e0, e1);
    }
    match write_fixed_u16(out, v[0], min, max) {
        Ok(_) => {},
        Err(e) => {
            return Err(e);
        },
    }
    match write_fixed_u16(out, v[1], min, max) {
        Ok(_) => {},
        Err(e) => {
            return Err(e);
        },
    }
    write_fixed_u16(out, v[2], min, max)
}

/// Appends two coordinates, each as its step in the range.
fn write_vec2_fixed_u16(out: &mut Vec<u8>, v: &Vec2, min: i32, max: i32) -> (r: Result<
    (),
    WriteError,
>)
    requires
        min < max,
    ensures
        outcome(r, final(out)@) == then(Ok(old(out)@), encode_vec2_fixed(*v, min as int, max as int)),
{
    let ghost e0 = encode_fixed16(v[0], min as int, max as int);
    let ghost e1 = encode_fixed16(v[1], min as int, max as int);
    proof {
        lemma_then_assoc(Ok(old(out)@), e0, e1);
    }
    match write_fixed_u16(out, v[0], min, max) {
        Ok(_) => {},
        Err(e) => {
            return Err(e);
        },
    }
    write_fixed_u16(out, v[1], min, max)
}

/// Appends a vertex.
fn write_vertex(out: &mut Vec<u8>, v: &Vertex) -> (r: Result<(), WriteError>)
    ensures
        outcome(r, final(out)@) == then(Ok(old(out)@), encode_vertex(*v)),
{
    proof {
        lemma_then_assoc(
            Ok(old(out)@),
            encode_vec3_fixed(v.xyz, POSITION_MIN as int, POSITION_MAX as int),
            encode_vec2_fixed(v.uv, UV_MIN as int, UV_MAX as int),
        );
    }
    match write_vec3_fixed_u16(out, &v.xyz, POSITION_MIN, POSITION_MAX) {
        Ok(_) => {},
        Err(e) => {
            return Err(e);
        },
    }
    write_vec2_fixed_u16(out, &v.uv, UV_MIN, UV_MAX)
}

/// Appends three scalars, each as a single-precision number.
fn write_vec3(out: &mut Vec<u8>, v: &Vec3)
    ensures
        final(out)@ == old(out)@ + encode_vec3(*v),
{
    write_u32(out, v[0].to_binary32());
    write_u32(out, v[1].to_binary32());
    write_u32(out, v[2].to_binary32());
    assert(out@ =~= old(out)@ + encode_vec3(*v));
}

/// Appends a display transformation.
fn write_transformation(out: &mut Vec<u8>, t: &DisplayTransformation)
    ensures
        final(out)@ == old(out)@ + encode_transformation(*t),
{
    write_vec3(out, &t.rotation);
    write_vec3(out, &t.translation);
    write_vec3(out, &t.scale);
    assert(out@ =~= old(out)@ + encode_transformation(*t));
}

/// Appends the eight display transformations.
fn write_display(out: &mut Vec<u8>, d: &Display)
    ensures
        final(out)@ == old(out)@ + encode_display(*d),
{
    let ghost start = out@;
    write_transformation(out, &d.thirdperson_righthand);
    write_transformation(out, &d.thirdperson_lefthand);
    let ghost two = encode_transformation(d.thirdperson_righthand) + encode_transformation(
        d.thirdperson_lefthand,
    );
    assert(out@ =~= start + two);
    write_transformation(out, &d.firstperson_righthand);
    write_transformation(out, &d.firstperson_lefthand);
    let ghost four = two + encode_transformation(d.firstperson_righthand) + encode_transformation(
        d.firstperson_lefthand,
    );
    assert(out@ =~= start + four);
    write_transformation(out, &d.gui);
    write_transformation(out, &d.head);
    let ghost six = four + encode_transformation(d.gui) + encode_transformation(d.head);
    assert(out@ =~= start + six);
    write_transformation(out, &d.ground);
    write_transformation(out, &d.fixed);
    let ghost eight = six + encode_transformation(d.ground) + encode_transformation(d.fixed);
    assert(out@ =~= start + eight);
    assert(eight == encode_display(*d)) by {
        reveal(encode_display);
    }
}

/// Appends an identifier. Fails where a segment is longer than 65535
/// bytes.
pub fn write_identifier(out: &mut Vec<u8>, identifier: &Identifier) -> (r: Result<(), WriteError>)
    ensures
        outcome(r, final(out)@) == then(Ok(old(out)@), encode_identifier(identifier@)),
{
    let namespace = identifier.namespace.as_str().as_bytes();
    let path = identifier.path.as_str().as_bytes();
    proof {
        reveal(encode_identifier);
    }
    if namespace.len() > 65535 || path.len() > 65535 {
        return Err(WriteError::CapacityExceeded(Capacity::IdentifierLength));
    }
    let default = str_eq(identifier.namespace.as_str(), DEFAULT_NAMESPACE);
    if default {
        write_u16(out, DEFAULT_NAMESPACE_MARK);
    } else {
        write_u16(out, namespace.len() as u16);
    }
    write_u16(out, path.len() as u16);
    if !default {
        write_bytes(out, namespace);
    }
    write_bytes(out, path);
    proof {
        let expected = encode_identifier(identifier@)->Ok_0;
        assert(out@ =~= old(out)@ + expected);
    }
    Ok(())
}

/// The code of a cull face.
fn cull_face_code(cull_face: Option<Direction>) -> (code: u8)
    ensures
        code == cull_code(cull_face),
{
    match cull_face {
        Some(d) => d.index() as u8,
        None => NO_CULL_FACE,
    }
}

/// Appends the four vertices of a quad.
fn write_vertices(out: &mut Vec<u8>, quad: &Quad) -> (r: Result<(), WriteError>)
    ensures
        outcome(r, final(out)@) == then(Ok(old(out)@), encode_vertices(quad@)),
{
    let ghost e0 = encode_vertex(quad.vertices[0]);
    let ghost e1 = encode_vertex(quad.vertices[1]);
    let ghost e2 = encode_vertex(quad.vertices[2]);
    let ghost e3 = encode_vertex(quad.vertices[3]);
    proof {
        lemma_then_assoc(Ok(old(out)@), then(e0, e1), then(e2, e3));
        lemma_then_assoc(Ok(old(out)@), e0, e1);
        lemma_then_assoc(then(then(Ok(old(out)@), e0), e1), e2, e3);
    }
    match write_vertex(out, &quad.vertices[0]) {
        Ok(_) => {},
        Err(e) => {
            return Err(e);
        },
    }
    match write_vertex(out, &quad.vertices[1]) {
        Ok(_) => {},
        Err(e) => {
            return Err(e);
        },
    }
    match write_vertex(out, &quad.vertices[2]) {
        Ok(_) => {},
        Err(e) => {
            return Err(e);
        },
    }
    write_vertex(out, &quad.vertices[3])
}

/// Appends what follows the vertices of a quad.
fn write_quad_tail(out: &mut Vec<u8>, quad: &Quad) -> (r: Result<(), WriteError>)
    ensures
        outcome(r, final(out)@) == then(Ok(old(out)@), encode_quad_tail(quad@)),
{
    let ghost normal = encode_vec3_fixed(quad.normal, NORMAL_MIN as int, NORMAL_MAX as int);
    let ghost rest = le_i32(quad.color_index as int) + seq![cull_code(quad.cull_face)];
    proof {
        lemma_then_assoc(Ok(old(out)@), normal, Ok(rest));
    }
    match write_vec3_fixed_u16(out, &quad.normal, NORMAL_MIN, NORMAL_MAX) {
        Ok(_) => {},
        Err(e) => {
            return Err(e);
        },
    }
    let ghost mid = out@;
    write_i32(out, quad.color_index);
    write_u8(out, cull_face_code(quad.cull_face));
    assert(out@ =~= mid + rest);
    Ok(())
}

/// Appends a quad whose texture stands in `table`.
fn write_quad(out: &mut Vec<u8>, quad: &Quad, table: &IdentifierTable) -> (r: Result<(), WriteError>)
    requires
        table@.len() <= 65535,
        table@.contains(quad.texture@),
    ensures
        outcome(r, final(out)@) == then(Ok(old(out)@), encode_quad(quad@, table@)),
{
    let ghost index = Ok::<Seq<u8>, WriteError>(le_u16(table@.index_of(quad.texture@)));
    proof {
        reveal(encode_quad);
        lemma_then_assoc(Ok(old(out)@), index, then(encode_vertices(quad@), encode_quad_tail(quad@)));
        lemma_then_assoc(then(Ok(old(out)@), index), encode_vertices(quad@), encode_quad_tail(quad@));
    }
    match table.position(&quad.texture) {
        Some(i) => {
            write_u16(out, i as u16);
        },
        None => {
            // The table holds the texture of the quad.
            assert(false);
            return Err(WriteError::CapacityExceeded(Capacity::Identifiers));
        },
    }
    match write_vertices(out, quad) {
        Ok(_) => {},
        Err(e) => {
            return Err(e);
        },
    }
    write_quad_tail(out, quad)
}

/// Whether every texture of the quads stands in the table.
pub open spec fn textures_listed(quads: Seq<QuadView>, table: Seq<IdentifierView>) -> bool {
    forall|i: int| 0 <= i < quads.len() ==> table.contains(#[trigger] quads[i].texture)
}

/// Appends a mesh whose textures stand in `table`. Fails where the mesh has
/// more than 65535 quads, or a coordinate lies outside its range.
fn write_mesh(out: &mut Vec<u8>, mesh: &Mesh, table: &IdentifierTable) -> (r: Result<(), WriteError>)
    requires
        table@.len() <= 65535,
        textures_listed(mesh@, table@),
    ensures
        outcome(r, final(out)@) == then(Ok(old(out)@), encode_mesh(mesh@, table@)),
{
    let n = mesh.quads.len();
    proof {
        reveal(encode_mesh);
    }
    if n > 65535 {
        return Err(WriteError::CapacityExceeded(Capacity::Quads));
    }
    write_u16(out, n as u16);
    let ghost start = out@;
    let ghost quads = mesh@;
    proof {
        lemma_then_assoc(Ok(old(out)@), Ok(le_u16(n as int)), encode_quads(quads, table@));
        assert(quads.skip(0) =~= quads);
    }
    let mut i: usize = 0;
    while i < n
        invariant
            i <= n,
            n == mesh.quads@.len(),
            quads == mesh@,
            table@.len() <= 65535,
            textures_listed(quads, table@),
            then(Ok(out@), encode_quads(quads.skip(i as int), table@)) == then(
                Ok(old(out)@),
                encode_mesh(mesh@, table@),
            ),
        decreases n - i,
    {
        let ghost rest = quads.skip(i as int);
        let ghost before = out@;
        proof {
            assert(rest[0] == quads[i as int]);
            assert(rest.drop_first() =~= quads.skip(i + 1));
            assert(quads[i as int] == mesh.quads@[i as int]@);
            assert(table@.contains(quads[i as int].texture));
            lemma_then_assoc(
                Ok(before),
                encode_quad(quads[i as int], table@),
                encode_quads(quads.skip(i + 1), table@),
            );
        }
        match write_quad(out, &mesh.quads[i], table) {
            Ok(_) => {},
            Err(e) => {
                return Err(e);
            },
        }
        i += 1;
    }
    proof {
        assert(out@ + Seq::<u8>::empty() =~= out@);
    }
    Ok(())
}

/// Appends the meshes of a model, whose textures stand in `table`.
fn write_mesh_list(out: &mut Vec<u8>, meshes: &Vec<Mesh>, table: &IdentifierTable) -> (r: Result<
    (),
    WriteError,
>)
    requires
        table@.len() <= 65535,
        forall|i: int| 0 <= i < meshes@.len() ==> textures_listed(#[trigger] meshes@[i]@, table@),
    ensures
        outcome(r, final(out)@) == then(
            Ok(old(out)@),
            encode_mesh_list(crate::model::mesh_views(meshes@), table@),
        ),
{
    let n = meshes.len();
    let ghost views = crate::model::mesh_views(meshes@);
    if n > 65535 {
        return Err(WriteError::CapacityExceeded(Capacity::Meshes));
    }
    write_u16(out, n as u16);
    proof {
        lemma_then_assoc(Ok(old(out)@), Ok(le_u16(n as int)), encode_meshes(views, table@));
        assert(views.skip(0) =~= views);
    }
    let mut i: usize = 0;
    while i < n
        invariant
            i <= n,
            n == meshes@.len(),
            views == crate::model::mesh_views(meshes@),
            table@.len() <= 65535,
            forall|k: int| 0 <= k < meshes@.len() ==> textures_listed(#[trigger] meshes@[k]@, table@),
            then(Ok(out@), encode_meshes(views.skip(i as int), table@)) == then(
                Ok(old(out)@),
                encode_mesh_list(views, table@),
            ),
        decreases n - i,
    {
        let ghost rest = views.skip(i as int);
        let ghost before = out@;
        proof {
            assert(rest[0] == views[i as int]);
            assert(rest.drop_first() =~= views.skip(i + 1));
            assert(views[i as int] == meshes@[i as int]@);
            lemma_then_assoc(
                Ok(before),
                encode_mesh(views[i as int], table@),
                encode_meshes(views.skip(i + 1), table@),
            );
        }
        match write_mesh(out, &meshes[i], table) {
            Ok(_) => {},
            Err(e) => {
                return Err(e);
            },
        }
        i += 1;
    }
    proof {
        assert(out@ + Seq::<u8>::empty() =~= out@);
    }
    Ok(())
}

/// Appends the identifier table. Fails where it has more than 65535
/// entries, or a segment of an entry is longer than 65535 bytes.
fn write_table(out: &mut Vec<u8>, table: &IdentifierTable) -> (r: Result<(), WriteError>)
    ensures
        outcome(r, final(out)@) == then(Ok(old(out)@), encode_table(table@)),
{
    let n = table.len();
    if n > 65535 {
        return Err(WriteError::CapacityExceeded(Capacity::Identifiers));
    }
    write_u16(out, n as u16);
    proof {
        lemma_then_assoc(Ok(old(out)@), Ok(le_u16(n as int)), encode_identifiers(table@));
        assert(table@.skip(0) =~= table@);
    }
    let mut i: usize = 0;
    while i < n
        invariant
            i <= n,
            n == table@.len(),
            then(Ok(out@), encode_identifiers(table@.skip(i as int))) == then(
                Ok(old(out)@),
                encode_table(table@),
            ),
        decreases n - i,
    {
        let ghost rest = table@.skip(i as int);
        let ghost before = out@;
        proof {
            assert(rest[0] == table@[i as int]);
            assert(rest.drop_first() =~= table@.skip(i + 1));
            lemma_then_assoc(
                Ok(before),
                encode_identifier(table@[i as int]),
                encode_identifiers(table@.skip(i + 1)),
            );
        }
        match write_identifier(out, table.get(i)) {
            Ok(_) => {},
            Err(e) => {
                return Err(e);
            },
        }
        i += 1;
    }
    proof {
        assert(out@ + Seq::<u8>::empty() =~= out@);
    }
    Ok(())
}

/// The identifiers that a model names up to, and without, quad `j` of mesh
/// `i`.
pub open spec fn referenced_upto(m: ModelView, i: int, j: int) -> Set<IdentifierView> {
    Set::new(
        |id: IdentifierView|
            id == m.particle || exists|a: int, b: int|
                0 <= a < m.meshes.len() && 0 <= b < m.meshes[a].len() && (a < i || (a == i && b < j))
                    && #[trigger] m.meshes[a][b].texture == id,
    )
}

/// One quad more names one identifier more.
proof fn lemma_referenced_step(m: ModelView, i: int, j: int)
    requires
        0 <= i < m.meshes.len(),
        0 <= j < m.meshes[i].len(),
    ensures
        forall|x: IdentifierView|
            referenced_upto(m, i, j + 1).contains(x) <==> referenced_upto(m, i, j).contains(x) || x
                == m.meshes[i][j].texture,
{
    assert forall|x: IdentifierView|
        referenced_upto(m, i, j + 1).contains(x) <==> referenced_upto(m, i, j).contains(x) || x
            == m.meshes[i][j].texture by {
        if x == m.meshes[i][j].texture {
            assert(m.meshes[i][j].texture == x);
        }
        if referenced_upto(m, i, j).contains(x) && x != m.particle {
            let (a, b) = choose|a: int, b: int|
                0 <= a < m.meshes.len() && 0 <= b < m.meshes[a].len() && (a < i || (a == i && b < j))
                    && #[trigger] m.meshes[a][b].texture == x;
            assert(m.meshes[a][b].texture == x);
        }
    }
}

/// The end of a mesh is the start of the next one.
proof fn lemma_referenced_next(m: ModelView, i: int)
    requires
        0 <= i < m.meshes.len(),
    ensures
        referenced_upto(m, i, m.meshes[i].len() as int) == referenced_upto(m, i + 1, 0),
{
    assert forall|x: IdentifierView|
        referenced_upto(m, i, m.meshes[i].len() as int).contains(x) <==> referenced_upto(
            m,
            i + 1,
            0,
        ).contains(x) by {
        if referenced_upto(m, i, m.meshes[i].len() as int).contains(x) && x != m.particle {
            let (a, b) = choose|a: int, b: int|
                0 <= a < m.meshes.len() && 0 <= b < m.meshes[a].len() && (a < i || (a == i && b
                    < m.meshes[i].len())) && #[trigger] m.meshes[a][b].texture == x;
            assert(m.meshes[a][b].texture == x);
        }
        if referenced_upto(m, i + 1, 0).contains(x) && x != m.particle {
            let (a, b) = choose|a: int, b: int|
                0 <= a < m.meshes.len() && 0 <= b < m.meshes[a].len() && (a < i + 1 || (a == i + 1
                    && b < 0)) && #[trigger] m.meshes[a][b].texture == x;
            assert(m.meshes[a][b].texture == x);
        }
    }
    assert(referenced_upto(m, i, m.meshes[i].len() as int) =~= referenced_upto(m, i + 1, 0));
}

/// After the last mesh every identifier of the model has been named.
proof fn lemma_referenced_all(m: ModelView)
    ensures
        referenced_upto(m, m.meshes.len() as int, 0) == referenced(m),
{
    assert forall|x: IdentifierView|
        referenced_upto(m, m.meshes.len() as int, 0).contains(x) <==> referenced(m).contains(x) by {
        if referenced_upto(m, m.meshes.len() as int, 0).contains(x) && x != m.particle {
            let (a, b) = choose|a: int, b: int|
                0 <= a < m.meshes.len() && 0 <= b < m.meshes[a].len() && (a < m.meshes.len() || (a
                    == m.meshes.len() && b < 0)) && #[trigger] m.meshes[a][b].texture == x;
            assert(m.meshes[a][b].texture == x);
        }
        if referenced(m).contains(x) && x != m.particle {
            let (a, b) = choose|a: int, b: int|
                0 <= a < m.meshes.len() && 0 <= b < m.meshes[a].len() && #[trigger] m.meshes[a][b].texture
                    == x;
            assert(m.meshes[a][b].texture == x);
        }
    }
    assert(referenced_upto(m, m.meshes.len() as int, 0) =~= referenced(m));
}

/// The identifier table of a model: every identifier that the model names,
/// once, in ascending order.
pub fn collect_identifiers(model: &Model) -> (table: IdentifierTable)
    ensures
        is_table_of(table@, referenced(model@)),
        table@ == identifier_table(referenced(model@)),
{
    let mut table = IdentifierTable::new();
    table.insert(&model.particle);
    let mut i: usize = 0;
    while i < model.meshes.len()
        invariant
            i <= model.meshes@.len(),
            strictly_sorted(table@),
            forall|x: IdentifierView|
                table@.contains(x) <==> referenced_upto(model@, i as int, 0).contains(x),
        decreases model.meshes@.len() - i,
    {
        let mesh = &model.meshes[i];
        let mut j: usize = 0;
        while j < mesh.quads.len()
            invariant
                i < model.meshes@.len(),
                *mesh == model.meshes@[i as int],
                j <= mesh.quads@.len(),
                strictly_sorted(table@),
                forall|x: IdentifierView|
                    table@.contains(x) <==> referenced_upto(model@, i as int, j as int).contains(x),
            decreases mesh.quads@.len() - j,
        {
            proof {
                assert(model@.meshes[i as int] == mesh@);
                assert(mesh@[j as int] == mesh.quads@[j as int]@);
                lemma_referenced_step(model@, i as int, j as int);
            }
            table.insert(&mesh.quads[j].texture);
            j += 1;
        }
        proof {
            assert(model@.meshes[i as int] == mesh@);
            lemma_referenced_next(model@, i as int);
        }
        i += 1;
    }
    proof {
        lemma_referenced_all(model@);
        lemma_table_is(table@, referenced(model@));
    }
    table
}

/// Writes the container of a model. Fails, and writes nothing, where the
/// model names more than 65535 identifiers, an identifier has a segment of
/// more than 65535 bytes, the model has more than 65535 meshes or a mesh
/// more than 65535 quads, or a coordinate lies outside the range that the
/// container declares for it: the first of these, in the order of the
/// container.
pub fn write(model: &Model) -> (r: Result<Vec<u8>, WriteError>)
    ensures
        match r {
            Ok(bytes) => encode_model(model@) == Ok::<Seq<u8>, WriteError>(bytes@),
            Err(e) => encode_model(model@) == Err::<Seq<u8>, WriteError>(e),
        },
{
    let table = collect_identifiers(model);
    let ghost m = model@;
    let ghost header = Ok::<Seq<u8>, WriteError>(encode_header());
    let ghost middle = Ok::<Seq<u8>, WriteError>(
        le_u16(table@.index_of(m.particle)) + encode_display(m.transformation),
    );
    let ghost meshes = encode_mesh_list(m.meshes, table@);
    let mut out: Vec<u8> = Vec::new();
    write_u8(&mut out, 0x4D);
    write_u8(&mut out, 0x43);
    write_u8(&mut out, 0x42);
    write_u8(&mut out, 0x4D);
    write_u16(&mut out, VERSION);
    assert(out@ =~= encode_header());
    proof {
        lemma_then_assoc(then(header, encode_table(table@)), middle, meshes);
    }
    match write_table(&mut out, &table) {
        Ok(_) => {},
        Err(e) => {
            return Err(e);
        },
    }
    let ghost with_table = out@;
    assert(table@.len() <= 65535);
    assert(referenced(m).contains(m.particle));
    match table.position(&model.particle) {
        Some(i) => {
            write_u16(&mut out, i as u16);
        },
        None => {
            // The table holds every identifier of the model.
            assert(false);
            return Err(WriteError::CapacityExceeded(Capacity::Identifiers));
        },
    }
    write_display(&mut out, &model.transformation);
    assert(out@ =~= with_table + middle->Ok_0);
    proof {
        assert forall|i: int| 0 <= i < model.meshes@.len() implies textures_listed(
            #[trigger] model.meshes@[i]@,
            table@,
        ) by {
            assert forall|k: int| 0 <= k < model.meshes@[i]@.len() implies table@.contains(
                #[trigger] model.meshes@[i]@[k].texture,
            ) by {
                assert(m.meshes[i][k].texture == model.meshes@[i]@[k].texture);
                assert(referenced(m).contains(m.meshes[i][k].texture));
            }
        }
    }
    match write_mesh_list(&mut out, &model.meshes, &table) {
        Ok(_) => Ok(out),
        Err(e) => Err(e),
    }
}

/// What is written first stands first.
proof fn lemma_then_prefix(a: Seq<u8>, b: Encoded, c: Encoded)
    ensures
        then(then(Ok(a), b), c) matches Ok(bytes) ==> bytes.len() >= a.len() && bytes.subrange(
            0,
            a.len() as int,
        ) == a,
{
    if let Ok(bytes) = then(then(Ok(a), b), c) {
        assert(bytes.subrange(0, a.len() as int) =~= a);
    }
}

/// Every container starts with the magic bytes `MCBM` and the version.
pub proof fn lemma_container_starts_with_header(m: ModelView)
    ensures
        encode_model(m) matches Ok(bytes) ==> bytes.len() >= 6 && bytes.subrange(0, 6)
            == encode_header(),
        encode_header() == seq![0x4Du8, 0x43u8, 0x42u8, 0x4Du8, 3u8, 0u8],
{
    assert(encode_header() =~= seq![0x4Du8, 0x43u8, 0x42u8, 0x4Du8, 3u8, 0u8]);
    let table = identifier_table(referenced(m));
    lemma_then_prefix(
        encode_header(),
        encode_table(table),
        then(
            Ok(le_u16(table.index_of(m.particle)) + encode_display(m.transformation)),
            encode_mesh_list(m.meshes, table),
        ),
    );
}

} // verus!
