use modelc::fixed::Fixed;
use modelc::ident::Identifier;
use modelc::model::{Mesh, Model, Quad, Vertex};
use modelc::types::{Direction, Display, DisplayTransformation};
use modelc::vanilla::model::{Cube, Display as JsonDisplay, Face, FaceRotation, Faces, Model as JsonModel};
use modelc::vanilla::texture::{TextureMap, TextureRef};
use modelc::writer::bytes::{write_bytes, write_i32, write_u16, write_u32, write_u8};
use modelc::writer::quantize::{dequantize, quantize};
use modelc::writer::table::IdentifierTable;
use modelc::writer::{
    collect_identifiers, write_fixed_u16, write_identifier, Capacity, WriteError, NORMAL_MAX,
    NORMAL_MIN, POSITION_MAX, POSITION_MIN, UV_MAX, UV_MIN, VERSION,
};

fn fx(v: f64) -> Fixed {
    Fixed::from_raw((v * 65536.0).round() as i32)
}

fn v3(x: f64, y: f64, z: f64) -> [Fixed; 3] {
    [fx(x), fx(y), fx(z)]
}

fn vertex(x: f64, y: f64, z: f64, u: f64, v: f64) -> Vertex {
    Vertex { xyz: v3(x, y, z), uv: [fx(u), fx(v)] }
}

fn quad(texture: Identifier) -> Quad {
    Quad {
        texture,
        vertices: [
            vertex(0.0, 0.0, 1.0, 0.0, 0.0),
            vertex(0.0, 0.0, 0.0, 0.0, 1.0),
            vertex(1.0, 0.0, 0.0, 1.0, 1.0),
            vertex(1.0, 0.0, 1.0, 1.0, 0.0),
        ],
        normal: Direction::Down.vector(),
        color_index: -1,
        cull_face: None,
    }
}

fn model(particle: Identifier, meshes: Vec<Mesh>) -> Model {
    Model { particle, transformation: Display::default(), meshes }
}

fn u16_at(bytes: &[u8], at: usize) -> u16 {
    bytes[at] as u16 | (bytes[at + 1] as u16) << 8
}

const IDENTITY_TRANSFORMATION: [u8; 36] = [
    0, 0, 0, 0, 0, 0, 0, 0, 0, 0, 0, 0, 0, 0, 0, 0, 0, 0, 0, 0, 0, 0, 0, 0, 0, 0, 0x80, 0x3F, 0, 0,
    0x80, 0x3F, 0, 0, 0x80, 0x3F,
];

#[test]
fn integers_are_written_little_endian() {
    let mut out = vec![9u8];
    write_u16(&mut out, 0x1234);
    assert_eq!(out, vec![9, 0x34, 0x12]);
    write_u32(&mut out, 0xDEADBEEF);
    assert_eq!(out, vec![9, 0x34, 0x12, 0xEF, 0xBE, 0xAD, 0xDE]);
    let mut out = Vec::new();
    write_i32(&mut out, -1);
    write_i32(&mut out, -2);
    write_i32(&mut out, 0x01020304);
    write_i32(&mut out, i32::MIN);
    assert_eq!(out, vec![255, 255, 255, 255, 254, 255, 255, 255, 4, 3, 2, 1, 0, 0, 0, 0x80]);
    let mut out = Vec::new();
    write_u8(&mut out, 7);
    write_bytes(&mut out, b"abc");
    write_u16(&mut out, 0);
    write_u16(&mut out, 65535);
    write_u16(&mut out, 256);
    assert_eq!(out, vec![7, b'a', b'b', b'c', 0, 0, 255, 255, 0, 1]);
}

#[test]
fn quantize_maps_the_range_onto_all_steps() {
    let min = fx(-1.5);
    let max = fx(2.5);
    assert_eq!(quantize(min, min, max), Some(0));
    assert_eq!(quantize(max, min, max), Some(65535));
    assert_eq!(quantize(fx(0.5), min, max), Some(32768));
    assert_eq!(quantize(fx(1.0), min, max), Some(40959));
    assert_eq!(quantize(fx(0.0), min, max), Some(24576));
    assert_eq!(quantize(fx(0.0), fx(-1.0), fx(1.0)), Some(32768));
    assert_eq!(quantize(fx(-1.0), fx(-1.0), fx(1.0)), Some(0));
    assert_eq!(quantize(fx(1.0), fx(-1.0), fx(1.0)), Some(65535));
    assert_eq!(quantize(fx(0.0), fx(-0.5), fx(1.5)), Some(16384));
    assert_eq!(quantize(fx(1.0), fx(-0.5), fx(1.5)), Some(49151));
}

#[test]
fn quantize_agrees_with_the_formula_on_floats() {
    let ranges = [(-1.5, 2.5), (-0.5, 1.5), (-1.0, 1.0)];
    for (lo, hi) in ranges.iter() {
        let mut f = *lo;
        while f <= *hi {
            let expected = ((f - lo) / (hi - lo) * 65535.0f64).round() as u16;
            assert_eq!(quantize(fx(f), fx(*lo), fx(*hi)), Some(expected), "{} in {}..{}", f, lo, hi);
            f += 1.0 / 64.0;
        }
    }
}

#[test]
fn quantize_rejects_values_outside_the_range() {
    let min = fx(-1.5);
    let max = fx(2.5);
    assert_eq!(quantize(fx(3.0), min, max), None);
    assert_eq!(quantize(fx(-1.6), min, max), None);
    assert_eq!(quantize(Fixed::from_raw(max.raw() + 1), min, max), None);
    assert_eq!(quantize(Fixed::from_raw(min.raw() - 1), min, max), None);
    assert_eq!(quantize(Fixed::from_raw(i32::MAX), min, max), None);
    assert_eq!(quantize(Fixed::from_raw(i32::MIN), min, max), None);
}

#[test]
fn quantized_values_come_back_within_a_step() {
    let ranges = [(fx(-1.5), fx(2.5)), (fx(-0.5), fx(1.5)), (fx(-1.0), fx(1.0)), (fx(0.0), fx(0.001))];
    for (min, max) in ranges.iter() {
        let width = (max.raw() - min.raw()) as i64;
        let mut raw = min.raw();
        while raw <= max.raw() {
            let q = quantize(Fixed::from_raw(raw), *min, *max).unwrap();
            let scaled = 65535 * min.raw() as i64 + q as i64 * width;
            assert!((scaled - 65535 * raw as i64).abs() * 2 <= width);
            let back = dequantize(q, *min, *max);
            assert!(min.raw() <= back.raw() && back.raw() <= max.raw());
            assert!(((back.raw() - raw) as i64).abs() * 2 * 65535 <= width + 65535);
            raw += 1 + (width / 3000) as i32;
        }
    }
}

#[test]
fn dequantize_gives_the_ends_of_the_range() {
    assert_eq!(dequantize(0, fx(-1.5), fx(2.5)), fx(-1.5));
    assert_eq!(dequantize(65535, fx(-1.5), fx(2.5)), fx(2.5));
    assert_eq!(dequantize(32768, fx(-1.0), fx(1.0)).raw(), 1);
}

#[test]
fn writer_rejects_a_position_of_three() {
    let mut out = Vec::new();
    assert_eq!(
        write_fixed_u16(&mut out, fx(3.0), POSITION_MIN, POSITION_MAX),
        Err(WriteError::OutOfRange { value: fx(3.0), min: fx(-1.5), max: fx(2.5) })
    );
    assert_eq!(write_fixed_u16(&mut out, fx(2.5), POSITION_MIN, POSITION_MAX), Ok(()));
    assert_eq!(out, vec![255, 255]);
    let mut bad = quad(Identifier::new("minecraft", "a"));
    bad.vertices[2].xyz[1] = fx(3.0);
    let m = model(Identifier::new("minecraft", "a"), vec![Mesh { quads: vec![bad] }]);
    assert_eq!(modelc::writer::write(&m), Err(WriteError::OutOfRange { value: fx(3.0), min: fx(-1.5), max: fx(2.5) }));
}

#[test]
fn writer_rejects_each_kind_of_coordinate_outside_its_range() {
    let id = Identifier::new("minecraft", "a");
    let mut bad_uv = quad(id.clone());
    bad_uv.vertices[0].uv[1] = fx(-0.75);
    let m = model(id.clone(), vec![Mesh { quads: vec![bad_uv] }]);
    assert_eq!(modelc::writer::write(&m), Err(WriteError::OutOfRange { value: fx(-0.75), min: fx(-0.5), max: fx(1.5) }));
    let mut bad_normal = quad(id.clone());
    bad_normal.normal = v3(0.0, 1.25, 0.0);
    let m = model(id.clone(), vec![Mesh { quads: vec![bad_normal] }]);
    assert_eq!(modelc::writer::write(&m), Err(WriteError::OutOfRange { value: fx(1.25), min: fx(-1.0), max: fx(1.0) }));
    assert_eq!((POSITION_MIN, POSITION_MAX), (fx(-1.5).raw(), fx(2.5).raw()));
    assert_eq!((UV_MIN, UV_MAX), (fx(-0.5).raw(), fx(1.5).raw()));
    assert_eq!((NORMAL_MIN, NORMAL_MAX), (fx(-1.0).raw(), fx(1.0).raw()));
}

#[test]
fn first_coordinate_out_of_range_gives_the_error() {
    let id = Identifier::new("minecraft", "a");
    let mut bad = quad(id.clone());
    bad.vertices[1].uv[0] = fx(9.0);
    bad.vertices[2].xyz[0] = fx(-8.0);
    bad.normal = v3(5.0, 0.0, 0.0);
    let m = model(id, vec![Mesh { quads: vec![bad] }]);
    assert_eq!(modelc::writer::write(&m), Err(WriteError::OutOfRange { value: fx(9.0), min: fx(-0.5), max: fx(1.5) }));
}

#[test]
fn identifier_bytes_use_the_mark_for_the_default_namespace() {
    let mut out = Vec::new();
    write_identifier(&mut out, &Identifier::new("minecraft", "a")).unwrap();
    assert_eq!(out, vec![0xFF, 0xFF, 1, 0, b'a']);
    let mut out = Vec::new();
    write_identifier(&mut out, &Identifier::new("custom", "b")).unwrap();
    assert_eq!(out, vec![6, 0, 1, 0, b'c', b'u', b's', b't', b'o', b'm', b'b']);
    let mut out = Vec::new();
    write_identifier(&mut out, &Identifier::new("", "")).unwrap();
    assert_eq!(out, vec![0, 0, 0, 0]);
    let mut out = Vec::new();
    write_identifier(&mut out, &Identifier::new("\u{e9}", "\u{20ac}")).unwrap();
    assert_eq!(out, vec![2, 0, 3, 0, 0xC3, 0xA9, 0xE2, 0x82, 0xAC]);
}

#[test]
fn identifier_segments_longer_than_65535_bytes_are_rejected() {
    let long = "a".repeat(65536);
    let fits = "a".repeat(65535);
    let mut out = Vec::new();
    assert_eq!(
        write_identifier(&mut out, &Identifier::new("custom", &long)),
        Err(WriteError::CapacityExceeded(Capacity::IdentifierLength))
    );
    assert_eq!(
        write_identifier(&mut out, &Identifier::new(&long, "b")),
        Err(WriteError::CapacityExceeded(Capacity::IdentifierLength))
    );
    assert_eq!(write_identifier(&mut out, &Identifier::new("custom", &fits)), Ok(()));
    let m = model(Identifier::new("custom", &long), vec![]);
    assert_eq!(modelc::writer::write(&m), Err(WriteError::CapacityExceeded(Capacity::IdentifierLength)));
}

#[test]
fn table_is_sorted_and_holds_each_identifier_once() {
    let mut table = IdentifierTable::new();
    for (ns, path) in [("minecraft", "b"), ("custom", "z"), ("minecraft", "a"), ("custom", "z"), ("a", "b"), ("minecraft", "b")] {
        table.insert(&Identifier::new(ns, path));
    }
    assert_eq!(table.len(), 4);
    let listed: Vec<Identifier> = (0..table.len()).map(|i| table.get(i).clone()).collect();
    assert_eq!(
        listed,
        vec![
            Identifier::new("a", "b"),
            Identifier::new("custom", "z"),
            Identifier::new("minecraft", "a"),
            Identifier::new("minecraft", "b"),
        ]
    );
    assert_eq!(table.position(&Identifier::new("minecraft", "a")), Some(2));
    assert_eq!(table.position(&Identifier::new("minecraft", "c")), None);
    assert_eq!(table.search(&Identifier::new("custom", "z")), Ok(1));
    assert_eq!(table.search(&Identifier::new("b", "")), Err(1));
    assert_eq!(table.search(&Identifier::new("", "")), Err(0));
    assert_eq!(table.search(&Identifier::new("z", "")), Err(4));
}

#[test]
fn table_of_a_mesh_sorts_namespace_first_with_sentinel_for_minecraft() {
    let m = model(
        Identifier::new("minecraft", "a"),
        vec![Mesh { quads: vec![quad(Identifier::new("custom", "b")), quad(Identifier::new("minecraft", "a"))] }],
    );
    let table = collect_identifiers(&m);
    assert_eq!(table.len(), 2);
    assert_eq!(*table.get(0), Identifier::new("custom", "b"));
    assert_eq!(*table.get(1), Identifier::new("minecraft", "a"));
    let bytes = modelc::writer::write(&m).unwrap();
    assert_eq!(
        &bytes[6..24],
        &[2, 0, 6, 0, 1, 0, b'c', b'u', b's', b't', b'o', b'm', b'b', 0xFF, 0xFF, 1, 0, b'a'][..]
    );
    assert_eq!(u16_at(&bytes, 24), 1);
    let quads_at = 26 + 288 + 2 + 2;
    assert_eq!(u16_at(&bytes, quads_at), 0);
    assert_eq!(u16_at(&bytes, quads_at + 53), 1);
}

#[test]
fn empty_model_is_written_byte_for_byte() {
    let m = model(Identifier::new("minecraft", "missingno"), vec![]);
    let bytes = modelc::writer::write(&m).unwrap();
    let mut expected = vec![b'M', b'C', b'B', b'M', 3, 0];
    expected.extend_from_slice(&[1, 0, 0xFF, 0xFF, 9, 0]);
    expected.extend_from_slice(b"missingno");
    expected.extend_from_slice(&[0, 0]);
    for _ in 0..8 {
        expected.extend_from_slice(&IDENTITY_TRANSFORMATION);
    }
    expected.extend_from_slice(&[0, 0]);
    assert_eq!(bytes, expected);
    assert_eq!(VERSION, 3);
}

#[test]
fn one_quad_is_written_byte_for_byte() {
    let mut q = quad(Identifier::new("custom", "b"));
    q.color_index = 2;
    q.cull_face = Some(Direction::West);
    q.vertices[0] = vertex(-1.5, 2.5, 0.5, -0.5, 1.5);
    let m = model(Identifier::new("custom", "b"), vec![Mesh { quads: vec![q] }]);
    let bytes = modelc::writer::write(&m).unwrap();
    let start = 6 + 2 + 11 + 2 + 288;
    assert_eq!(&bytes[start..start + 4], &[1, 0, 1, 0][..]);
    let quad_bytes = &bytes[start + 4..];
    assert_eq!(quad_bytes.len(), 53);
    assert_eq!(&quad_bytes[0..2], &[0, 0][..]);
    assert_eq!(&quad_bytes[2..12], &[0, 0, 255, 255, 0, 128, 0, 0, 255, 255][..]);
    let steps: Vec<u16> = (0..15).map(|k| u16_at(quad_bytes, 12 + 2 * k)).collect();
    assert_eq!(
        steps,
        vec![24576, 24576, 24576, 16384, 49151, 40959, 24576, 24576, 49151, 49151, 40959, 24576, 40959, 49151, 16384]
    );
    assert_eq!(&quad_bytes[42..48], &[0, 128, 0, 0, 0, 128][..]);
    assert_eq!(&quad_bytes[48..52], &[2, 0, 0, 0][..]);
    assert_eq!(quad_bytes[52], 4);
}

#[test]
fn cull_face_codes_are_direction_indices_or_ff() {
    let id = Identifier::new("minecraft", "a");
    for (cull, code) in [
        (None, 0xFFu8),
        (Some(Direction::Down), 0),
        (Some(Direction::Up), 1),
        (Some(Direction::North), 2),
        (Some(Direction::South), 3),
        (Some(Direction::West), 4),
        (Some(Direction::East), 5),
    ] {
        let mut q = quad(id.clone());
        q.cull_face = cull;
        q.color_index = -2;
        let bytes = modelc::writer::write(&model(id.clone(), vec![Mesh { quads: vec![q] }])).unwrap();
        assert_eq!(bytes[bytes.len() - 1], code);
        assert_eq!(&bytes[bytes.len() - 5..bytes.len() - 1], &[254, 255, 255, 255][..]);
    }
}

#[test]
fn display_transformations_are_written_in_the_fixed_order_as_floats() {
    let mut m = model(Identifier::new("minecraft", "a"), vec![]);
    let mut t = |n: f64| DisplayTransformation {
        rotation: v3(n, 0.0, 0.0),
        translation: v3(0.0, n + 0.5, 0.0),
        scale: v3(1.0, 1.0, -n),
    };
    m.transformation = Display {
        thirdperson_righthand: t(1.0),
        thirdperson_lefthand: t(2.0),
        firstperson_righthand: t(3.0),
        firstperson_lefthand: t(4.0),
        gui: t(5.0),
        head: t(6.0),
        ground: t(7.0),
        fixed: t(8.0),
    };
    let bytes = modelc::writer::write(&m).unwrap();
    let start = 6 + 2 + 5 + 2;
    for slot in 0..8 {
        let n = slot as f32 + 1.0;
        let expected = [n, 0.0, 0.0, 0.0, n + 0.5, 0.0, 1.0, 1.0, -n];
        for (k, value) in expected.iter().enumerate() {
            let at = start + 36 * slot + 4 * k;
            let mut four = [0u8; 4];
            four.copy_from_slice(&bytes[at..at + 4]);
            assert_eq!(f32::from_le_bytes(four), *value, "slot {} value {}", slot, k);
        }
    }
    assert_eq!(bytes.len(), start + 288 + 2);
}

#[test]
fn too_many_quads_in_a_mesh_are_rejected() {
    let id = Identifier::new("minecraft", "a");
    let fits = model(id.clone(), vec![Mesh { quads: vec![quad(id.clone()); 65535] }]);
    let bytes = modelc::writer::write(&fits).unwrap();
    assert_eq!(bytes.len(), 6 + 2 + 5 + 2 + 288 + 2 + 2 + 65535 * 53);
    let over = model(id.clone(), vec![Mesh { quads: vec![quad(id.clone()); 65536] }]);
    assert_eq!(modelc::writer::write(&over), Err(WriteError::CapacityExceeded(Capacity::Quads)));
}

#[test]
fn too_many_meshes_are_rejected() {
    let id = Identifier::new("minecraft", "a");
    let mut meshes = Vec::new();
    for _ in 0..65535 {
        meshes.push(Mesh { quads: vec![] });
    }
    let fits = model(id.clone(), meshes.clone());
    let bytes = modelc::writer::write(&fits).unwrap();
    assert_eq!(bytes.len(), 6 + 2 + 5 + 2 + 288 + 2 + 2 * 65535);
    meshes.push(Mesh { quads: vec![] });
    let over = model(id, meshes);
    assert_eq!(modelc::writer::write(&over), Err(WriteError::CapacityExceeded(Capacity::Meshes)));
}

#[test]
fn too_many_identifiers_are_rejected() {
    let id = Identifier::new("minecraft", "a");
    let mut quads = Vec::new();
    for i in 0..32768 {
        quads.push(quad(Identifier::new("n", &format!("{:05}", i))));
    }
    let mut more = Vec::new();
    for i in 32768..65535 {
        more.push(quad(Identifier::new("n", &format!("{:05}", i))));
    }
    let over = model(id.clone(), vec![Mesh { quads: quads.clone() }, Mesh { quads: more.clone() }]);
    assert_eq!(collect_identifiers(&over).len(), 65536);
    assert_eq!(modelc::writer::write(&over), Err(WriteError::CapacityExceeded(Capacity::Identifiers)));
    more.pop();
    let fits = model(id, vec![Mesh { quads }, Mesh { quads: more }]);
    assert_eq!(collect_identifiers(&fits).len(), 65535);
    let bytes = modelc::writer::write(&fits).unwrap();
    assert_eq!(u16_at(&bytes, 6), 65535);
}

#[test]
fn capacity_of_identifiers_is_checked_before_coordinates() {
    let id = Identifier::new("minecraft", "a");
    let mut bad = quad(Identifier::new("custom", &"x".repeat(70000)));
    bad.vertices[0].xyz[0] = fx(100.0);
    let m = model(id, vec![Mesh { quads: vec![bad] }]);
    assert_eq!(modelc::writer::write(&m), Err(WriteError::CapacityExceeded(Capacity::IdentifierLength)));
}

#[test]
fn end_to_end_document_compiles_to_a_container() {
    let stone = || TextureRef::Literal(Identifier::new("minecraft", "stone"));
    let face = || {
        Some(Face { uv: None, texture: stone(), cullface: None, rotation: FaceRotation::none(), tintindex: None })
    };
    let mut textures = TextureMap::new();
    textures.insert("particle".to_string(), stone());
    let document = JsonModel {
        parent: None,
        ambientocclusion: None,
        display: JsonDisplay::default(),
        textures,
        elements: Some(vec![Cube {
            from: v3(0.0, 0.0, 0.0),
            to: v3(16.0, 16.0, 16.0),
            rotation: None,
            shade: true,
            faces: Faces { down: face(), up: face(), north: face(), south: face(), west: face(), east: face() },
        }]),
    };
    let compiled = Model::from_json_model(&document).unwrap();
    let bytes = modelc::writer::write(&compiled).unwrap();
    assert_eq!(&bytes[0..4], b"MCBM");
    assert_eq!(u16_at(&bytes, 4), 3);
    assert_eq!(u16_at(&bytes, 6), 1);
    assert_eq!(&bytes[8..17], &[0xFF, 0xFF, 5, 0, b's', b't', b'o', b'n', b'e'][..]);
    assert_eq!(u16_at(&bytes, 17), 0);
    for slot in 0..8 {
        assert_eq!(&bytes[19 + 36 * slot..19 + 36 * (slot + 1)], &IDENTITY_TRANSFORMATION[..]);
    }
    assert_eq!(u16_at(&bytes, 307), 1);
    assert_eq!(u16_at(&bytes, 309), 6);
    assert_eq!(bytes.len(), 311 + 6 * 53);
    let normals: [[u16; 3]; 6] = [
        [32768, 0, 32768],
        [32768, 65535, 32768],
        [32768, 32768, 0],
        [32768, 32768, 65535],
        [0, 32768, 32768],
        [65535, 32768, 32768],
    ];
    for (i, normal) in normals.iter().enumerate() {
        let at = 311 + 53 * i;
        assert_eq!(u16_at(&bytes, at), 0);
        for k in 0..3 {
            assert_eq!(u16_at(&bytes, at + 42 + 2 * k), normal[k]);
        }
        assert_eq!(&bytes[at + 48..at + 53], &[255, 255, 255, 255, 255][..]);
    }
}
