use modelc::ident::Identifier;
use modelc::model::QuadifyError;
use modelc::resolve::{identifier_to_model_path, AnyModel, Request, ResolveError, Resolver};
use modelc::vanilla::model::{Display, Model};
use modelc::vanilla::texture::{TextureMap, TextureRef};

fn doc(parent: Option<(&str, &str)>, textures: &[(&str, &str)]) -> Model {
    let mut map = TextureMap::new();
    for (name, path) in textures.iter() {
        map.insert(name.to_string(), TextureRef::Literal(Identifier::new("t", path)));
    }
    Model {
        parent: parent.map(|(ns, path)| Identifier::new(ns, path)),
        ambientocclusion: None,
        display: Display::default(),
        textures: map,
        elements: None,
    }
}

fn load_request(ns: &str, path: &str, file: &str) -> Request {
    Request::Load { id: Identifier::new(ns, path), path: file.to_string() }
}

#[test]
fn model_path_is_namespace_models_path_json() {
    assert_eq!(
        identifier_to_model_path(&Identifier::new("minecraft", "block/cube_all")),
        "minecraft/models/block/cube_all.json"
    );
    assert_eq!(identifier_to_model_path(&Identifier::new("a", "b")), "a/models/b.json");
}

#[test]
fn document_without_parent_is_done_at_once() {
    let r = Resolver::new(doc(None, &[("a", "x")]));
    assert_eq!(r.request(), Request::Done);
    let model = r.finish().unwrap();
    assert_eq!(model.parent, None);
    assert_eq!(model.textures.len(), 1);
}

#[test]
fn resolver_asks_for_each_parent_in_turn_and_merges() {
    let child = doc(Some(("minecraft", "block/cube_all")), &[("all", "stone")]);
    let cube_all = doc(Some(("minecraft", "block/cube")), &[("particle", "p"), ("all", "default")]);
    let cube = doc(None, &[("base", "b")]);
    let r = Resolver::new(child);
    assert_eq!(
        r.request(),
        load_request("minecraft", "block/cube_all", "minecraft/models/block/cube_all.json")
    );
    let r = r.supply(Some(cube_all)).unwrap();
    assert_eq!(r.request(), load_request("minecraft", "block/cube", "minecraft/models/block/cube.json"));
    let r = r.supply(Some(cube)).unwrap();
    assert_eq!(r.request(), Request::Done);
    let model = r.finish().unwrap();
    assert!(model.is_fully_resolved());
    assert_eq!(model.textures.len(), 3);
    assert_eq!(model.texture("all"), Some(Identifier::new("t", "stone")));
    assert_eq!(model.texture("particle"), Some(Identifier::new("t", "p")));
    assert_eq!(model.texture("base"), Some(Identifier::new("t", "b")));
}

#[test]
fn missing_parent_fails_with_its_identifier() {
    let r = Resolver::new(doc(Some(("custom", "gone")), &[]));
    assert_eq!(
        r.supply(None).unwrap_err(),
        ResolveError::MissingParent(Identifier::new("custom", "gone"))
    );
}

#[test]
fn finish_before_the_end_gives_the_resolver_back() {
    let r = Resolver::new(doc(Some(("custom", "p")), &[]));
    let r = r.finish().unwrap_err();
    assert_eq!(r.request(), load_request("custom", "p", "custom/models/p.json"));
}

#[test]
fn parent_cycle_is_detected() {
    let root = doc(Some(("c", "a")), &[]);
    let a = doc(Some(("c", "b")), &[]);
    let b = doc(Some(("c", "a")), &[]);
    let r = Resolver::new(root);
    let r = r.supply(Some(a)).unwrap();
    assert_eq!(r.request(), load_request("c", "b", "c/models/b.json"));
    let r = r.supply(Some(b)).unwrap();
    assert_eq!(r.request(), Request::Fail(ResolveError::CyclicParent(Identifier::new("c", "a"))));
}

#[test]
fn document_that_is_its_own_parent_is_a_cycle() {
    let a = doc(Some(("c", "a")), &[]);
    let r = Resolver::new(a.clone());
    let r = r.supply(Some(a)).unwrap();
    assert_eq!(r.request(), Request::Fail(ResolveError::CyclicParent(Identifier::new("c", "a"))));
}

#[test]
fn any_model_compiles_its_model_document() {
    let any = AnyModel::Model(doc(None, &[("particle", "stone")]));
    let compiled = any.to_model().unwrap();
    assert_eq!(compiled.particle, Identifier::new("t", "stone"));
    assert_eq!(compiled.meshes.len(), 1);
    let unresolved = AnyModel::Model(doc(Some(("a", "b")), &[]));
    assert_eq!(unresolved.to_model(), Err(QuadifyError::UnresolvedModel));
}

#[test]
fn supply_refuses_a_parent_that_was_merged_before() {
    let root = doc(Some(("c", "a")), &[]);
    let a = doc(Some(("c", "a")), &[("x", "y")]);
    let r = Resolver::new(root);
    assert_eq!(r.merged(), 0);
    let r = r.supply(Some(a.clone())).unwrap();
    assert_eq!(r.merged(), 1);
    assert_eq!(
        r.supply(Some(a)).unwrap_err(),
        ResolveError::CyclicParent(Identifier::new("c", "a"))
    );
}

#[test]
fn supply_leaves_a_document_without_parent_as_it_is() {
    let r = Resolver::new(doc(None, &[("a", "x")]));
    let r = r.supply(Some(doc(None, &[("b", "y")]))).unwrap();
    assert_eq!(r.merged(), 0);
    let model = r.finish().unwrap();
    assert_eq!(model.textures.len(), 1);
    assert!(model.textures.contains("a"));
    let r = Resolver::new(doc(None, &[])).supply(None).unwrap();
    assert_eq!(r.request(), Request::Done);
}
