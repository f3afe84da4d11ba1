//! Compiled models: textured quads in the unit cube, ready to be written.

pub mod quadifier;

use vstd::prelude::*;
use crate::ident::{DEFAULT_NAMESPACE, Identifier, IdentifierView};
use crate::model::quadifier::{cubes_quads, cubes_to_mesh};
use crate::types::{Direction, Display, Vec2, Vec3};
use crate::vanilla::model::Model as JsonModel;
use crate::vanilla::model::{finished_display, texture_spec};
use crate::vanilla::texture::TextureRefView;

verus! {

/// A corner of a quad: its position in the unit cube and its texture
/// coordinate in the unit square.
#[derive(Copy, Clone, Debug, PartialEq, Eq)]
pub struct Vertex {
    pub xyz: Vec3,
    pub uv: Vec2,
}

/// A textured quad.
#[derive(Clone, Debug, PartialEq, Eq)]
pub struct Quad {
    pub texture: Identifier,
    pub vertices: [Vertex; 4],
    pub normal: Vec3,
    pub color_index: i32,
    pub cull_face: Option<Direction>,
}

/// What a quad holds, its texture by its characters.
pub struct QuadView {
    pub texture: IdentifierView,
    pub vertices: [Vertex; 4],
    pub normal: Vec3,
    pub color_index: i32,
    pub cull_face: Option<Direction>,
}

impl View for Quad {
    type V = QuadView;

    open spec fn view(&self) -> QuadView {
        QuadView {
            texture: self.texture@,
            vertices: self.vertices,
            normal: self.normal,
            color_index: self.color_index,
            cull_face: self.cull_face,
        }
    }
}

/// A list of quads.
#[derive(Clone, Debug, PartialEq, Eq)]
pub struct Mesh {
    pub quads: Vec<Quad>,
}

/// The views of a list of quads.
pub open spec fn quad_views(quads: Seq<Quad>) -> Seq<QuadView> {
    Seq::new(quads.len(), |i: int| quads[i]@)
}

impl View for Mesh {
    type V = Seq<QuadView>;

    open spec fn view(&self) -> Seq<QuadView> {
        quad_views(self.quads@)
    }
}

/// A compiled model: the particle texture, the finished display table and
/// the meshes.
#[derive(Clone, Debug, PartialEq, Eq)]
pub struct Model {
    pub particle: Identifier,
    pub transformation: Display,
    pub meshes: Vec<Mesh>,
}

/// What a compiled model holds.
pub struct ModelView {
    pub particle: IdentifierView,
    pub transformation: Display,
    pub meshes: Seq<Seq<QuadView>>,
}

/// The views of a list of meshes.
pub open spec fn mesh_views(meshes: Seq<Mesh>) -> Seq<Seq<QuadView>> {
    Seq::new(meshes.len(), |i: int| meshes[i]@)
}

impl View for Model {
    type V = ModelView;

    open spec fn view(&self) -> ModelView {
        ModelView {
            particle: self.particle@,
            transformation: self.transformation,
            meshes: mesh_views(self.meshes@),
        }
    }
}

/// Why a document cannot be lowered to quads.
#[derive(Clone, Debug, PartialEq, Eq)]
pub enum QuadifyError {
    /// The document still has a parent to merge with.
    UnresolvedModel,
    /// A texture slot ends at the reference of this name and at no literal.
    UnresolvedTexture(String),
}

/// The characters of an error.
pub enum QuadifyErrorView {
    UnresolvedModel,
    UnresolvedTexture(Seq<char>),
}

impl View for QuadifyError {
    type V = QuadifyErrorView;

    open spec fn view(&self) -> QuadifyErrorView {
        match *self {
            QuadifyError::UnresolvedModel => QuadifyErrorView::UnresolvedModel,
            QuadifyError::UnresolvedTexture(name) => QuadifyErrorView::UnresolvedTexture(name@),
        }
    }
}

/// The name of the texture map entry that gives the particle texture.
pub const PARTICLE: &'static str = "particle";

/// The path, in the default namespace, of the texture that stands in for a
/// particle texture that is missing.
pub const MISSING_TEXTURE_PATH: &'static str = "missingno";

/// The identifier of the texture that stands in for a missing one.
pub open spec fn missing_texture() -> IdentifierView {
    IdentifierView { namespace: DEFAULT_NAMESPACE@, path: MISSING_TEXTURE_PATH@ }
}

/// The particle texture of a document: what the entry `particle` of its
/// texture map resolves to, or the stand-in where the map has no such entry
/// or the entry does not resolve to a literal.
pub open spec fn particle_spec(textures: Map<Seq<char>, TextureRefView>) -> IdentifierView {
    match texture_spec(textures, PARTICLE@) {
        Some(id) => id,
        None => missing_texture(),
    }
}

/// What compiling a document gives: an error where the document still has a
/// parent or a face's texture does not resolve; else the particle texture,
/// the finished display table and one mesh with the quads of all elements.
pub open spec fn compile_spec(model: JsonModel) -> Result<ModelView, QuadifyErrorView> {
    if model.parent is Some {
        Err(QuadifyErrorView::UnresolvedModel)
    } else {
        match cubes_quads(model.spec_elements(), model.textures@) {
            Ok(quads) => Ok(
                ModelView {
                    particle: particle_spec(model.textures@),
                    transformation: finished_display(model.display),
                    meshes: seq![quads],
                },
            ),
            Err(e) => Err(e),
        }
    }
}

impl Model {
    /// Compiles a document whose parent chain has been merged.
    pub fn from_json_model(model: &JsonModel) -> (r: Result<Model, QuadifyError>)
        ensures
            match r {
                Ok(compiled) => compile_spec(*model) == Ok::<ModelView, QuadifyErrorView>(compiled@),
                Err(e) => compile_spec(*model) == Err::<ModelView, QuadifyErrorView>(e@),
            },
    {
        if !model.is_fully_resolved() {
            return Err(QuadifyError::UnresolvedModel);
        }
        let particle = match model.texture(PARTICLE) {
            Some(id) => id,
            None => Identifier::new(DEFAULT_NAMESPACE, MISSING_TEXTURE_PATH),
        };
        let transformation = Display::from(model.display);
        match cubes_to_mesh(model.elements(), &model.textures) {
            Ok(mesh) => {
                let ghost quads = mesh@;
                let mut meshes: Vec<Mesh> = Vec::new();
                meshes.push(mesh);
                proof {
                    assert(mesh_views(meshes@) =~= seq![quads]);
                }
                Ok(Model { particle, transformation, meshes })
            },
            Err(e) => Err(e),
        }
    }
}

} // verus!
