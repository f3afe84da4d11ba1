//! Model documents: a parent, display transformations, a texture map and
//! cuboid elements, and the merge of a document with its parent.

use vstd::prelude::*;
use vstd::std_specs::convert::FromSpecImpl;
use crate::fixed::Fixed;
use crate::ident::{Identifier, IdentifierView};
use crate::types::{Direction, DisplayTransformation, Vec3, identity_transformation};
use crate::vanilla::texture::{TextureMap, TextureRef, TextureRefView, resolve_spec};

verus! {

/// The axis that a cuboid is turned about.
#[derive(Copy, Clone, Debug, PartialEq, Eq, Structural)]
pub enum RotationAxis {
    X,
    Y,
    Z,
}

/// The turn of a cuboid about one axis through `origin`.
#[derive(Copy, Clone, Debug, PartialEq, Eq)]
pub struct Rotation {
    pub origin: Vec3,
    pub axis: RotationAxis,
    pub angle: Fixed,
    pub rescale: bool,
}

/// The turn of a face's texture: the angle in degrees, with its sine and
/// cosine as whoever built the value computed them.
#[derive(Copy, Clone, Debug, PartialEq, Eq, Structural)]
pub struct FaceRotation {
    pub degrees: Fixed,
    pub sin: Fixed,
    pub cos: Fixed,
}

impl FaceRotation {
    /// No turn.
    pub fn none() -> (r: FaceRotation)
        ensures
            r.degrees@ == 0,
            r.sin@ == 0,
            r.cos@ == 65536,
    {
        FaceRotation { degrees: Fixed::zero(), sin: Fixed::zero(), cos: Fixed::one() }
    }

    /// A turn by a whole number of quarter turns.
    pub fn quarter_turns(n: u8) -> (r: FaceRotation)
        ensures
            r.degrees@ == (n % 4) * 90 * 65536,
            r.sin@ == 65536 * (if n % 4 == 1 {
                1int
            } else if n % 4 == 3 {
                -1int
            } else {
                0int
            }),
            r.cos@ == 65536 * (if n % 4 == 0 {
                1int
            } else if n % 4 == 2 {
                -1int
            } else {
                0int
            }),
    {
        let q = n % 4;
        let sin: i32 = if q == 1 {
            65536
        } else if q == 3 {
            -65536
        } else {
            0
        };
        let cos: i32 = if q == 0 {
            65536
        } else if q == 2 {
            -65536
        } else {
            0
        };
        FaceRotation {
            degrees: Fixed::from_raw((q as i32) * 90 * 65536),
            sin: Fixed::from_raw(sin),
            cos: Fixed::from_raw(cos),
        }
    }
}

/// One face of a cuboid.
#[derive(Clone, Debug, PartialEq, Eq)]
pub struct Face {
    /// The texture rectangle as left, bottom, right, top in 0 to 16.
    pub uv: Option<[Fixed; 4]>,
    pub texture: TextureRef,
    pub cullface: Option<Direction>,
    pub rotation: FaceRotation,
    pub tintindex: Option<i32>,
}

impl Face {
    /// The tint index, -1 where the face has none.
    pub open spec fn spec_tintindex(&self) -> i32 {
        match self.tintindex {
            Some(t) => t,
            None => -1i32,
        }
    }

    /// The tint index, -1 where the face has none.
    #[verifier::when_used_as_spec(spec_tintindex)]
    pub fn tintindex(&self) -> (tint: i32)
        ensures
            tint == self.spec_tintindex(),
    {
        match self.tintindex {
            Some(t) => t,
            None => -1,
        }
    }
}

/// The faces of a cuboid, by direction.
#[derive(Clone, Debug, PartialEq, Eq)]
pub struct Faces {
    pub down: Option<Face>,
    pub up: Option<Face>,
    pub north: Option<Face>,
    pub south: Option<Face>,
    pub west: Option<Face>,
    pub east: Option<Face>,
}

/// The direction at position `i` of the fixed order.
pub open spec fn direction_at(i: int) -> Direction {
    if i == 0 {
        Direction::Down
    } else if i == 1 {
        Direction::Up
    } else if i == 2 {
        Direction::North
    } else if i == 3 {
        Direction::South
    } else if i == 4 {
        Direction::West
    } else {
        Direction::East
    }
}

impl Faces {
    /// The face that looks in direction `d`.
    pub open spec fn face(&self, d: Direction) -> Option<Face> {
        match d {
            Direction::Down => self.down,
            Direction::Up => self.up,
            Direction::North => self.north,
            Direction::South => self.south,
            Direction::West => self.west,
            Direction::East => self.east,
        }
    }

    /// The faces that are present, from position `start` of the fixed order
    /// on, each with its direction.
    pub open spec fn present_from(&self, start: int) -> Seq<(Direction, Face)>
        decreases 6 - start,
    {
        if start < 0 || start >= 6 {
            Seq::empty()
        } else {
            let d = direction_at(start);
            match self.face(d) {
                Some(f) => seq![(d, f)] + self.present_from(start + 1),
                None => self.present_from(start + 1),
            }
        }
    }

    /// The faces that are present, in the order down, up, north, south,
    /// west, east.
    pub open spec fn present(&self) -> Seq<(Direction, Face)> {
        self.present_from(0)
    }

    /// The face that looks in direction `d`.
    pub fn get_face(&self, d: Direction) -> (face: Option<&Face>)
        ensures
            face is Some == self.face(d) is Some,
            face matches Some(f) ==> self.face(d) == Some(*f),
    {
        match d {
            Direction::Down => self.down.as_ref(),
            Direction::Up => self.up.as_ref(),
            Direction::North => self.north.as_ref(),
            Direction::South => self.south.as_ref(),
            Direction::West => self.west.as_ref(),
            Direction::East => self.east.as_ref(),
        }
    }

    /// A walk over the faces that are present, in the fixed order.
    pub fn iter(&self) -> (it: FaceIter<'_>)
        ensures
            it.remaining() == self.present(),
    {
        FaceIter { inner: self, next_dir: Some(Direction::Down) }
    }
}

/// A walk over the faces of a cuboid.
pub struct FaceIter<'a> {
    inner: &'a Faces,
    next_dir: Option<Direction>,
}

impl<'a> FaceIter<'a> {
    /// The faces that the walk has yet to give.
    pub closed spec fn remaining(&self) -> Seq<(Direction, Face)> {
        match self.next_dir {
            Some(d) => self.inner.present_from(d.spec_index() as int),
            None => Seq::empty(),
        }
    }

    /// The next face that is present, with its direction.
    pub fn next(&mut self) -> (item: Option<(Direction, &'a Face)>)
        ensures
            match item {
                Some((d, f)) => old(self).remaining().len() > 0 && old(self).remaining()[0] == (d, *f)
                    && final(self).remaining() == old(self).remaining().drop_first(),
                None => old(self).remaining().len() == 0 && final(self).remaining().len() == 0,
            },
    {
        loop
            invariant
                self.remaining() == old(self).remaining(),
                self.inner == old(self).inner,
            decreases
                    match self.next_dir {
                        Some(d) => 6 - d.spec_index(),
                        None => 0,
                    },
        {
            match self.next_dir {
                None => {
                    return None;
                },
                Some(d) => {
                    let ghost before = self.remaining();
                    assert(direction_at(d.spec_index() as int) == d);
                    self.next_dir = if d.index() == 5 {
                        None
                    } else {
                        Some(d.cycle())
                    };
                    assert(self.remaining() == self.inner.present_from(d.spec_index() + 1));
                    match self.inner.get_face(d) {
                        None => {},
                        Some(f) => {
                            assert(before == seq![(d, *f)] + self.remaining());
                            assert(before.drop_first() =~= self.remaining());
                            return Some((d, f));
                        },
                    }
                },
            }
        }
    }
}

/// Whether a cuboid is shaded where the document does not say.
pub fn shade_default() -> (shade: bool)
    ensures
        shade,
{
    true
}

/// An axis-aligned box in the 16-unit block space.
#[derive(Clone, Debug, PartialEq, Eq)]
pub struct Cube {
    pub from: Vec3,
    pub to: Vec3,
    pub rotation: Option<Rotation>,
    pub shade: bool,
    pub faces: Faces,
}

/// The display transformations that a document states.
#[derive(Copy, Clone, Debug, PartialEq, Eq)]
pub struct Display {
    pub thirdperson_righthand: Option<DisplayTransformation>,
    pub thirdperson_lefthand: Option<DisplayTransformation>,
    pub firstperson_righthand: Option<DisplayTransformation>,
    pub firstperson_lefthand: Option<DisplayTransformation>,
    pub gui: Option<DisplayTransformation>,
    pub head: Option<DisplayTransformation>,
    pub ground: Option<DisplayTransformation>,
    pub fixed: Option<DisplayTransformation>,
}

/// The first of two optional values that is present.
pub open spec fn first_present<T>(a: Option<T>, b: Option<T>) -> Option<T> {
    if a is Some {
        a
    } else {
        b
    }
}

/// The first of two optional values that is present.
fn first_of<T>(a: Option<T>, b: Option<T>) -> (r: Option<T>)
    ensures
        r == first_present(a, b),
{
    match a {
        Some(x) => Some(x),
        None => b,
    }
}

impl Default for Display {
    fn default() -> (d: Display)
        ensures
            d == Display::nothing(),
    {
        Display {
            thirdperson_righthand: None,
            thirdperson_lefthand: None,
            firstperson_righthand: None,
            firstperson_lefthand: None,
            gui: None,
            head: None,
            ground: None,
            fixed: None,
        }
    }
}

impl Display {
    /// The table that states no transformation.
    pub open spec fn nothing() -> Display {
        Display {
            thirdperson_righthand: None,
            thirdperson_lefthand: None,
            firstperson_righthand: None,
            firstperson_lefthand: None,
            gui: None,
            head: None,
            ground: None,
            fixed: None,
        }
    }

    /// The table of a child merged with that of its parent: each context by
    /// itself, the child's transformation where it states one.
    pub open spec fn merged(self, parent: Display) -> Display {
        Display {
            thirdperson_righthand: first_present(
                self.thirdperson_righthand,
                parent.thirdperson_righthand,
            ),
            thirdperson_lefthand: first_present(
                self.thirdperson_lefthand,
                parent.thirdperson_lefthand,
            ),
            firstperson_righthand: first_present(
                self.firstperson_righthand,
                parent.firstperson_righthand,
            ),
            firstperson_lefthand: first_present(
                self.firstperson_lefthand,
                parent.firstperson_lefthand,
            ),
            gui: first_present(self.gui, parent.gui),
            head: first_present(self.head, parent.head),
            ground: first_present(self.ground, parent.ground),
            fixed: first_present(self.fixed, parent.fixed),
        }
    }

    /// Fills each context that `self` leaves open from `parent`.
    pub fn merge(&mut self, parent: Display)
        ensures
            *final(self) == old(self).merged(parent),
    {
        *self = Display {
            thirdperson_righthand: first_of(self.thirdperson_righthand, parent.thirdperson_righthand),
            thirdperson_lefthand: first_of(self.thirdperson_lefthand, parent.thirdperson_lefthand),
            firstperson_righthand: first_of(
                self.firstperson_righthand,
                parent.firstperson_righthand,
            ),
            firstperson_lefthand: first_of(self.firstperson_lefthand, parent.firstperson_lefthand),
            gui: first_of(self.gui, parent.gui),
            head: first_of(self.head, parent.head),
            ground: first_of(self.ground, parent.ground),
            fixed: first_of(self.fixed, parent.fixed),
        };
    }
}

/// A transformation with its translation brought from the 16-unit block
/// space into the unit cube.
pub open spec fn scaled_down(t: DisplayTransformation) -> DisplayTransformation {
    DisplayTransformation {
        rotation: t.rotation,
        translation: [
            t.translation[0].spec_div16(),
            t.translation[1].spec_div16(),
            t.translation[2].spec_div16(),
        ],
        scale: t.scale,
    }
}

/// The value of an optional transformation, `fallback` where it is absent.
pub open spec fn or_else(t: Option<DisplayTransformation>, fallback: DisplayTransformation) -> DisplayTransformation {
    match t {
        Some(x) => x,
        None => fallback,
    }
}

/// The finished table of a document: each context that the document leaves
/// open gets the identity, a left hand that it leaves open the value of the
/// right hand of the same person, and every translation is brought into the
/// unit cube.
pub open spec fn finished_display(d: Display) -> crate::types::Display {
    let third_right = or_else(d.thirdperson_righthand, identity_transformation());
    let first_right = or_else(d.firstperson_righthand, identity_transformation());
    crate::types::Display {
        thirdperson_righthand: scaled_down(third_right),
        thirdperson_lefthand: scaled_down(or_else(d.thirdperson_lefthand, third_right)),
        firstperson_righthand: scaled_down(first_right),
        firstperson_lefthand: scaled_down(or_else(d.firstperson_lefthand, first_right)),
        gui: scaled_down(or_else(d.gui, identity_transformation())),
        head: scaled_down(or_else(d.head, identity_transformation())),
        ground: scaled_down(or_else(d.ground, identity_transformation())),
        fixed: scaled_down(or_else(d.fixed, identity_transformation())),
    }
}

/// Brings the translation of `t` into the unit cube.
fn adjust_translation(t: DisplayTransformation) -> (r: DisplayTransformation)
    ensures
        r == scaled_down(t),
{
    let r = DisplayTransformation {
        rotation: t.rotation,
        translation: [t.translation[0].div16(), t.translation[1].div16(), t.translation[2].div16()],
        scale: t.scale,
    };
    assert(r.translation =~= scaled_down(t).translation);
    r
}

/// The value of an optional transformation, `fallback` where it is absent.
fn unwrap_or(t: Option<DisplayTransformation>, fallback: DisplayTransformation) -> (r:
    DisplayTransformation)
    ensures
        r == or_else(t, fallback),
{
    match t {
        Some(x) => x,
        None => fallback,
    }
}

impl From<Display> for crate::types::Display {
    fn from(d: Display) -> (r: crate::types::Display) {
        let thirdperson_righthand = unwrap_or(d.thirdperson_righthand, DisplayTransformation::default());
        let thirdperson_lefthand = unwrap_or(d.thirdperson_lefthand, thirdperson_righthand);
        let firstperson_righthand = unwrap_or(d.firstperson_righthand, DisplayTransformation::default());
        let firstperson_lefthand = unwrap_or(d.firstperson_lefthand, firstperson_righthand);
        crate::types::Display {
            thirdperson_righthand: adjust_translation(thirdperson_righthand),
            thirdperson_lefthand: adjust_translation(thirdperson_lefthand),
            firstperson_righthand: adjust_translation(firstperson_righthand),
            firstperson_lefthand: adjust_translation(firstperson_lefthand),
            gui: adjust_translation(unwrap_or(d.gui, DisplayTransformation::default())),
            head: adjust_translation(unwrap_or(d.head, DisplayTransformation::default())),
            ground: adjust_translation(unwrap_or(d.ground, DisplayTransformation::default())),
            fixed: adjust_translation(unwrap_or(d.fixed, DisplayTransformation::default())),
        }
    }
}

impl FromSpecImpl<Display> for crate::types::Display {
    open spec fn obeys_from_spec() -> bool {
        true
    }

    open spec fn from_spec(d: Display) -> crate::types::Display {
        finished_display(d)
    }
}

/// The texture that `name` stands for in a texture map: what its entry
/// resolves to, where that is a literal.
pub open spec fn texture_spec(textures: Map<Seq<char>, TextureRefView>, name: Seq<char>) -> Option<
    IdentifierView,
> {
    if textures.contains_key(name) {
        match resolve_spec(textures[name], textures) {
            TextureRefView::Literal(id) => Some(id),
            TextureRefView::Reference(_) => None,
        }
    } else {
        None
    }
}

/// Whether `merged` is the document `child` merged with its parent
/// `parent`. The result's parent is that of `parent`; ambient occlusion and
/// each display context come from the child where it states them; the
/// texture maps are united, an entry of the child replacing the parent's
/// entry of the same name; the elements are the child's whole list where it
/// has one, the parent's otherwise.
pub open spec fn is_merge_of(merged: Model, child: Model, parent: Model) -> bool {
    &&& merged.parent == parent.parent
    &&& merged.ambientocclusion == first_present(child.ambientocclusion, parent.ambientocclusion)
    &&& merged.display == child.display.merged(parent.display)
    &&& merged.textures@ == parent.textures@.union_prefer_right(child.textures@)
    &&& merged.elements == first_present(child.elements, parent.elements)
}

/// Merging lets the child override the parent, entry by entry for the
/// textures and as a whole for the elements: the merged texture map holds
/// the names of both maps, each with the child's slot where the child has
/// the name and with the parent's slot otherwise; a child that has an
/// element list, even an empty one, keeps exactly that list.
pub proof fn lemma_merge_overrides(merged: Model, child: Model, parent: Model)
    requires
        is_merge_of(merged, child, parent),
    ensures
        forall|name: Seq<char>| #[trigger]
            merged.textures@.contains_key(name) <==> child.textures@.contains_key(name)
                || parent.textures@.contains_key(name),
        forall|name: Seq<char>|
            child.textures@.contains_key(name) ==> #[trigger] merged.textures@[name]
                == child.textures@[name],
        forall|name: Seq<char>|
            parent.textures@.contains_key(name) && !child.textures@.contains_key(name)
                ==> #[trigger] merged.textures@[name] == parent.textures@[name],
        child.elements is Some ==> merged.elements == child.elements,
        child.elements is None ==> merged.elements == parent.elements,
{
}

/// One model document, as it was read or as merging has left it.
#[derive(Clone, Debug)]
pub struct Model {
    pub parent: Option<Identifier>,
    pub ambientocclusion: Option<bool>,
    pub display: Display,
    pub textures: TextureMap,
    pub elements: Option<Vec<Cube>>,
}

impl Model {
    /// Merges the document with its parent, the document's own statements
    /// winning.
    pub fn merge(&mut self, parent: Model)
        ensures
            is_merge_of(*final(self), *old(self), parent),
    {
        let Model { parent: grandparent, ambientocclusion, display, textures, elements } = parent;
        self.parent = grandparent;
        self.ambientocclusion = first_of(self.ambientocclusion, ambientocclusion);
        self.display.merge(display);
        let mut own = TextureMap::new();
        core::mem::swap(&mut self.textures, &mut own);
        let mut merged = textures;
        merged.extend(own);
        self.textures = merged;
        if self.elements.is_none() {
            self.elements = elements;
        }
    }

    /// Whether ambient occlusion is on: as the document states, on where it
    /// does not.
    pub fn ambientocclusion(&self) -> (on: bool)
        ensures
            on == match self.ambientocclusion {
                Some(b) => b,
                None => true,
            },
    {
        match self.ambientocclusion {
            Some(b) => b,
            None => true,
        }
    }

    /// The elements of the document, none where it has no list.
    pub fn elements(&self) -> (cubes: &[Cube])
        ensures
            cubes@ == self.spec_elements(),
    {
        match &self.elements {
            Some(list) => list.as_slice(),
            None => &[],
        }
    }

    /// The elements of the document, none where it has no list.
    pub open spec fn spec_elements(&self) -> Seq<Cube> {
        match self.elements {
            Some(list) => list@,
            None => Seq::empty(),
        }
    }

    /// The texture that `name` stands for, where its entry resolves to a
    /// literal.
    pub fn texture(&self, name: &str) -> (id: Option<Identifier>)
        ensures
            match id {
                Some(i) => texture_spec(self.textures@, name@) == Some(i@),
                None => texture_spec(self.textures@, name@) is None,
            },
    {
        match self.textures.get(name) {
            Some(slot) => slot.clone().resolve(&self.textures).literal(),
            None => None,
        }
    }

    /// Whether the document has no parent left to merge with.
    pub fn is_fully_resolved(&self) -> (resolved: bool)
        ensures
            resolved == (self.parent is None),
    {
        self.parent.is_none()
    }
}

} // verus!
