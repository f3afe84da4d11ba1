//! Resolution of a document's parent chain, one step at a time.
//!
//! The resolver decides; its caller loads. While the document has a parent,
//! the resolver asks for the parent's document, the caller looks for it
//! under each include root in turn and supplies the first it finds, and the
//! resolver merges the two.

use vstd::prelude::*;
use vstd::string::StringExecFns;
use crate::ident::{Identifier, IdentifierView};
use crate::model::{ModelView, QuadifyError, QuadifyErrorView, compile_spec};
use crate::vanilla::blockstate::BlockStateDef;
use crate::vanilla::model::{Model, is_merge_of};

verus! {

/// The path of an identifier's model document below an include root:
/// `namespace/models/path.json`.
pub open spec fn model_path_spec(id: IdentifierView) -> Seq<char> {
    id.namespace + "/models/"@ + id.path + ".json"@
}

/// The path of an identifier's model document below an include root.
pub fn identifier_to_model_path(id: &Identifier) -> (path: String)
    ensures
        path@ == model_path_spec(id@),
{
    let mut path = id.namespace.clone();
    path.append("/models/");
    path.append(id.path.as_str());
    path.append(".json");
    path
}

/// Why a parent chain cannot be resolved.
#[derive(Clone, Debug, PartialEq, Eq)]
pub enum ResolveError {
    /// No include root holds the document of this parent.
    MissingParent(Identifier),
    /// The chain of parents comes back to this document.
    CyclicParent(Identifier),
}

/// What the resolver needs next.
#[derive(Clone, Debug, PartialEq, Eq)]
pub enum Request {
    /// The document has no parent left: resolution is done.
    Done,
    /// The document of the parent `id`, which lies at `path` below an
    /// include root.
    Load { id: Identifier, path: String },
    /// Resolution cannot go on.
    Fail(ResolveError),
}

/// A document on its way through its parent chain.
#[derive(Debug)]
pub struct Resolver {
    current: Model,
    seen: Vec<Identifier>,
}

/// Whether `id` stands in `ids`.
pub open spec fn holds(ids: Seq<Identifier>, id: IdentifierView) -> bool {
    exists|i: int| 0 <= i < ids.len() && #[trigger] ids[i]@ == id
}

/// Whether no identifier stands twice in `ids`.
pub open spec fn distinct_identifiers(ids: Seq<Identifier>) -> bool {
    forall|i: int, j: int| 0 <= i < j < ids.len() ==> ids[i]@ != ids[j]@
}

/// What supplying `loaded` to a resolver in the state `before` gives. A
/// document without a parent stays as it is. A parent that has been merged
/// in before closes a cycle. A parent whose document was not found is
/// missing. Else the document is merged with its parent, and the parent is
/// remembered.
pub open spec fn is_step(
    before: Resolver,
    loaded: Option<Model>,
    after: Result<Resolver, ResolveError>,
) -> bool {
    match before.current().parent {
        None => after == Ok::<Resolver, ResolveError>(before),
        Some(id) => if holds(before.seen(), id@) {
            after == Err::<Resolver, ResolveError>(ResolveError::CyclicParent(id))
        } else {
            match loaded {
                None => after == Err::<Resolver, ResolveError>(ResolveError::MissingParent(id)),
                Some(parent) => after matches Ok(next) && is_merge_of(
                    next.current(),
                    before.current(),
                    parent,
                ) && next.seen() == before.seen().push(id),
            }
        },
    }
}

impl Resolver {
    #[verifier::type_invariant]
    spec fn no_parent_twice(self) -> bool {
        distinct_identifiers(self.seen@)
    }

    /// The document as merging has left it.
    pub closed spec fn current(&self) -> Model {
        self.current
    }

    /// The parents that have been merged in, in their order.
    pub closed spec fn seen(&self) -> Seq<Identifier> {
        self.seen@
    }

    /// Starts the resolution of `model`.
    pub fn new(model: Model) -> (r: Resolver)
        ensures
            r.current() == model,
            r.seen().len() == 0,
    {
        Resolver { current: model, seen: Vec::new() }
    }

    /// The number of parents that have been merged in. No parent is merged
    /// in twice.
    pub fn merged(&self) -> (n: usize)
        ensures
            n == self.seen().len(),
            distinct_identifiers(self.seen()),
    {
        proof {
            use_type_invariant(self);
        }
        self.seen.len()
    }

    /// Whether the parent `id` has been merged in.
    fn has_seen(&self, id: &Identifier) -> (seen: bool)
        ensures
            seen == holds(self.seen(), id@),
    {
        let mut i: usize = 0;
        while i < self.seen.len()
            invariant
                i <= self.seen@.len(),
                forall|k: int| 0 <= k < i ==> #[trigger] self.seen@[k]@ != id@,
            decreases self.seen@.len() - i,
        {
            if self.seen[i] == *id {
                assert(self.seen@[i as int]@ == id@);
                return true;
            }
            i += 1;
        }
        false
    }

    /// What the resolver needs next: nothing where the document has no
    /// parent; else the parent's document, unless that parent has been
    /// merged in before.
    pub fn request(&self) -> (req: Request)
        ensures
            match self.current().parent {
                None => req == Request::Done,
                Some(parent) => if holds(self.seen(), parent@) {
                    req == Request::Fail(ResolveError::CyclicParent(parent))
                } else {
                    req matches Request::Load { id, path } && id == parent && path@
                        == model_path_spec(parent@)
                },
            },
    {
        match &self.current.parent {
            None => Request::Done,
            Some(parent) => {
                if self.has_seen(parent) {
                    Request::Fail(ResolveError::CyclicParent(parent.clone()))
                } else {
                    Request::Load { id: parent.clone(), path: identifier_to_model_path(parent) }
                }
            },
        }
    }

    /// Takes what loading the parent has given: the parent's document, or
    /// nothing where no include root holds it.
    pub fn supply(self, loaded: Option<Model>) -> (r: Result<Resolver, ResolveError>)
        ensures
            is_step(self, loaded, r),
            r matches Ok(next) ==> distinct_identifiers(next.seen()),
    {
        proof {
            use_type_invariant(&self);
        }
        let id = match &self.current.parent {
            None => {
                return Ok(self);
            },
            Some(id) => id.clone(),
        };
        if self.has_seen(&id) {
            return Err(ResolveError::CyclicParent(id));
        }
        match loaded {
            None => Err(ResolveError::MissingParent(id)),
            Some(parent) => {
                let Resolver { current, seen } = self;
                let mut current = current;
                let mut seen = seen;
                current.merge(parent);
                seen.push(id);
                Ok(Resolver { current, seen })
            },
        }
    }

    /// The document, once it has no parent left.
    pub fn finish(self) -> (r: Result<Model, Resolver>)
        ensures
            match r {
                Ok(model) => model == self.current() && model.parent is None,
                Err(same) => same == self && self.current().parent is Some,
            },
    {
        if self.current.is_fully_resolved() {
            Ok(self.current)
        } else {
            Err(self)
        }
    }
}

/// An input document of either kind.
#[derive(Clone, Debug)]
pub enum AnyModel {
    Model(Model),
    BlockState(BlockStateDef),
}

impl AnyModel {
    /// Compiles a model document whose parent chain has been merged. Block
    /// state definitions cannot be compiled.
    pub fn to_model(&self) -> (r: Result<crate::model::Model, QuadifyError>)
        requires
            self is Model,
        ensures
            match r {
                Ok(compiled) => compile_spec(self->Model_0) == Ok::<ModelView, QuadifyErrorView>(
                    compiled@,
                ),
                Err(e) => compile_spec(self->Model_0) == Err::<ModelView, QuadifyErrorView>(e@),
            },
    {
        match self {
            AnyModel::Model(model) => crate::model::Model::from_json_model(model),
            AnyModel::BlockState(_) => Err(QuadifyError::UnresolvedModel),
        }
    }
}

} // verus!
