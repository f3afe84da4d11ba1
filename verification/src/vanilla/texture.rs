//! Texture slots and the texture map of a document.

use vstd::prelude::*;
use vstd::std_specs::cmp::PartialEqSpecImpl;
use vstd::string::StrSliceExecFns;
use crate::ident::{Identifier, IdentifierView, InvalidIdentifier, parse_spec};
use crate::text::str_eq;

verus! {

/// What a face or a texture map entry names: a concrete texture, or another
/// entry of the owning document's texture map, written `#name`.
#[derive(Debug)]
pub enum TextureRef {
    Literal(Identifier),
    Reference(String),
}

/// The characters of a texture slot.
pub enum TextureRefView {
    Literal(IdentifierView),
    Reference(Seq<char>),
}

impl View for TextureRef {
    type V = TextureRefView;

    open spec fn view(&self) -> TextureRefView {
        match *self {
            TextureRef::Literal(id) => TextureRefView::Literal(id@),
            TextureRef::Reference(name) => TextureRefView::Reference(name@),
        }
    }
}

impl Clone for TextureRef {
    fn clone(&self) -> (slot: TextureRef)
        ensures
            slot == *self,
    {
        match self {
            TextureRef::Literal(id) => TextureRef::Literal(id.clone()),
            TextureRef::Reference(name) => TextureRef::Reference(name.clone()),
        }
    }
}

impl PartialEq for TextureRef {
    fn eq(&self, other: &TextureRef) -> (equal: bool) {
        match self {
            TextureRef::Literal(a) => match other {
                TextureRef::Literal(b) => *a == *b,
                TextureRef::Reference(_) => false,
            },
            TextureRef::Reference(a) => match other {
                TextureRef::Literal(_) => false,
                TextureRef::Reference(b) => *a == *b,
            },
        }
    }
}

impl Eq for TextureRef {

}

impl PartialEqSpecImpl for TextureRef {
    open spec fn obeys_eq_spec() -> bool {
        true
    }

    open spec fn eq_spec(&self, other: &TextureRef) -> bool {
        self@ == other@
    }
}

/// What reading a slot from its text gives: a text that starts with `#` is a
/// reference to the name that follows, any other text an identifier.
pub open spec fn parse_slot_spec(s: Seq<char>) -> Result<TextureRefView, InvalidIdentifier> {
    if s.len() > 0 && s[0] == '#' {
        Ok(TextureRefView::Reference(s.drop_first()))
    } else {
        match parse_spec(s) {
            Ok(id) => Ok(TextureRefView::Literal(id)),
            Err(e) => Err(e),
        }
    }
}

impl TextureRef {
    /// Reads a slot from its text.
    pub fn parse(s: &str) -> (r: Result<TextureRef, InvalidIdentifier>)
        ensures
            match r {
                Ok(slot) => parse_slot_spec(s@) == Ok::<TextureRefView, InvalidIdentifier>(slot@),
                Err(e) => parse_slot_spec(s@) == Err::<TextureRefView, InvalidIdentifier>(e),
            },
    {
        let n = s.unicode_len();
        if n > 0 && s.get_char(0) == '#' {
            let name = s.substring_char(1, n).to_owned();
            assert(name@ =~= s@.drop_first());
            Ok(TextureRef::Reference(name))
        } else {
            match Identifier::parse(s) {
                Ok(id) => Ok(TextureRef::Literal(id)),
                Err(e) => Err(e),
            }
        }
    }

    /// The identifier of a literal slot, nothing for a reference.
    pub fn literal(self) -> (id: Option<Identifier>)
        ensures
            id == match self {
                TextureRef::Literal(i) => Some(i),
                TextureRef::Reference(_) => None,
            },
    {
        match self {
            TextureRef::Literal(id) => Some(id),
            TextureRef::Reference(_) => None,
        }
    }

    /// The identifier of a slot that is known to be a literal.
    pub fn unwrap(self) -> (id: Identifier)
        requires
            self is Literal,
        ensures
            self == TextureRef::Literal(id),
    {
        match self {
            TextureRef::Literal(id) => id,
            TextureRef::Reference(_) => {
                // A literal was required.
                assert(false);
                Identifier::new("", "")
            },
        }
    }
}


/// One entry of a texture map.
#[derive(Debug)]
pub struct TextureEntry {
    pub name: String,
    pub slot: TextureRef,
}

impl Clone for TextureEntry {
    fn clone(&self) -> (entry: TextureEntry)
        ensures
            entry == *self,
    {
        TextureEntry { name: self.name.clone(), slot: self.slot.clone() }
    }
}

/// The texture map of a document: texture slots by name, each name at most
/// once, the order of the entries without meaning.
#[derive(Debug)]
pub struct TextureMap {
    entries: Vec<TextureEntry>,
}

/// The map that a list of entries stands for, a later entry overriding an
/// earlier one of the same name.
pub open spec fn entries_map(es: Seq<TextureEntry>) -> Map<Seq<char>, TextureRefView>
    decreases es.len(),
{
    if es.len() == 0 {
        Map::empty()
    } else {
        entries_map(es.drop_last()).insert(es.last().name@, es.last().slot@)
    }
}

/// Whether no name stands twice in a list of entries.
pub open spec fn distinct_names(es: Seq<TextureEntry>) -> bool {
    forall|i: int, j: int| 0 <= i < j < es.len() ==> es[i].name@ != es[j].name@
}

/// The names of `entries_map(es)` are those of the entries of `es`.
proof fn lemma_entries_map_dom(es: Seq<TextureEntry>)
    ensures
        forall|k: Seq<char>| #[trigger]
            entries_map(es).contains_key(k) <==> exists|i: int|
                0 <= i < es.len() && #[trigger] es[i].name@ == k,
        entries_map(es).dom().finite(),
    decreases es.len(),
{
    if es.len() > 0 {
        let head = es.drop_last();
        lemma_entries_map_dom(head);
        assert forall|k: Seq<char>| #[trigger]
            entries_map(es).contains_key(k) <==> exists|i: int|
                0 <= i < es.len() && #[trigger] es[i].name@ == k by {
            if entries_map(es).contains_key(k) {
                if k == es.last().name@ {
                    assert(es[es.len() - 1].name@ == k);
                } else {
                    assert(entries_map(head).contains_key(k));
                    let i = choose|i: int| 0 <= i < head.len() && #[trigger] head[i].name@ == k;
                    assert(es[i].name@ == k);
                }
            }
            if exists|i: int| 0 <= i < es.len() && #[trigger] es[i].name@ == k {
                let i = choose|i: int| 0 <= i < es.len() && #[trigger] es[i].name@ == k;
                if i < es.len() - 1 {
                    assert(head[i].name@ == k);
                }
            }
        }
    }
}

/// Where no name stands twice, each entry's name maps to its slot.
proof fn lemma_entries_map_value(es: Seq<TextureEntry>, i: int)
    requires
        distinct_names(es),
        0 <= i < es.len(),
    ensures
        entries_map(es).contains_key(es[i].name@),
        entries_map(es)[es[i].name@] == es[i].slot@,
    decreases es.len(),
{
    if i < es.len() - 1 {
        let head = es.drop_last();
        assert(head[i] == es[i]);
        lemma_entries_map_value(head, i);
    }
}

/// Where no name stands twice, the map has as many names as the list has
/// entries.
proof fn lemma_entries_map_len(es: Seq<TextureEntry>)
    requires
        distinct_names(es),
    ensures
        entries_map(es).dom().finite(),
        entries_map(es).dom().len() == es.len(),
    decreases es.len(),
{
    lemma_entries_map_dom(es);
    if es.len() > 0 {
        let head = es.drop_last();
        lemma_entries_map_len(head);
        lemma_entries_map_dom(head);
        if entries_map(head).contains_key(es.last().name@) {
            let i = choose|i: int| 0 <= i < head.len() && #[trigger] head[i].name@ == es.last().name@;
            assert(es[i].name@ == es[es.len() - 1].name@);
        }
    }
}

/// Replacing the slot of an entry replaces the slot of its name.
proof fn lemma_entries_map_update(es: Seq<TextureEntry>, i: int, e: TextureEntry)
    requires
        distinct_names(es),
        0 <= i < es.len(),
        e.name@ == es[i].name@,
    ensures
        distinct_names(es.update(i, e)),
        entries_map(es.update(i, e)) == entries_map(es).insert(e.name@, e.slot@),
    decreases es.len(),
{
    let us = es.update(i, e);
    assert forall|a: int, b: int| 0 <= a < b < us.len() implies us[a].name@ != us[b].name@ by {
        assert(us[a].name@ == es[a].name@);
        assert(us[b].name@ == es[b].name@);
    }
    let head = es.drop_last();
    if i == es.len() - 1 {
        assert(us.drop_last() =~= head);
        assert(entries_map(us) =~= entries_map(es).insert(e.name@, e.slot@));
    } else {
        lemma_entries_map_update(head, i, e);
        assert(us.drop_last() =~= head.update(i, e));
        assert(us.last() == es.last());
        assert(es[i].name@ != es[es.len() - 1].name@);
        assert(entries_map(us) =~= entries_map(es).insert(e.name@, e.slot@));
    }
}

impl Clone for TextureMap {
    fn clone(&self) -> (map: TextureMap)
        ensures
            map@ == self@,
    {
        let mut entries: Vec<TextureEntry> = Vec::new();
        let mut i: usize = 0;
        while i < self.entries.len()
            invariant
                i <= self.entries@.len(),
                entries@ == self.entries@.take(i as int),
            decreases self.entries@.len() - i,
        {
            entries.push(self.entries[i].clone());
            assert(entries@ =~= self.entries@.take(i + 1));
            i += 1;
        }
        proof {
            use_type_invariant(self);
            assert(entries@ =~= self.entries@);
        }
        TextureMap { entries }
    }
}

impl View for TextureMap {
    type V = Map<Seq<char>, TextureRefView>;

    closed spec fn view(&self) -> Map<Seq<char>, TextureRefView> {
        entries_map(self.entries@)
    }
}

impl TextureMap {
    #[verifier::type_invariant]
    spec fn names_distinct(self) -> bool {
        distinct_names(self.entries@)
    }

    /// The map without entries.
    pub fn new() -> (map: TextureMap)
        ensures
            map@ == Map::<Seq<char>, TextureRefView>::empty(),
    {
        TextureMap { entries: Vec::new() }
    }

    /// Every texture map has finitely many names.
    pub proof fn lemma_finite(&self)
        ensures
            self@.dom().finite(),
    {
        lemma_entries_map_dom(self.entries@);
    }

    /// The number of names.
    pub fn len(&self) -> (n: usize)
        ensures
            n == self@.dom().len(),
    {
        proof {
            use_type_invariant(self);
            lemma_entries_map_len(self.entries@);
        }
        self.entries.len()
    }

    /// The entries, each name once, in no particular order.
    pub fn entries(&self) -> (es: &Vec<TextureEntry>)
        ensures
            es@.len() == self@.dom().len(),
            distinct_names(es@),
            forall|i: int|
                0 <= i < es@.len() ==> self@.contains_key(#[trigger] es@[i].name@) && self@[es@[i].name@]
                    == es@[i].slot@,
            forall|k: Seq<char>| #[trigger]
                self@.contains_key(k) ==> exists|i: int|
                    0 <= i < es@.len() && #[trigger] es@[i].name@ == k,
    {
        proof {
            use_type_invariant(self);
            lemma_entries_map_len(self.entries@);
            lemma_entries_map_dom(self.entries@);
            assert forall|i: int| 0 <= i < self.entries@.len() implies self@.contains_key(
                #[trigger] self.entries@[i].name@,
            ) && self@[self.entries@[i].name@] == self.entries@[i].slot@ by {
                lemma_entries_map_value(self.entries@, i);
            }
        }
        &self.entries
    }

    /// Position of the entry named `name`.
    fn position(&self, name: &str) -> (at: Option<usize>)
        ensures
            match at {
                Some(i) => i < self.entries@.len() && self.entries@[i as int].name@ == name@,
                None => forall|i: int|
                    0 <= i < self.entries@.len() ==> #[trigger] self.entries@[i].name@ != name@,
            },
    {
        let mut i: usize = 0;
        while i < self.entries.len()
            invariant
                i <= self.entries@.len(),
                forall|j: int| 0 <= j < i ==> #[trigger] self.entries@[j].name@ != name@,
            decreases self.entries@.len() - i,
        {
            if str_eq(self.entries[i].name.as_str(), name) {
                return Some(i);
            }
            i += 1;
        }
        None
    }

    /// Whether the map holds an entry named `name`.
    pub fn contains(&self, name: &str) -> (found: bool)
        ensures
            found == self@.contains_key(name@),
    {
        proof {
            lemma_entries_map_dom(self.entries@);
        }
        self.position(name).is_some()
    }

    /// The slot that `name` maps to.
    pub fn get(&self, name: &str) -> (slot: Option<&TextureRef>)
        ensures
            match slot {
                Some(s) => self@.contains_key(name@) && self@[name@] == s@,
                None => !self@.contains_key(name@),
            },
    {
        proof {
            use_type_invariant(self);
            lemma_entries_map_dom(self.entries@);
        }
        match self.position(name) {
            Some(i) => {
                proof {
                    lemma_entries_map_value(self.entries@, i as int);
                }
                Some(&self.entries[i].slot)
            },
            None => None,
        }
    }

    /// Maps `name` to `slot`, in place of what it mapped to before.
    pub fn insert(&mut self, name: String, slot: TextureRef)
        ensures
            final(self)@ == old(self)@.insert(name@, slot@),
    {
        proof {
            use_type_invariant(&*self);
        }
        let at = self.position(name.as_str());
        let entry = TextureEntry { name, slot };
        let mut entries: Vec<TextureEntry> = Vec::new();
        core::mem::swap(&mut self.entries, &mut entries);
        match at {
            Some(i) => {
                proof {
                    lemma_entries_map_update(entries@, i as int, entry);
                }
                entries.set(i, entry);
            },
            None => {
                proof {
                    assert(entries@.push(entry).drop_last() =~= entries@);
                }
                entries.push(entry);
            },
        }
        self.entries = entries;
    }

    /// Adds the entries of `other`; where both maps hold a name, the entry
    /// of `other` stays.
    pub fn extend(&mut self, other: TextureMap)
        ensures
            final(self)@ == old(self)@.union_prefer_right(other@),
    {
        let entries = other.entries;
        let ghost before = self@;
        let mut i: usize = 0;
        proof {
            assert(before.union_prefer_right(entries_map(entries@.take(0))) =~= before);
        }
        while i < entries.len()
            invariant
                i <= entries@.len(),
                self@ == before.union_prefer_right(entries_map(entries@.take(i as int))),
            decreases entries@.len() - i,
        {
            let entry = entries[i].clone();
            proof {
                let next = entries@.take(i + 1);
                assert(next.drop_last() =~= entries@.take(i as int));
                assert(next.last() == entries@[i as int]);
                assert(before.union_prefer_right(entries_map(next)) =~= before.union_prefer_right(
                    entries_map(entries@.take(i as int)),
                ).insert(entry.name@, entry.slot@));
            }
            self.insert(entry.name, entry.slot);
            i += 1;
        }
        proof {
            assert(entries@.take(entries@.len() as int) =~= entries@);
        }
    }
}


/// The names of the entries that a walk has passed.
pub open spec fn visited_names(es: Seq<TextureEntry>, visited: Seq<bool>) -> Set<Seq<char>> {
    Set::new(
        |k: Seq<char>|
            exists|i: int| 0 <= i < es.len() && i < visited.len() && visited[i] && #[trigger] es[i].name@ == k,
    )
}

/// Following one more name leaves fewer names to follow.
pub proof fn lemma_walk_shrinks(
    map: Map<Seq<char>, TextureRefView>,
    visited: Set<Seq<char>>,
    name: Seq<char>,
)
    requires
        map.dom().finite(),
        map.contains_key(name),
        !visited.contains(name),
    ensures
        map.dom().difference(visited.insert(name)).len() < map.dom().difference(visited).len(),
{
    let rest = map.dom().difference(visited);
    vstd::set_lib::lemma_len_difference(map.dom(), visited);
    assert(rest.finite());
    assert(rest.contains(name));
    assert(map.dom().difference(visited.insert(name)) =~= rest.remove(name));
}

/// Where following the references from `slot` ends, no name being followed
/// twice: at a literal, at a reference to a name that the map lacks, or at a
/// reference to a name that was followed before.
pub open spec fn resolve_walk(
    slot: TextureRefView,
    map: Map<Seq<char>, TextureRefView>,
    visited: Set<Seq<char>>,
) -> TextureRefView
    decreases map.dom().difference(visited).len(),
{
    match slot {
        TextureRefView::Literal(_) => slot,
        TextureRefView::Reference(name) => {
            if map.dom().finite() && map.contains_key(name) && !visited.contains(name) {
                proof {
                    lemma_walk_shrinks(map, visited, name);
                }
                resolve_walk(map[name], map, visited.insert(name))
            } else {
                slot
            }
        },
    }
}

/// What a slot resolves to in a texture map.
pub open spec fn resolve_spec(slot: TextureRefView, map: Map<Seq<char>, TextureRefView>) -> TextureRefView {
    resolve_walk(slot, map, Set::empty())
}

impl TextureRef {
    /// Follows references through `map` until a literal is reached. Where
    /// the chain ends at a name that the map lacks, or comes back to a name
    /// it has passed, the reference that could not be followed is returned.
    pub fn resolve(self, map: &TextureMap) -> (slot: TextureRef)
        ensures
            slot@ == resolve_spec(self@, map@),
    {
        let n = map.entries.len();
        let mut visited: Vec<bool> = vec![false; n];
        let mut current = self;
        proof {
            use_type_invariant(map);
            lemma_entries_map_dom(map.entries@);
            assert(visited_names(map.entries@, visited@) =~= Set::<Seq<char>>::empty());
        }
        loop
            invariant
                visited@.len() == map.entries@.len(),
                distinct_names(map.entries@),
                map@.dom().finite(),
                resolve_walk(current@, map@, visited_names(map.entries@, visited@)) == resolve_spec(
                    self@,
                    map@,
                ),
            decreases map@.dom().difference(visited_names(map.entries@, visited@)).len(),
        {
            let ghost seen = visited_names(map.entries@, visited@);
            let ghost before = visited@;
            let mut next: Option<TextureRef> = None;
            match &current {
                TextureRef::Literal(_) => {},
                TextureRef::Reference(name) => {
                    proof {
                        lemma_entries_map_dom(map.entries@);
                    }
                    match map.position(name.as_str()) {
                        None => {},
                        Some(i) => {
                            proof {
                                lemma_entries_map_value(map.entries@, i as int);
                            }
                            if visited[i] {
                                assert(seen.contains(name@));
                            } else {
                                assert(!seen.contains(name@)) by {
                                    if seen.contains(name@) {
                                        let j = choose|j: int|
                                            0 <= j < map.entries@.len() && j < visited@.len() && visited@[j]
                                                && #[trigger] map.entries@[j].name@ == name@;
                                        assert(j != i);
                                    }
                                }
                                visited.set(i, true);
                                proof {
                                    lemma_walk_shrinks(map@, seen, name@);
                                    assert(visited_names(map.entries@, visited@) =~= seen.insert(name@)) by {
                                        assert forall|k: Seq<char>| seen.insert(name@).contains(k) implies visited_names(
                                            map.entries@,
                                            visited@,
                                        ).contains(k) by {
                                            if k == name@ {
                                                assert(map.entries@[i as int].name@ == k);
                                            } else {
                                                let j = choose|j: int|
                                                    0 <= j < map.entries@.len() && j < before.len()
                                                        && before[j] && #[trigger] map.entries@[j].name@ == k;
                                                assert(visited@[j]);
                                                assert(map.entries@[j].name@ == k);
                                            }
                                        }
                                    }
                                }
                                next = Some(map.entries[i].slot.clone());
                            }
                        },
                    }
                },
            }
            match next {
                None => {
                    return current;
                },
                Some(slot) => {
                    current = slot;
                },
            }
        }
    }
}

} // verus!
