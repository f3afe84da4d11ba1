//! Namespaced identifiers: the keys of every cross-document reference.

use vstd::prelude::*;
use vstd::std_specs::cmp::PartialEqSpecImpl;
use vstd::string::StrSliceExecFns;
use vstd::string::StringExecFns;
use vstd::utf8::encode_utf8;
use vstd::string::StringSliceAdditionalSpecFns;
use crate::order::{bytes_lt, lemma_lex_transitive, lemma_lex_trichotomy, lex_lt};
use crate::text::{find_char, first_of, lemma_encode_injective, lemma_first_of, lemma_first_of_unique};

verus! {

/// The namespace that a text without a `:` separator belongs to.
pub const DEFAULT_NAMESPACE: &'static str = "minecraft";

/// A namespace and a path, written `namespace:path`.
#[derive(Debug, Hash, PartialOrd, Ord)]
pub struct Identifier {
    pub namespace: String,
    pub path: String,
}

/// The characters of an identifier's two segments.
pub struct IdentifierView {
    pub namespace: Seq<char>,
    pub path: Seq<char>,
}

impl View for Identifier {
    type V = IdentifierView;

    open spec fn view(&self) -> IdentifierView {
        IdentifierView { namespace: self.namespace@, path: self.path@ }
    }
}

/// Why a text is not an identifier.
#[derive(Copy, Clone, Debug, PartialEq, Eq, Structural)]
pub enum InvalidIdentifier {
    /// The namespace holds a character outside `[a-z0-9_.-]`.
    Namespace,
    /// The path holds a character outside `[a-z0-9_.-/]`.
    Path,
}

impl InvalidIdentifier {
    /// The message that describes the error.
    pub fn message(&self) -> (msg: &'static str)
        ensures
            msg@ == match *self {
                InvalidIdentifier::Namespace => "Namespace must match [a-z0-9_.-]"@,
                InvalidIdentifier::Path => "Path must match [a-z0-9_.-/]"@,
            },
    {
        match self {
            InvalidIdentifier::Namespace => "Namespace must match [a-z0-9_.-]",
            InvalidIdentifier::Path => "Path must match [a-z0-9_.-/]",
        }
    }
}

/// Whether `c` may stand in a segment; `/` only in a path.
pub open spec fn valid_char(c: char, path: bool) -> bool {
    ('a' <= c && c <= 'z') || ('0' <= c && c <= '9') || c == '_' || c == '.' || c == '-' || (path
        && c == '/')
}

/// Whether every character of `s` may stand in a segment.
pub open spec fn valid_segment(s: Seq<char>, path: bool) -> bool {
    forall|i: int| 0 <= i < s.len() ==> valid_char(#[trigger] s[i], path)
}

/// Whether both segments obey the grammar.
pub open spec fn valid_identifier(id: IdentifierView) -> bool {
    valid_segment(id.namespace, false) && valid_segment(id.path, true)
}

/// Index of the first `:` in `s`, or `s.len()` where it holds none.
pub open spec fn first_colon(s: Seq<char>) -> int {
    first_of(s, ':')
}

/// The two segments of a text, before the grammar is checked: what stands
/// before and after the first `:`, or the default namespace and the whole
/// text.
pub open spec fn split_segments(s: Seq<char>) -> IdentifierView {
    let i = first_colon(s);
    if i == s.len() {
        IdentifierView { namespace: DEFAULT_NAMESPACE@, path: s }
    } else {
        IdentifierView { namespace: s.subrange(0, i), path: s.subrange(i + 1, s.len() as int) }
    }
}

/// What parsing a text gives.
pub open spec fn parse_spec(s: Seq<char>) -> Result<IdentifierView, InvalidIdentifier> {
    let id = split_segments(s);
    if !valid_segment(id.namespace, false) {
        Err(InvalidIdentifier::Namespace)
    } else if !valid_segment(id.path, true) {
        Err(InvalidIdentifier::Path)
    } else {
        Ok(id)
    }
}

/// The canonical text of an identifier.
pub open spec fn format_spec(id: IdentifierView) -> Seq<char> {
    id.namespace + seq![':'] + id.path
}

/// The default namespace is a valid namespace.
pub proof fn lemma_default_namespace_valid()
    ensures
        valid_segment(DEFAULT_NAMESPACE@, false),
        DEFAULT_NAMESPACE@ == "minecraft"@,
        DEFAULT_NAMESPACE@.len() == 9,
{
    reveal_strlit("minecraft");
}

/// Parsing the canonical text of a valid identifier gives the identifier back.
pub proof fn lemma_parse_format(id: IdentifierView)
    requires
        valid_identifier(id),
    ensures
        parse_spec(format_spec(id)) == Ok::<IdentifierView, InvalidIdentifier>(id),
{
    let s = format_spec(id);
    let n = id.namespace.len() as int;
    assert(s.len() == n + 1 + id.path.len());
    assert(s[n] == ':');
    assert forall|j: int| 0 <= j < n implies s[j] != ':' by {
        assert(s[j] == id.namespace[j]);
        assert(valid_char(id.namespace[j], false));
    }
    lemma_first_of_unique(s, ':', n);
    assert(s.subrange(0, n) =~= id.namespace);
    assert(s.subrange(n + 1, s.len() as int) =~= id.path);
}

/// What a successful parse gives obeys the grammar, and a text that holds a
/// `:` is its canonical text.
pub proof fn lemma_parse_valid(s: Seq<char>)
    ensures
        parse_spec(s) matches Ok(id) ==> valid_identifier(id) && (first_colon(s) < s.len()
            ==> format_spec(id) == s),
{
    lemma_first_of(s, ':');
    if let Ok(id) = parse_spec(s) {
        if first_colon(s) < s.len() {
            assert(format_spec(id) =~= s);
        }
    }
}

/// Whether `a` sorts strictly before `b`: by the bytes of the namespace, then
/// by those of the path.
pub open spec fn identifier_lt(a: IdentifierView, b: IdentifierView) -> bool {
    let an = encode_utf8(a.namespace);
    let bn = encode_utf8(b.namespace);
    lex_lt(an, bn) || (an == bn && lex_lt(encode_utf8(a.path), encode_utf8(b.path)))
}

/// The order on identifiers is total and strict: of two different
/// identifiers exactly one sorts first, and none sorts before itself.
pub proof fn lemma_identifier_lt_total(a: IdentifierView, b: IdentifierView)
    ensures
        identifier_lt(a, b) || a == b || identifier_lt(b, a),
        !(identifier_lt(a, b) && identifier_lt(b, a)),
        !(identifier_lt(a, b) && a == b),
{
    let an = encode_utf8(a.namespace);
    let bn = encode_utf8(b.namespace);
    let ap = encode_utf8(a.path);
    let bp = encode_utf8(b.path);
    lemma_lex_trichotomy(an, bn);
    lemma_lex_trichotomy(ap, bp);
    if an == bn && ap == bp {
        lemma_encode_injective(a.namespace, b.namespace);
        lemma_encode_injective(a.path, b.path);
    }
}

/// The order on identifiers is transitive.
pub proof fn lemma_identifier_lt_transitive(a: IdentifierView, b: IdentifierView, c: IdentifierView)
    requires
        identifier_lt(a, b),
        identifier_lt(b, c),
    ensures
        identifier_lt(a, c),
{
    let an = encode_utf8(a.namespace);
    let bn = encode_utf8(b.namespace);
    let cn = encode_utf8(c.namespace);
    if lex_lt(an, bn) && lex_lt(bn, cn) {
        lemma_lex_transitive(an, bn, cn);
    } else if an == bn && bn == cn {
        lemma_lex_transitive(encode_utf8(a.path), encode_utf8(b.path), encode_utf8(c.path));
    }
}

/// Whether `c` may stand in a segment; `/` only in a path.
pub fn is_valid_char(c: char, path: bool) -> (ok: bool)
    ensures
        ok == valid_char(c, path),
{
    ('a' <= c && c <= 'z') || ('0' <= c && c <= '9') || c == '_' || c == '.' || c == '-' || (path
        && c == '/')
}

/// Whether every character of `s` may stand in a segment.
pub fn is_valid_str(s: &str, path: bool) -> (ok: bool)
    ensures
        ok == valid_segment(s@, path),
{
    for c in it: s.chars()
        invariant
            it.seq() == s@,
            forall|j: int| 0 <= j < it.index() ==> valid_char(#[trigger] s@[j], path),
    {
        if !is_valid_char(c, path) {
            assert(!valid_char(s@[it.index() as int], path));
            return false;
        }
    }
    true
}

impl Identifier {
    /// The identifier with the given segments, taken as they are.
    pub fn new(namespace: &str, path: &str) -> (id: Identifier)
        ensures
            id@.namespace == namespace@,
            id@.path == path@,
    {
        Identifier { namespace: namespace.to_owned(), path: path.to_owned() }
    }

    /// Reads an identifier from its text. A text without `:` lies in the
    /// default namespace; the text is split at its first `:` otherwise.
    /// Fails where a segment holds a character outside its grammar, the
    /// namespace being checked first.
    pub fn parse(s: &str) -> (r: Result<Identifier, InvalidIdentifier>)
        ensures
            match r {
                Ok(id) => parse_spec(s@) == Ok::<IdentifierView, InvalidIdentifier>(id@),
                Err(e) => parse_spec(s@) == Err::<IdentifierView, InvalidIdentifier>(e),
            },
    {
        let n = s.unicode_len();
        let i = find_char(s, ':');
        let id = if i == n {
            Identifier { namespace: DEFAULT_NAMESPACE.to_owned(), path: s.to_owned() }
        } else {
            Identifier {
                namespace: s.substring_char(0, i).to_owned(),
                path: s.substring_char(i + 1, n).to_owned(),
            }
        };
        assert(id@ == split_segments(s@));
        if !is_valid_str(id.namespace.as_str(), false) {
            Err(InvalidIdentifier::Namespace)
        } else if !is_valid_str(id.path.as_str(), true) {
            Err(InvalidIdentifier::Path)
        } else {
            Ok(id)
        }
    }

    /// Whether both segments obey the grammar.
    pub fn is_valid(&self) -> (ok: bool)
        ensures
            ok == valid_identifier(self@),
    {
        is_valid_str(self.namespace.as_str(), false) && is_valid_str(self.path.as_str(), true)
    }

    /// Whether `self` sorts strictly before `other`.
    pub fn precedes(&self, other: &Identifier) -> (lt: bool)
        ensures
            lt == identifier_lt(self@, other@),
    {
        let an = self.namespace.as_str().as_bytes();
        let bn = other.namespace.as_str().as_bytes();
        proof {
            lemma_lex_trichotomy(an@, bn@);
        }
        if bytes_lt(an, bn) {
            true
        } else if bytes_lt(bn, an) {
            false
        } else {
            bytes_lt(self.path.as_str().as_bytes(), other.path.as_str().as_bytes())
        }
    }

    /// The canonical text `namespace:path`.
    pub fn to_string(&self) -> (text: String)
        ensures
            text@ == format_spec(self@),
    {
        let mut text = self.namespace.clone();
        text.append(":");
        text.append(self.path.as_str());
        proof {
            reveal_strlit(":");
            assert(":"@ =~= seq![':']);
        }
        text
    }
}

impl core::str::FromStr for Identifier {
    type Err = InvalidIdentifier;

    /// Reads an identifier from its text, as `Identifier::parse` does.
    fn from_str(s: &str) -> (r: Result<Identifier, InvalidIdentifier>)
        ensures
            match r {
                Ok(id) => parse_spec(s@) == Ok::<IdentifierView, InvalidIdentifier>(id@),
                Err(e) => parse_spec(s@) == Err::<IdentifierView, InvalidIdentifier>(e),
            },
    {
        Identifier::parse(s)
    }
}

impl Clone for Identifier {
    fn clone(&self) -> (id: Identifier)
        ensures
            id == *self,
    {
        Identifier { namespace: self.namespace.clone(), path: self.path.clone() }
    }
}

impl PartialEq for Identifier {
    fn eq(&self, other: &Identifier) -> (equal: bool) {
        self.namespace == other.namespace && self.path == other.path
    }
}

impl Eq for Identifier {

}

impl PartialEqSpecImpl for Identifier {
    open spec fn obeys_eq_spec() -> bool {
        true
    }

    open spec fn eq_spec(&self, other: &Identifier) -> bool {
        self.namespace@ == other.namespace@ && self.path@ == other.path@
    }
}

} // verus!
