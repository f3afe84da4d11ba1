//! Variants: one model for each list of property values.

use vstd::prelude::*;
use vstd::string::StrSliceExecFns;
use crate::text::{find_char, first_of, split, split_spec, text_views};
use crate::vanilla::blockstate::AppliedModel;

verus! {

/// A property and the value it has, written `name=value`.
#[derive(Clone, Debug, PartialEq, Eq, Hash)]
pub struct AnyProperty {
    pub name: String,
    pub value: String,
}

/// The characters of a property.
pub struct AnyPropertyView {
    pub name: Seq<char>,
    pub value: Seq<char>,
}

impl View for AnyProperty {
    type V = AnyPropertyView;

    open spec fn view(&self) -> AnyPropertyView {
        AnyPropertyView { name: self.name@, value: self.value@ }
    }
}

/// A text that is no property: it holds no `=`.
#[derive(Clone, Debug, PartialEq, Eq)]
pub struct InvalidProperty {
    pub text: String,
}

impl InvalidProperty {
    /// The message that describes the error.
    pub fn message(&self) -> (msg: String)
        ensures
            msg@ == "No = found in property spec: "@ + self.text@,
    {
        let mut msg = "No = found in property spec: ".to_owned();
        vstd::string::StringExecFns::append(&mut msg, self.text.as_str());
        msg
    }
}

/// What reading a property from its text gives: what stands before and
/// after the first `=`, or the text itself as the error where it holds no
/// `=`.
pub open spec fn parse_property_spec(s: Seq<char>) -> Result<AnyPropertyView, Seq<char>> {
    let i = first_of(s, '=');
    if 0 <= i < s.len() {
        Ok(AnyPropertyView { name: s.subrange(0, i), value: s.subrange(i + 1, s.len() as int) })
    } else {
        Err(s)
    }
}

/// What reading some properties from their texts gives: the properties in
/// their order, or the first text that is none.
pub open spec fn parse_properties_spec(texts: Seq<Seq<char>>) -> Result<
    Seq<AnyPropertyView>,
    Seq<char>,
>
    decreases texts.len(),
{
    if texts.len() == 0 {
        Ok(Seq::empty())
    } else {
        match parse_property_spec(texts[0]) {
            Ok(first) => match parse_properties_spec(texts.drop_first()) {
                Ok(rest) => Ok(seq![first] + rest),
                Err(e) => Err(e),
            },
            Err(e) => Err(e),
        }
    }
}

/// What reading a property list from its text gives: the properties of the
/// pieces between its commas.
pub open spec fn parse_property_list_spec(s: Seq<char>) -> Result<Seq<AnyPropertyView>, Seq<char>> {
    parse_properties_spec(split_spec(s, ','))
}

impl AnyProperty {
    /// Reads a property from its text `name=value`.
    pub fn parse(s: &str) -> (r: Result<AnyProperty, InvalidProperty>)
        ensures
            match r {
                Ok(p) => parse_property_spec(s@) == Ok::<AnyPropertyView, Seq<char>>(p@),
                Err(e) => parse_property_spec(s@) == Err::<AnyPropertyView, Seq<char>>(e.text@),
            },
    {
        let n = s.unicode_len();
        let i = find_char(s, '=');
        if i < n {
            Ok(
                AnyProperty {
                    name: s.substring_char(0, i).to_owned(),
                    value: s.substring_char(i + 1, n).to_owned(),
                },
            )
        } else {
            Err(InvalidProperty { text: s.to_owned() })
        }
    }
}

/// The properties that select a variant, written `a=x,b=y`.
#[derive(Clone, Debug, PartialEq, Eq, Hash)]
pub struct PropertyList(pub Vec<AnyProperty>);

/// The views of a list of properties.
pub open spec fn property_views(properties: Seq<AnyProperty>) -> Seq<AnyPropertyView> {
    Seq::new(properties.len(), |i: int| properties[i]@)
}

impl View for PropertyList {
    type V = Seq<AnyPropertyView>;

    open spec fn view(&self) -> Seq<AnyPropertyView> {
        property_views(self.0@)
    }
}

impl PropertyList {
    /// Reads a property list from its text: the text is split at its
    /// commas, and each piece is read as a property. Fails with the first
    /// piece that holds no `=`.
    pub fn parse(s: &str) -> (r: Result<PropertyList, InvalidProperty>)
        ensures
            match r {
                Ok(list) => parse_property_list_spec(s@) == Ok::<Seq<AnyPropertyView>, Seq<char>>(
                    list@,
                ),
                Err(e) => parse_property_list_spec(s@) == Err::<Seq<AnyPropertyView>, Seq<char>>(
                    e.text@,
                ),
            },
    {
        let pieces = split(s, ',');
        let ghost texts = text_views(pieces@);
        let mut properties: Vec<AnyProperty> = Vec::new();
        let mut i: usize = 0;
        proof {
            assert(texts.skip(0) =~= texts);
        }
        while i < pieces.len()
            invariant
                i <= pieces@.len(),
                texts == text_views(pieces@),
                texts == split_spec(s@, ','),
                match parse_properties_spec(texts.skip(i as int)) {
                    Ok(rest) => parse_properties_spec(texts) == Ok::<Seq<AnyPropertyView>, Seq<char>>(
                        property_views(properties@) + rest,
                    ),
                    Err(e) => parse_properties_spec(texts) == Err::<Seq<AnyPropertyView>, Seq<char>>(
                        e,
                    ),
                },
            decreases pieces@.len() - i,
        {
            let ghost rest = texts.skip(i as int);
            proof {
                assert(rest[0] == pieces@[i as int]@);
                assert(rest.drop_first() =~= texts.skip(i + 1));
            }
            match AnyProperty::parse(pieces[i].as_str()) {
                Ok(property) => {
                    proof {
                        let tail = parse_properties_spec(texts.skip(i + 1));
                        assert(property_views(properties@.push(property)) =~= property_views(
                            properties@,
                        ) + seq![property@]);
                        if let Ok(more) = tail {
                            assert(property_views(properties@) + (seq![property@] + more) =~= (
                            property_views(properties@) + seq![property@]) + more);
                        }
                    }
                    properties.push(property);
                },
                Err(e) => {
                    return Err(e);
                },
            }
            i += 1;
        }
        proof {
            assert(texts.skip(texts.len() as int) =~= Seq::<Seq<char>>::empty());
            assert(property_views(properties@) + Seq::<AnyPropertyView>::empty() =~= property_views(
                properties@,
            ));
        }
        Ok(PropertyList(properties))
    }
}

/// One variant: the properties that select it and the model it shows.
#[derive(Clone, Debug, PartialEq, Eq)]
pub struct Variant {
    pub properties: PropertyList,
    pub model: AppliedModel,
}

/// The variants of a block, in no particular order.
#[derive(Clone, Debug, PartialEq, Eq)]
pub struct Variants(pub Vec<Variant>);

} // verus!
