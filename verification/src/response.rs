//! The success signal a transition returns: a list of key/value attributes.
//! Every transition here attaches a single `action` attribute naming itself,
//! for observability.

use vstd::prelude::*;

verus! {

/// One key/value attribute of a success signal.
#[derive(Debug, Clone, PartialEq)]
pub struct Attribute {
    pub key: String,
    pub value: String,
}

/// The mathematical value of an `Attribute`.
pub struct AttributeView {
    pub key: Seq<char>,
    pub value: Seq<char>,
}

impl View for Attribute {
    type V = AttributeView;

    open spec fn view(&self) -> AttributeView {
        AttributeView { key: self.key@, value: self.value@ }
    }
}

/// A successful transition's reply: its attributes, in the order added.
#[derive(Debug, Clone, PartialEq)]
pub struct Response {
    pub attributes: Vec<Attribute>,
}

impl View for Response {
    type V = Seq<AttributeView>;

    open spec fn view(&self) -> Seq<AttributeView> {
        self.attributes@.map_values(|a: Attribute| a@)
    }
}

/// The attribute list of a successful transition tagged `tag`: exactly one
/// `action` attribute.
pub open spec fn action_attr(tag: Seq<char>) -> Seq<AttributeView> {
    seq![AttributeView { key: "action"@, value: tag }]
}

impl Response {
    /// An empty reply.
    pub fn new() -> (r: Response)
        ensures
            r@ == Seq::<AttributeView>::empty(),
    {
        let r = Response { attributes: Vec::new() };
        proof {
            assert(r@ =~= Seq::<AttributeView>::empty());
        }
        r
    }

    /// Appends one attribute to the reply.
    pub fn add_attribute(self, key: &str, value: &str) -> (r: Response)
        ensures
            r@ == self@.push((AttributeView { key: key@, value: value@ })),
    {
        let mut attributes = self.attributes;
        let ghost prior = attributes@;
        attributes.push(Attribute { key: key.to_owned(), value: value.to_owned() });
        let r = Response { attributes };
        proof {
            assert(r@ =~= prior.map_values(|a: Attribute| a@).push(
                AttributeView { key: key@, value: value@ },
            ));
        }
        r
    }
}

} // verus!
