use vstd::prelude::*;

verus! {

/// One element of a parsed template. Payloads are views into the input buffer.
#[derive(Debug, PartialEq, Eq)]
pub enum Node<'a> {
    /// Raw text, exactly as it appears in the input; never holds a marker.
    Literal { contents: &'a [u8] },
    /// The ASCII-alphabetic name between two interpolation markers.
    Interpolation { identifier: &'a [u8] },
    /// A positive conditional: its ASCII-alphabetic name and its parsed body.
    Conditional { identifier: &'a [u8], children: Vec<Node<'a>> },
}

/// Mathematical model of a node: the same tree over byte sequences.
pub enum Syntax {
    Literal(Seq<u8>),
    Interpolation(Seq<u8>),
    Conditional(Seq<u8>, Seq<Syntax>),
}

impl<'a> Node<'a> {
    pub open spec fn model(self) -> Syntax
        decreases self,
    {
        match self {
            Node::Literal { contents } => Syntax::Literal(contents@),
            Node::Interpolation { identifier } => Syntax::Interpolation(identifier@),
            Node::Conditional { identifier, children } => Syntax::Conditional(
                identifier@,
                models(children@),
            ),
        }
    }
}

/// The models of a sequence of nodes, element by element.
pub open spec fn models<'a>(v: Seq<Node<'a>>) -> Seq<Syntax>
    decreases v,
{
    if v.len() == 0 {
        Seq::empty()
    } else {
        models(v.subrange(0, v.len() - 1)) + seq![v[v.len() - 1].model()]
    }
}

} // verus!
