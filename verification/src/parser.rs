//! The literal nodes and the classifier that builds them.
//!
//! `parse_number` takes a token whose boundaries a tokenizer has already
//! fixed, decides which of the three literal grammars its text matches, and
//! wraps the text — byte for byte as it came in — in the matching node
//! variant, keeping a link back to the source token.

use vstd::prelude::*;

use crate::grammar::Kind;
use crate::grammar::classification;
use crate::grammar::classify;

verus! {

/// A numeric token as a tokenizer hands it over: the literal's exact
/// characters and where in the source they start.
pub struct Token {
    /// The literal's verbatim text, e.g. `0x_1F` or `3.14e10`.
    pub text: String,
    /// Character offset of the literal in its source.
    pub position: usize,
}

/// A marker for one `(` found around a literal; a later tree-building pass
/// fills these in, the classifier always leaves them empty.
pub struct LeftParen {}

/// A marker for one `)` found around a literal; a later tree-building pass
/// fills these in, the classifier always leaves them empty.
pub struct RightParen {}

/// An integer literal node.
pub struct Integer {
    /// The literal's verbatim text.
    pub value: String,
    /// Opening parentheses around the literal, empty at creation.
    pub lpar: Vec<LeftParen>,
    /// Closing parentheses around the literal, empty at creation.
    pub rpar: Vec<RightParen>,
    /// The source token this node was built from.
    pub tok: Token,
}

/// A floating-point literal node.
pub struct Float {
    /// The literal's verbatim text.
    pub value: String,
    /// Opening parentheses around the literal, empty at creation.
    pub lpar: Vec<LeftParen>,
    /// Closing parentheses around the literal, empty at creation.
    pub rpar: Vec<RightParen>,
    /// The source token this node was built from.
    pub tok: Token,
}

/// An imaginary literal node.
pub struct Imaginary {
    /// The literal's verbatim text.
    pub value: String,
    /// Opening parentheses around the literal, empty at creation.
    pub lpar: Vec<LeftParen>,
    /// Closing parentheses around the literal, empty at creation.
    pub rpar: Vec<RightParen>,
    /// The source token this node was built from.
    pub tok: Token,
}

/// A classified numeric literal: exactly one of the three node shapes,
/// tagged by the grammar that matched.
pub enum Expression {
    Integer(Integer),
    Float(Float),
    Imaginary(Imaginary),
}

impl Expression {
    /// The literal category this node is tagged with.
    pub open spec fn kind(&self) -> Kind {
        match self {
            Expression::Integer(_) => Kind::Integer,
            Expression::Float(_) => Kind::Float,
            Expression::Imaginary(_) => Kind::Imaginary,
        }
    }

    /// The verbatim literal text the node stores.
    pub open spec fn value_text(&self) -> Seq<char> {
        match self {
            Expression::Integer(n) => n.value@,
            Expression::Float(n) => n.value@,
            Expression::Imaginary(n) => n.value@,
        }
    }

    /// The text of the source token the node links back to.
    pub open spec fn token_text(&self) -> Seq<char> {
        match self {
            Expression::Integer(n) => n.tok.text@,
            Expression::Float(n) => n.tok.text@,
            Expression::Imaginary(n) => n.tok.text@,
        }
    }

    /// The position of the source token the node links back to.
    pub open spec fn token_position(&self) -> int {
        match self {
            Expression::Integer(n) => n.tok.position as int,
            Expression::Float(n) => n.tok.position as int,
            Expression::Imaginary(n) => n.tok.position as int,
        }
    }

    /// How many opening parenthesis markers the node carries.
    pub open spec fn lpar_count(&self) -> int {
        match self {
            Expression::Integer(n) => n.lpar.len() as int,
            Expression::Float(n) => n.lpar.len() as int,
            Expression::Imaginary(n) => n.lpar.len() as int,
        }
    }

    /// How many closing parenthesis markers the node carries.
    pub open spec fn rpar_count(&self) -> int {
        match self {
            Expression::Integer(n) => n.rpar.len() as int,
            Expression::Float(n) => n.rpar.len() as int,
            Expression::Imaginary(n) => n.rpar.len() as int,
        }
    }
}

/// `e` is the correct classification of a token with text `text` at
/// `position`: the variant follows `classification`, the stored value is
/// the text verbatim, the parenthesis markers are empty, and the source
/// token is carried through unchanged.
pub open spec fn classified_node(e: Expression, text: Seq<char>, position: int) -> bool {
    &&& e.kind() == classification(text)
    &&& e.value_text() == text
    &&& e.token_text() == text
    &&& e.token_position() == position
    &&& e.lpar_count() == 0
    &&& e.rpar_count() == 0
}

/// Classifies the token's text against the three literal grammars in
/// priority order — integer, float, imaginary — and wraps the text
/// verbatim in the matching node. Text matching no grammar still yields a
/// node: an Integer one, the silent fallback. The function is total and
/// never fails.
pub fn parse_number(tok: Token) -> (e: Expression)
    ensures
        classified_node(e, tok.text@, tok.position as int),
{
    let value = tok.text.clone();
    match classify(tok.text.as_str()) {
        Kind::Integer => Expression::Integer(
            Integer { value, lpar: Vec::new(), rpar: Vec::new(), tok },
        ),
        Kind::Float => Expression::Float(Float { value, lpar: Vec::new(), rpar: Vec::new(), tok }),
        Kind::Imaginary => Expression::Imaginary(
            Imaginary { value, lpar: Vec::new(), rpar: Vec::new(), tok },
        ),
    }
}

/// Classification is deterministic: two nodes correctly built from the same
/// text — wherever their tokens sat in the source — carry the same variant
/// and the same stored text.
pub proof fn lemma_classification_deterministic(
    e1: Expression,
    e2: Expression,
    text: Seq<char>,
    p1: int,
    p2: int,
)
    requires
        classified_node(e1, text, p1),
        classified_node(e2, text, p2),
    ensures
        e1.kind() == e2.kind(),
        e1.value_text() == e2.value_text(),
{
}

} // verus!
