//! The bodies of requests and responses.
use vstd::prelude::*;
use vstd::utf8::*;

verus! {

/// The body of a request or a response.
#[derive(Debug, PartialEq, Eq)]
pub enum Body {
    Empty,
    Text(String),
    Binary(Vec<u8>),
}

/// What a body holds.
pub enum BodyView {
    Empty,
    Text(Seq<char>),
    Binary(Seq<u8>),
}

impl View for Body {
    type V = BodyView;

    open spec fn view(&self) -> BodyView {
        match self {
            Body::Empty => BodyView::Empty,
            Body::Text(text) => BodyView::Text(text@),
            Body::Binary(bytes) => BodyView::Binary(bytes@),
        }
    }
}

impl BodyView {
    /// The bytes that a body stands for.
    pub open spec fn bytes(self) -> Seq<u8> {
        match self {
            BodyView::Empty => Seq::empty(),
            BodyView::Text(text) => encode_utf8(text),
            BodyView::Binary(bytes) => bytes,
        }
    }
}

/// What a body holds is of the same variant as the body, with the same text or
/// the same bytes.
pub proof fn law_view_is_the_body(body: Body)
    ensures
        body@ is Empty <==> body is Empty,
        body@ is Text <==> body is Text,
        body@ is Binary <==> body is Binary,
        body matches Body::Text(text) ==> body@->Text_0 == text@ && body@.bytes() == encode_utf8(
            text@,
        ),
        body matches Body::Binary(bytes) ==> body@->Binary_0 == bytes@ && body@.bytes() == bytes@,
        body is Empty ==> body@.bytes().len() == 0,
{
}

} // verus!
