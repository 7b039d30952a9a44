//! The wire form of a message body: a sequence of self-describing elements.
//! A scalar element holds its fixed-width representation or its text; a
//! container element (array, variant, dictionary entry) holds the signature
//! it was opened with and the elements appended inside it.
use vstd::prelude::*;

verus! {

#[derive(Debug)]
pub struct Element {
    /// The element's type code.
    pub tag: u8,
    /// For a container, the signature of its contents.
    pub signature: Vec<u8>,
    /// For a fixed-width scalar, its value widened to 64 bits.
    pub basic: i64,
    /// For a string, its text.
    pub text: String,
    /// For a container, its contents.
    pub children: Vec<Element>,
}

/// The mathematical value of an `Element`.
#[verifier::ext_equal]
pub struct WireView {
    pub tag: u8,
    pub signature: Seq<u8>,
    pub basic: i64,
    pub text: Seq<char>,
    pub children: Seq<WireView>,
}

impl View for Element {
    type V = WireView;

    open spec fn view(&self) -> WireView {
        wire_view(*self)
    }
}

/// The view of one element, its children included.
pub open spec fn wire_view(e: Element) -> WireView
    decreases e,
{
    WireView {
        tag: e.tag,
        signature: e.signature@,
        basic: e.basic,
        text: e.text@,
        children: Seq::new(
            e.children@.len(),
            |i: int|
                if 0 <= i < e.children@.len() {
                    wire_view(e.children@[i])
                } else {
                    basic_view(0, 0)
                },
        ),
    }
}

/// The views of a sequence of elements.
pub open spec fn elements_view(s: Seq<Element>) -> Seq<WireView> {
    Seq::new(s.len(), |i: int| s[i]@)
}

/// A scalar element with the given code and fixed-width representation.
pub open spec fn basic_view(tag: u8, bits: i64) -> WireView {
    WireView {
        tag,
        signature: Seq::empty(),
        basic: bits,
        text: Seq::empty(),
        children: Seq::empty(),
    }
}

/// A container element.
pub open spec fn container_view(tag: u8, signature: Seq<u8>, children: Seq<WireView>) -> WireView {
    WireView { tag, signature, basic: 0, text: Seq::empty(), children }
}

/// The view of an element's contents is the views of its children.
pub proof fn lemma_children_view(e: Element)
    ensures
        e@.children == elements_view(e.children@),
{
    assert(e@.children =~= elements_view(e.children@));
}

} // verus!
