//! Editor core: the text buffer that holds a document's text, and the
//! syntax parser's interface.
use vstd::prelude::*;

verus! {

#[verifier::external_type_specification]
#[verifier::external_body]
pub struct ExRope(ropey::Rope);

/// The text a rope holds.
pub uninterp spec fn rope_text(rope: ropey::Rope) -> Seq<char>;

/// `ropey::Rope::from_str`: a rope holding exactly `text`.
#[verifier::external_body]
fn rope_from_str(text: &str) -> (r: ropey::Rope)
    ensures
        rope_text(r) == text@,
{
    ropey::Rope::from_str(text)
}

/// The rope's `Display` output, which writes its chunks in order: its text.
#[verifier::external_body]
fn rope_to_string(rope: &ropey::Rope) -> (r: String)
    ensures
        r@ == rope_text(*rope),
{
    rope.to_string()
}

/// `ropey::Rope::len_chars`: the number of chars the rope holds.
#[verifier::external_body]
fn rope_len_chars(rope: &ropey::Rope) -> (r: usize)
    ensures
        r == rope_text(*rope).len(),
{
    rope.len_chars()
}

/// A document's text, held in a rope.
pub struct TextBuffer {
    rope: ropey::Rope,
}

impl TextBuffer {
    /// The buffer's text.
    pub closed spec fn text(&self) -> Seq<char> {
        rope_text(self.rope)
    }

    pub fn new(content: &str) -> (r: Self)
        ensures
            r.text() == content@,
    {
        TextBuffer { rope: rope_from_str(content) }
    }

    pub fn get_text(&self) -> (r: String)
        ensures
            r@ == self.text(),
    {
        rope_to_string(&self.rope)
    }

    /// The number of characters in the buffer.
    pub fn len_chars(&self) -> (r: usize)
        ensures
            r == self.text().len(),
    {
        rope_len_chars(&self.rope)
    }
}

/// A highlighted span of source text.
pub struct SyntaxToken {
    pub start: usize,
    pub end: usize,
    pub token_type: String,
}

/// The syntax parser; it recognizes no language yet.
pub struct SyntaxParser {}

impl SyntaxParser {
    pub fn new() -> (r: Self) {
        SyntaxParser {}
    }

    /// The tokens of `source` in `language`: none, as no grammar is loaded.
    pub fn parse(&self, source: &str, language: &str) -> (r: Vec<SyntaxToken>)
        ensures
            r@.len() == 0,
    {
        Vec::new()
    }
}

} // verus!
