//! The parsing boundary: a thin adapter around the external query parser.
//!
//! Parsing itself is the external library's work; this module only fixes what
//! the rest of the crate may assume about it. The parser is a pure function of
//! the query text, so its outcome on a text is given a name, `parse_result`,
//! and every contract in the crate speaks of that name.
//!
//! One narrow class of texts is refused before the parser is reached: texts
//! that contain both a block string opener (three consecutive `"` characters)
//! and a non-ASCII whitespace character. The external parser's block-string
//! unquoting measures common indentation in bytes and slices every line at
//! that byte offset; when a line's leading whitespace holds a multibyte
//! whitespace character the slice can fall inside it and the process aborts.
//! With ASCII-only whitespace every such offset lands on a character
//! boundary, so all other texts — ordinary block strings included — are
//! handed to the parser unchanged.

use vstd::prelude::*;
use vstd::string::StrSliceExecFns;

verus! {

/// The outcome of parsing a query text: the document it denotes, or the
/// message of the first syntax error. The external parser is deterministic,
/// so the outcome is a function of the character sequence alone. The name is
/// only ever applied to texts the parser is actually run on (no block string
/// opener together with non-ASCII whitespace).
pub uninterp spec fn parse_result(s: Seq<char>) -> Result<ParsedDocument, Seq<char>>;

/// The canonical textual rendering of a parsed document, a function of the
/// document alone.
pub uninterp spec fn rendered_text(d: ParsedDocument) -> Seq<char>;

/// Whether the text holds a block string opener: three consecutive `"`
/// characters. The external tokenizer begins a block string exactly on that
/// pattern, so a text without it never exercises block-string handling.
pub open spec fn contains_block_string(s: Seq<char>) -> bool {
    exists|i: int|
        0 <= i && i + 2 < s.len() && #[trigger] s[i] == '"' && s[i + 1] == '"' && s[i + 2]
            == '"'
}

/// The non-ASCII characters with Unicode's White_Space property: exactly
/// what the external parser's `trim_start` trims beyond ASCII. A text
/// without them has one-byte leading whitespace on every line, so the
/// block-string indentation slicing stays on character boundaries.
pub open spec fn is_wide_whitespace(c: char) -> bool {
    ||| c == '\u{0085}'
    ||| c == '\u{00A0}'
    ||| c == '\u{1680}'
    ||| c == '\u{2000}'
    ||| c == '\u{2001}'
    ||| c == '\u{2002}'
    ||| c == '\u{2003}'
    ||| c == '\u{2004}'
    ||| c == '\u{2005}'
    ||| c == '\u{2006}'
    ||| c == '\u{2007}'
    ||| c == '\u{2008}'
    ||| c == '\u{2009}'
    ||| c == '\u{200A}'
    ||| c == '\u{2028}'
    ||| c == '\u{2029}'
    ||| c == '\u{202F}'
    ||| c == '\u{205F}'
    ||| c == '\u{3000}'
}

/// Whether the text holds any non-ASCII whitespace character.
pub open spec fn contains_wide_whitespace(s: Seq<char>) -> bool {
    exists|i: int| 0 <= i < s.len() && is_wide_whitespace(#[trigger] s[i])
}

/// The texts this crate refuses to hand to the parser: those on which the
/// parser's block-string unquoting may abort instead of returning — a block
/// string opener together with non-ASCII whitespace.
pub open spec fn unsupported_text(s: Seq<char>) -> bool {
    contains_block_string(s) && contains_wide_whitespace(s)
}

/// The message with which an unsupported text is refused.
pub open spec fn unsupported_text_message() -> Seq<char> {
    "block string with non-ascii whitespace is not supported"@
}

/// An immutable, successfully parsed query document.
///
/// The structure of the document is the external parser's business; this
/// crate stores documents, duplicates them, and hands them out, so the value
/// is carried opaquely, behind a shared handle that makes duplication cheap.
#[verifier::external_body]
pub struct ParsedDocument {
    doc: std::rc::Rc<graphql_parser::query::Document<'static, String>>,
}

/// A syntax failure reported by the parser, carrying its human-readable
/// description. Its view is the message's character sequence.
pub struct ParseFailure {
    message: String,
}

impl View for ParseFailure {
    type V = Seq<char>;

    closed spec fn view(&self) -> Seq<char> {
        self.message@
    }
}

impl ParseFailure {
    /// The human-readable description of the failure.
    pub fn message(&self) -> (m: &str)
        ensures
            m@ == self@,
    {
        self.message.as_str()
    }

    /// The failure with which an unsupported text is refused.
    pub(crate) fn unsupported() -> (f: ParseFailure)
        ensures
            f@ == unsupported_text_message(),
    {
        ParseFailure {
            message: "block string with non-ascii whitespace is not supported".to_owned(),
        }
    }
}

impl Clone for ParsedDocument {
    /// Relies on `Rc::clone`: the duplicate is a handle to the same
    /// immutable document, at constant cost.
    #[verifier::external_body]
    fn clone(&self) -> (res: Self)
        ensures
            res == *self,
    {
        ParsedDocument { doc: self.doc.clone() }
    }
}

/// Whether the text holds a block string opener.
pub fn has_block_string(query: &str) -> (b: bool)
    ensures
        b == contains_block_string(query@),
{
    let n = query.unicode_len();
    if n < 3 {
        return false;
    }
    let mut i: usize = 0;
    while i < n - 2
        invariant
            3 <= n,
            n == query@.len(),
            i <= n - 2,
            forall|j: int|
                0 <= j < i ==> !(#[trigger] query@[j] == '"' && query@[j + 1] == '"'
                    && query@[j + 2] == '"'),
        decreases n - i,
    {
        if query.get_char(i) == '"' && query.get_char(i + 1) == '"' && query.get_char(i + 2)
            == '"' {
            proof {
                assert(contains_block_string(query@)) by {
                    assert(0 <= i as int && i as int + 2 < query@.len() && query@[i as int]
                        == '"' && query@[i as int + 1] == '"' && query@[i as int + 2] == '"');
                }
            }
            return true;
        }
        i = i + 1;
    }
    false
}

/// Whether one character is non-ASCII whitespace.
fn is_wide_whitespace_char(c: char) -> (b: bool)
    ensures
        b == is_wide_whitespace(c),
{
    c == '\u{0085}' || c == '\u{00A0}' || c == '\u{1680}' || c == '\u{2000}' || c == '\u{2001}'
        || c == '\u{2002}' || c == '\u{2003}' || c == '\u{2004}' || c == '\u{2005}' || c
        == '\u{2006}' || c == '\u{2007}' || c == '\u{2008}' || c == '\u{2009}' || c == '\u{200A}'
        || c == '\u{2028}' || c == '\u{2029}' || c == '\u{202F}' || c == '\u{205F}' || c
        == '\u{3000}'
}

/// Whether the text holds any non-ASCII whitespace character.
pub fn has_wide_whitespace(query: &str) -> (b: bool)
    ensures
        b == contains_wide_whitespace(query@),
{
    let n = query.unicode_len();
    let mut i: usize = 0;
    while i < n
        invariant
            n == query@.len(),
            i <= n,
            forall|j: int| 0 <= j < i ==> !is_wide_whitespace(#[trigger] query@[j]),
        decreases n - i,
    {
        if is_wide_whitespace_char(query.get_char(i)) {
            proof {
                assert(contains_wide_whitespace(query@)) by {
                    assert(0 <= i as int && (i as int) < query@.len() && is_wide_whitespace(
                        query@[i as int],
                    ));
                }
            }
            return true;
        }
        i = i + 1;
    }
    false
}

/// Whether the text must be refused rather than handed to the parser.
pub fn is_unsupported_text(query: &str) -> (b: bool)
    ensures
        b == unsupported_text(query@),
{
    has_block_string(query) && has_wide_whitespace(query)
}

/// Relies on `graphql_parser::query::parse_query`: a deterministic, pure
/// parse of the text, yielding an owned document (`Document::into_static`)
/// on success and a descriptive error (`ParseError`'s `Display`) otherwise.
/// Texts with both a block string opener and non-ASCII whitespace are kept
/// out: on some of them the parser's block-string unquoting aborts instead
/// of returning.
#[verifier::external_body]
pub(crate) fn parse_document_text(query: &str) -> (r: Result<ParsedDocument, ParseFailure>)
    requires
        !unsupported_text(query@),
    ensures
        match r {
            Ok(d) => parse_result(query@) == Ok::<ParsedDocument, Seq<char>>(d),
            Err(e) => parse_result(query@) == Err::<ParsedDocument, Seq<char>>(e@),
        },
{
    match graphql_parser::query::parse_query::<String>(query) {
        Ok(doc) => Ok(ParsedDocument { doc: std::rc::Rc::new(doc.into_static()) }),
        Err(err) => Err(ParseFailure { message: err.to_string() }),
    }
}

/// Relies on the `Display` of `graphql_parser::query::Document`: a
/// deterministic rendering of the document alone.
#[verifier::external_body]
fn render_document(d: &ParsedDocument) -> (s: String)
    ensures
        s@ == rendered_text(*d),
{
    format!("{}", d.doc)
}

/// Relies on the derived `PartialEq` of `graphql_parser::query::Document`:
/// equal document values compare structurally equal. Only this direction is
/// claimed: the derived comparison equates distinct values of embedded
/// floats, such as the two signed zeros, which render differently.
#[verifier::external_body]
fn document_eq(a: &ParsedDocument, b: &ParsedDocument) -> (r: bool)
    ensures
        a == b ==> r,
{
    a.doc == b.doc
}

impl ParsedDocument {
    /// The canonical textual form of this document.
    pub fn to_query_string(&self) -> (s: String)
        ensures
            s@ == rendered_text(*self),
    {
        render_document(self)
    }

    /// Structural comparison of two documents; equal documents compare true.
    pub fn structurally_equal(&self, other: &ParsedDocument) -> (r: bool)
        ensures
            *self == *other ==> r,
    {
        document_eq(self, other)
    }
}

/// Parses a query text, returning the document it denotes or the failure
/// the parser reported; an unsupported text is refused with the fixed
/// message.
pub fn try_parse(query: &str) -> (r: Result<ParsedDocument, ParseFailure>)
    ensures
        unsupported_text(query@) ==> r is Err && r->Err_0@ == unsupported_text_message(),
        !unsupported_text(query@) ==> match r {
            Ok(d) => parse_result(query@) == Ok::<ParsedDocument, Seq<char>>(d),
            Err(e) => parse_result(query@) == Err::<ParsedDocument, Seq<char>>(e@),
        },
{
    if is_unsupported_text(query) {
        Err(ParseFailure::unsupported())
    } else {
        match parse_document_text(query) {
            Ok(_) => Ok(parse(query)),
            Err(e) => Err(e),
        }
    }
}

/// Parses a query text that is known to be syntactically valid (and not
/// refused as unsupported).
pub fn parse(query: &str) -> (r: ParsedDocument)
    requires
        !unsupported_text(query@),
        parse_result(query@) is Ok,
    ensures
        Ok::<ParsedDocument, Seq<char>>(r) == parse_result(query@),
{
    match parse_document_text(query) {
        Ok(d) => d,
        Err(_) => vstd::pervasive::unreached(),
    }
}

} // verus!
