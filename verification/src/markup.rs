//! Parsed markup and pattern search.
//!
//! Markup is parsed and queried by `select`, patterns are matched by `regex`.
//! A node of a parsed document is known here by its place in the document's
//! list of nodes, which `select` keeps in document order.

use select::document::Document;
use vstd::prelude::*;
use vstd::utf8::encode_utf8;

verus! {

/// A parsed document. Its contents are reached through the functions below.
#[verifier::external_type_specification]
#[verifier::external_body]
pub struct ExDocument(Document);

/// The longest markup, in bytes, that is handed to the parser. A buffer of
/// the parser cannot grow beyond two to the power of 31 bytes, and the parser
/// may write three bytes for one that it reads: three times this length
/// stays below that.
pub const MAX_MARKUP_BYTES: usize = 0x2000_0000;

/// The document that the parser builds from a text.
pub uninterp spec fn html_document(html: Seq<char>) -> Document;

/// The number of nodes of a document.
pub uninterp spec fn node_count(doc: Document) -> nat;

/// The first node of the document that carries the class.
pub uninterp spec fn first_with_class(doc: Document, class: Seq<char>) -> Option<int>;

/// The first node of the document whose attribute `name` has the value.
pub uninterp spec fn first_with_attr(doc: Document, name: Seq<char>, value: Seq<char>) -> Option<int>;

/// The first node below `node` that carries the class.
pub uninterp spec fn first_below_with_class(doc: Document, node: int, class: Seq<char>) -> Option<int>;

/// The first element below `node` with the tag name.
pub uninterp spec fn first_below_named(doc: Document, node: int, name: Seq<char>) -> Option<int>;

/// The text of a node and of all nodes below it.
pub uninterp spec fn node_text(doc: Document, node: int) -> Seq<char>;

/// The markup of the nodes below a node.
pub uninterp spec fn node_inner_html(doc: Document, node: int) -> Seq<char>;

/// The successive matches of a pattern in a text, or `None` where the
/// pattern cannot be compiled.
pub uninterp spec fn regex_matches(pattern: Seq<char>, text: Seq<char>) -> Option<Seq<Seq<char>>>;

/// The contents of a list of strings.
pub open spec fn texts(list: Seq<String>) -> Seq<Seq<char>> {
    Seq::new(list.len(), |i: int| list[i]@)
}

/// A fetched page: its text, and the document parsed from it.
pub struct ScrapedData {
    pub html_text: String,
    pub doc: Document,
}

impl ScrapedData {
    /// The document is the one that the parser built from the text. Only
    /// such a document is read: its nodes are linked as the parser left
    /// them.
    pub open spec fn parsed(&self) -> bool {
        self.doc == html_document(self.html_text@)
    }

    /// Parses a page.
    ///
    /// Calls `select::document::Document::from_read` on the bytes of the
    /// text. The text is valid UTF-8 and is read from memory, so the call
    /// returns a document. The contract names that document
    /// `html_document`; nothing is proved of what the parser builds. It
    /// leaves out texts that the parser's buffers cannot hold.
    #[verifier::external_body]
    pub fn new(html_text: String) -> (data: ScrapedData)
        requires
            encode_utf8(html_text@).len() <= MAX_MARKUP_BYTES,
        ensures
            data.html_text@ == html_text@,
            data.doc == html_document(html_text@),
            data.parsed(),
    {
        let doc = Document::from_read(html_text.as_bytes()).unwrap();
        ScrapedData { html_text, doc }
    }
}

/// The first node in document order that carries `class`.
///
/// Calls `Document::find` with the predicate `select::predicate::Class` and
/// takes the first node found, by `Node::index`. The contract names the
/// outcome and states that a node found is a node of the document.
#[verifier::external_body]
pub(crate) fn find_class(doc: &Document, class: &str) -> (found: Option<usize>)
    ensures
        match found {
            Some(i) => first_with_class(*doc, class@) == Some(i as int) && i < node_count(*doc),
            None => first_with_class(*doc, class@) is None,
        },
{
    doc.find(select::predicate::Class(class)).next().map(|node| node.index())
}

/// The first node in document order whose attribute `name` is `value`.
///
/// Calls `Document::find` with the predicate `select::predicate::Attr` and
/// takes the first node found, by `Node::index`. The contract names the
/// outcome and states that a node found is a node of the document.
#[verifier::external_body]
pub(crate) fn find_attr(doc: &Document, name: &str, value: &str) -> (found: Option<usize>)
    ensures
        match found {
            Some(i) => first_with_attr(*doc, name@, value@) == Some(i as int) && i < node_count(
                *doc,
            ),
            None => first_with_attr(*doc, name@, value@) is None,
        },
{
    doc.find(select::predicate::Attr(name, value)).next().map(|node| node.index())
}

/// The first node below `node` that carries `class`.
///
/// Takes the node by `Document::nth`, calls `Node::find` with the predicate
/// `select::predicate::Class` and takes the first node found, by
/// `Node::index`. The contract names the outcome and states that a node
/// found is a node of the document. It admits only a document as the parser
/// built it: the search follows the links between the nodes.
#[verifier::external_body]
pub(crate) fn find_class_below(data: &ScrapedData, node: usize, class: &str) -> (found: Option<
    usize,
>)
    requires
        data.parsed(),
        node < node_count(data.doc),
    ensures
        match found {
            Some(i) => first_below_with_class(data.doc, node as int, class@) == Some(i as int) && i
                < node_count(data.doc),
            None => first_below_with_class(data.doc, node as int, class@) is None,
        },
{
    data.doc.nth(node).unwrap().find(select::predicate::Class(class)).next().map(|found| found.index())
}

/// The first element below `node` with the tag `name`.
///
/// Takes the node by `Document::nth`, calls `Node::find` with the predicate
/// `select::predicate::Name` and takes the first node found, by
/// `Node::index`. The contract names the outcome and states that a node
/// found is a node of the document. It admits only a document as the parser
/// built it: the search follows the links between the nodes.
#[verifier::external_body]
pub(crate) fn find_named_below(data: &ScrapedData, node: usize, name: &str) -> (found: Option<
    usize,
>)
    requires
        data.parsed(),
        node < node_count(data.doc),
    ensures
        match found {
            Some(i) => first_below_named(data.doc, node as int, name@) == Some(i as int) && i
                < node_count(data.doc),
            None => first_below_named(data.doc, node as int, name@) is None,
        },
{
    data.doc.nth(node).unwrap().find(select::predicate::Name(name)).next().map(|found| found.index())
}

/// The text of `node` and of the nodes below it.
///
/// Takes the node by `Document::nth` and calls `Node::text`. The contract
/// names the text. It admits only a document as the parser built it: the
/// call follows the links between the nodes.
#[verifier::external_body]
pub(crate) fn text_of(data: &ScrapedData, node: usize) -> (text: String)
    requires
        data.parsed(),
        node < node_count(data.doc),
    ensures
        text@ == node_text(data.doc, node as int),
{
    data.doc.nth(node).unwrap().text()
}

/// The markup of the nodes below `node`.
///
/// Takes the node by `Document::nth` and calls `Node::inner_html`. The
/// contract names the markup. It admits only a document as the parser built
/// it: the call follows the links between the nodes.
#[verifier::external_body]
pub(crate) fn inner_html_of(data: &ScrapedData, node: usize) -> (html: String)
    requires
        data.parsed(),
        node < node_count(data.doc),
    ensures
        html@ == node_inner_html(data.doc, node as int),
{
    data.doc.nth(node).unwrap().inner_html()
}

/// The successive matches of `pattern` in `text`, none overlapping another,
/// or `None` where the pattern cannot be compiled.
///
/// Calls `regex::Regex::new`, then `Regex::find_iter`, and takes each match
/// by `Match::as_str`. The contract names the outcome.
#[verifier::external_body]
pub(crate) fn find_all(pattern: &str, text: &str) -> (found: Option<Vec<String>>)
    ensures
        match found {
            Some(list) => regex_matches(pattern@, text@) == Some(texts(list@)),
            None => regex_matches(pattern@, text@) is None,
        },
{
    match regex::Regex::new(pattern) {
        Ok(re) => Some(re.find_iter(text).map(|m| m.as_str().to_string()).collect()),
        Err(_) => None,
    }
}

} // verus!
