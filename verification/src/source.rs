//! Reading MiniZinc source text into a concrete syntax tree with the
//! tree-sitter parser, for a MiniZinc grammar that the caller supplies.
use vstd::prelude::*;
use vstd::string::StringSliceAdditionalSpecFns;
use vstd::utf8::{encode_utf8, is_char_boundary, valid_utf8};
use tree_sitter::{Language, Node, Parser, Tree};
use crate::cst::SyntaxNode;

verus! {

#[verifier::external_type_specification]
#[verifier::external_body]
pub struct ExTree(Tree);

#[verifier::external_type_specification]
#[verifier::external_body]
pub struct ExNode<'tree>(Node<'tree>);

#[verifier::external_type_specification]
#[verifier::external_body]
pub struct ExLanguage(Language);

/// The oldest grammar version that this tree-sitter parser accepts
/// (`tree_sitter::MIN_COMPATIBLE_LANGUAGE_VERSION`).
pub const MIN_LANGUAGE_VERSION: usize = 13;

/// The newest grammar version that this tree-sitter parser accepts
/// (`tree_sitter::LANGUAGE_VERSION`).
pub const MAX_LANGUAGE_VERSION: usize = 14;

/// Parses `text` with a new `tree_sitter::Parser` set to the grammar
/// `language` (`Parser::new`, `Language::version`, `Parser::set_language`,
/// `Parser::parse` with no earlier tree).
///
/// `set_language` accepts the grammar exactly when its version lies in
/// `MIN_COMPATIBLE_LANGUAGE_VERSION..=LANGUAGE_VERSION`, and then `parse`
/// gives a tree, since it gives none only without a language, after a
/// timeout or on a cancellation flag, and this fresh parser has neither (a
/// grammar compiled to WebAssembly could still be refused, which this build
/// of tree-sitter, without its `wasm` feature, never makes). So the result
/// is the tree and the version, or the refused version. What tree comes back
/// is not stated: it depends on the grammar, which is opaque here.
#[verifier::external_body]
fn parse_text(language: &Language, text: &str) -> (r: Result<(Tree, usize), usize>)
    ensures
        match r {
            Ok((_, version)) => MIN_LANGUAGE_VERSION <= version <= MAX_LANGUAGE_VERSION,
            Err(version) => !(MIN_LANGUAGE_VERSION <= version <= MAX_LANGUAGE_VERSION),
        },
{
    let mut parser = Parser::new();
    let version = language.version();
    match parser.set_language(language) {
        Ok(()) => match parser.parse(text, None) {
            Some(tree) => Ok((tree, version)),
            None => Err(version),
        },
        Err(_) => Err(version),
    }
}

/// `tree_sitter::Tree::root_node`. Nothing is stated of the node.
#[verifier::external_body]
fn root_node<'a>(tree: &'a Tree) -> Node<'a> {
    tree.root_node()
}

/// `tree_sitter::Node::kind`, copied into a `String`. Not stated.
#[verifier::external_body]
fn node_kind(node: &Node) -> String {
    node.kind().to_string()
}

/// `tree_sitter::Node::is_named`. Not stated.
#[verifier::external_body]
fn node_is_named(node: &Node) -> bool {
    node.is_named()
}

/// `tree_sitter::Node::start_byte`. Not stated.
#[verifier::external_body]
fn node_start_byte(node: &Node) -> usize {
    node.start_byte()
}

/// `tree_sitter::Node::end_byte`. Not stated.
#[verifier::external_body]
fn node_end_byte(node: &Node) -> usize {
    node.end_byte()
}

/// `tree_sitter::Node::start_position`, as its row and column. Not stated.
#[verifier::external_body]
fn node_start_position(node: &Node) -> (usize, usize) {
    let p = node.start_position();
    (p.row, p.column)
}

/// `tree_sitter::Node::end_position`, as its row and column. Not stated.
#[verifier::external_body]
fn node_end_position(node: &Node) -> (usize, usize) {
    let p = node.end_position();
    (p.row, p.column)
}

/// `tree_sitter::Node::children`, walked with a fresh cursor and collected:
/// every child of the node, in order. Not stated.
#[verifier::external_body]
fn node_children<'a>(node: &Node<'a>) -> Vec<Node<'a>> {
    let mut cursor = node.walk();
    node.children(&mut cursor).collect()
}

/// `tree_sitter::Node::field_name_for_child`, copied into a `String`. Not
/// stated.
#[verifier::external_body]
fn node_field_name_for_child(node: &Node, i: u32) -> Option<String> {
    match node.field_name_for_child(i) {
        Some(f) => Some(f.to_string()),
        None => None,
    }
}

/// Why source text could not be read into a syntax tree.
#[derive(PartialEq, Eq, Debug)]
pub enum SourceError {
    /// The parser refused the grammar: its version is outside
    /// `MIN_LANGUAGE_VERSION..=MAX_LANGUAGE_VERSION`.
    Language { version: usize },
    /// A node's byte range ends before it starts or past the end of the
    /// source.
    Range { start: usize, end: usize },
    /// A node's bytes cut a character of the source, so they are not UTF-8
    /// text on their own.
    Text { start: usize, end: usize },
    /// The tree is deeper than the depth given.
    TooDeep,
}

/// The text of `n` is the UTF-8 text of `src` from its start to its end byte.
pub open spec fn spans_source(n: SyntaxNode, src: Seq<u8>) -> bool {
    &&& n.start_byte <= n.end_byte <= src.len()
    &&& encode_utf8(n.text@) == src.subrange(n.start_byte as int, n.end_byte as int)
}

/// Every node of the tree `n` spans its text in `src`.
pub open spec fn tree_spans_source(n: SyntaxNode, src: Seq<u8>) -> bool
    decreases n,
{
    spans_source(n, src) && trees_span_source(n.children@, src)
}

/// Every node of the trees `cs` spans its text in `src`.
pub open spec fn trees_span_source(cs: Seq<SyntaxNode>, src: Seq<u8>) -> bool
    decreases cs,
{
    if cs.len() == 0 {
        true
    } else {
        trees_span_source(cs.drop_last(), src) && tree_spans_source(cs.last(), src)
    }
}

/// A character boundary of a UTF-8 text before another one is a character
/// boundary of the text cut at that other one.
proof fn lemma_char_boundary_prefix(bytes: Seq<u8>, start: int, end: int)
    requires
        valid_utf8(bytes),
        0 <= start <= end <= bytes.len(),
        is_char_boundary(bytes, start),
        is_char_boundary(bytes, end),
    ensures
        is_char_boundary(bytes.subrange(0, end), start),
{
    vstd::utf8::valid_utf8_split(bytes, end);
    let head = bytes.subrange(0, end);
    if start == end {
        vstd::utf8::is_char_boundary_start_end_of_seq(head);
    } else {
        vstd::utf8::is_char_boundary_iff_not_is_continuation_byte(bytes, start);
        vstd::utf8::is_char_boundary_iff_not_is_continuation_byte(head, start);
        assert(head[start] == bytes[start]);
    }
}

/// The text of `source` from byte `start` to byte `end`: `Range` when the
/// range ends before it starts or past the end of `source`, `Text` when it
/// starts or ends inside a character.
pub fn text_between(source: &str, start: usize, end: usize) -> (r: Result<String, SourceError>)
    ensures
        match r {
            Ok(t) => {
                &&& start <= end <= source.spec_bytes().len()
                &&& is_char_boundary(source.spec_bytes(), start as int)
                &&& is_char_boundary(source.spec_bytes(), end as int)
                &&& encode_utf8(t@) == source.spec_bytes().subrange(start as int, end as int)
            },
            Err(SourceError::Range { start: s, end: e }) => {
                &&& s == start && e == end
                &&& !(start <= end <= source.spec_bytes().len())
            },
            Err(SourceError::Text { start: s, end: e }) => {
                &&& s == start && e == end
                &&& start <= end <= source.spec_bytes().len()
                &&& !(is_char_boundary(source.spec_bytes(), start as int) && is_char_boundary(
                    source.spec_bytes(),
                    end as int,
                ))
            },
            Err(_) => false,
        },
{
    let ghost bytes = source.spec_bytes();
    proof {
        vstd::utf8::encode_utf8_valid_utf8(source@);
    }
    let len: usize = source.as_bytes().len();
    if !(start <= end && end <= len) {
        return Err(SourceError::Range { start, end });
    }
    if !(source.is_char_boundary(start) && source.is_char_boundary(end)) {
        return Err(SourceError::Text { start, end });
    }
    let (head, _) = source.split_at(end);
    proof {
        lemma_char_boundary_prefix(bytes, start as int, end as int);
    }
    let (_, piece) = head.split_at(start);
    assert(piece.spec_bytes() =~= bytes.subrange(start as int, end as int));
    Ok(piece.to_owned())
}

/// The node and, below it, the whole subtree, as plain values, each node with
/// its text in `source`; `depth` bounds how many levels are read.
pub fn syntax_node_from(node: &Node, field: Option<String>, source: &str, depth: usize) -> (r:
    Result<SyntaxNode, SourceError>)
    ensures
        depth == 0 ==> r == Err::<SyntaxNode, SourceError>(SourceError::TooDeep),
        match r {
            Ok(n) => n.field == field && tree_spans_source(n, source.spec_bytes()),
            Err(SourceError::Language { .. }) => false,
            Err(SourceError::Range { start, end }) => !(start <= end
                <= source.spec_bytes().len()),
            Err(SourceError::Text { start, end }) => {
                &&& start <= end <= source.spec_bytes().len()
                &&& !(is_char_boundary(source.spec_bytes(), start as int) && is_char_boundary(
                    source.spec_bytes(),
                    end as int,
                ))
            },
            Err(SourceError::TooDeep) => true,
        },
    decreases depth,
{
    if depth == 0 {
        return Err(SourceError::TooDeep);
    }
    let kind = node_kind(node);
    let named = node_is_named(node);
    let start_byte = node_start_byte(node);
    let end_byte = node_end_byte(node);
    let start_point = node_start_position(node);
    let end_point = node_end_position(node);
    let text = text_between(source, start_byte, end_byte)?;
    let nodes = node_children(node);
    let mut children: Vec<SyntaxNode> = Vec::new();
    let mut i: usize = 0;
    while i < nodes.len()
        invariant
            0 <= i <= nodes.len(),
            depth > 0,
            children.len() == i,
            trees_span_source(children@, source.spec_bytes()),
        decreases nodes.len() - i,
    {
        let child_field = node_field_name_for_child(node, i as u32);
        let child = syntax_node_from(&nodes[i], child_field, source, depth - 1)?;
        let ghost before = children@;
        children.push(child);
        assert(children@.drop_last() =~= before);
        i = i + 1;
    }
    Ok(
        SyntaxNode {
            kind,
            named,
            field,
            text,
            start_byte,
            end_byte,
            start_point,
            end_point,
            children,
        },
    )
}

/// Parses `code` with the grammar `language` and returns the concrete syntax
/// tree as plain values, each node with its text in `code`.
///
/// `Language` comes exactly when the parser refuses the grammar for its
/// version; otherwise the tree is read node by node, and `Range` or `Text`
/// come only for a node whose bytes are not a whole piece of `code`. Which
/// tree the grammar gives is tree-sitter's, and not stated.
pub fn parse_source(language: &Language, code: &str) -> (r: Result<SyntaxNode, SourceError>)
    ensures
        match r {
            Ok(n) => n.field is None && tree_spans_source(n, code.spec_bytes()),
            Err(SourceError::Language { version }) => !(MIN_LANGUAGE_VERSION <= version
                <= MAX_LANGUAGE_VERSION),
            Err(SourceError::Range { start, end }) => !(start <= end <= code.spec_bytes().len()),
            Err(SourceError::Text { start, end }) => {
                &&& start <= end <= code.spec_bytes().len()
                &&& !(is_char_boundary(code.spec_bytes(), start as int) && is_char_boundary(
                    code.spec_bytes(),
                    end as int,
                ))
            },
            Err(SourceError::TooDeep) => true,
        },
{
    let tree = match parse_text(language, code) {
        Ok((tree, _)) => tree,
        Err(version) => {
            return Err(SourceError::Language { version });
        },
    };
    let root = root_node(&tree);
    syntax_node_from(&root, None, code, usize::MAX)
}

} // verus!
