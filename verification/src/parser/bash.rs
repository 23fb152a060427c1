//! tree-sitter-bash wrapper.
//!
//! Exposes a parser and a helper that walks the syntax tree to extract the
//! top-level "stanzas" (variable assignments, function definitions, and other
//! top-level statements). Stanzas are the unit of comparison for detecting
//! drift between the managed block and the rest of the file.
//!
//! tree-sitter computes the syntax tree; this module turns the tree's
//! top-level nodes, as plain values, into stanzas. Byte ranges are offsets
//! into the UTF-8 encoding of the source.
use std::ops::Range;
use tree_sitter::{Parser, Tree};
use vstd::prelude::*;
use vstd::string::StringExecFns;
use vstd::utf8::{decode_utf8, encode_utf8, is_char_boundary, valid_utf8};
use crate::text::str_eq;

verus! {

broadcast use vstd::utf8::group_utf8_lib;

/// Declares `tree_sitter::Tree` for use in signatures; its values are opaque here.
#[verifier::external_type_specification]
#[verifier::external_body]
pub struct ExTree(Tree);

/// The top-level nodes of the Bash syntax tree of `source`, in order, each
/// with the range of its child in the field `field`.
pub uninterp spec fn bash_top_level(source: Seq<char>, field: Seq<char>) -> Seq<NodeView>;

/// Calls `tree_sitter::Parser::new`, `Parser::set_language` with
/// `tree_sitter_bash::language()`, and `Parser::parse` on the bytes of
/// `source`. Trusted: a tree is always given, and its top-level nodes are
/// those of the Bash parse of `source` alone.
///
/// This rests on the sources of the crates linked here: `set_language` fails
/// only for a grammar version outside 13..=14, and tree-sitter-bash 0.21's
/// grammar is version 14; `parse` gives `None` only without a language or on
/// a timeout or cancellation, none of which is set here. Syntax errors are
/// recorded inside the tree, not reported as a failure.
///
/// Also trusted: the top-level nodes are well placed in the source (see
/// `well_placed`). The lexer (tree-sitter src/lexer.c, `ts_lexer__do_advance`
/// and `ts_lexer__get_lookahead`) moves over the input one decoded UTF-8
/// character at a time and stops at its end, so every node boundary is a
/// character boundary within the source; a node's children follow each other
/// without overlap, and a field child is one of the node's children.
#[verifier::external_body]
fn parse_bash(source: &str) -> (tree: Option<Tree>)
    ensures
        tree is Some,
        tree matches Some(t) ==> forall|field: Seq<char>|
            #[trigger] top_level_children(t, field) == bash_top_level(source@, field),
        tree matches Some(t) ==> forall|field: Seq<char>|
            well_placed(source@, #[trigger] top_level_children(t, field)),
{
    let mut parser = Parser::new();
    parser.set_language(&tree_sitter_bash::language()).ok()?;
    parser.parse(source, None)
}

/// Why Bash source could not be split into stanzas.
#[derive(Debug, Clone, Copy, PartialEq, Eq, Structural)]
pub enum BashError {
    /// tree-sitter gave no syntax tree.
    NoTree,
    /// tree-sitter gave a byte range that does not delimit characters of the source.
    RangeOutsideSource,
}

/// Parses Bash source into a tree-sitter syntax tree. A tree is always
/// given, also for source with syntax errors; its top-level nodes are those
/// of the Bash parse of `source`, so two calls on the same source agree.
pub fn parse(source: &str) -> (r: Result<Tree, BashError>)
    ensures
        r is Ok,
        r matches Ok(t) ==> forall|field: Seq<char>|
            #[trigger] top_level_children(t, field) == bash_top_level(source@, field),
        r matches Ok(t) ==> forall|field: Seq<char>|
            well_placed(source@, #[trigger] top_level_children(t, field)),
{
    match parse_bash(source) {
        Some(tree) => Ok(tree),
        None => Err(BashError::NoTree),
    }
}

/// A node of a syntax tree, as plain values: its kind, its byte range, and the
/// byte range of its child in a chosen field, if it has one.
pub struct SyntaxNode {
    pub kind: String,
    pub start: usize,
    pub end: usize,
    pub field: Option<(usize, usize)>,
}

pub struct NodeView {
    pub kind: Seq<char>,
    pub start: int,
    pub end: int,
    pub field: Option<(int, int)>,
}

impl View for SyntaxNode {
    type V = NodeView;

    open spec fn view(&self) -> NodeView {
        NodeView {
            kind: self.kind@,
            start: self.start as int,
            end: self.end as int,
            field: match self.field {
                Some((a, b)) => Some((a as int, b as int)),
                None => None,
            },
        }
    }
}

pub open spec fn nodes_view(nodes: Seq<SyntaxNode>) -> Seq<NodeView> {
    nodes.map_values(|n: SyntaxNode| n@)
}

/// The top-level nodes of a syntax tree, in order, each with the range of its
/// child in the field `field`.
pub uninterp spec fn top_level_children(tree: Tree, field: Seq<char>) -> Seq<NodeView>;

/// Calls `tree_sitter::Tree::root_node`, `Node::children`, `Node::kind`,
/// `Node::byte_range` and `Node::child_by_field_name` to hand out the
/// top-level nodes of `tree` as plain values. Trusted: the result is a
/// function of the tree and the field name; nothing more is stated.
#[verifier::external_body]
fn top_level_nodes(tree: &Tree, field: &str) -> (nodes: Vec<SyntaxNode>)
    ensures
        nodes_view(nodes@) == top_level_children(*tree, field@),
{
    let root = tree.root_node();
    let mut cursor = root.walk();
    let nodes = root.children(&mut cursor).map(|n| SyntaxNode {
        kind: n.kind().to_string(),
        start: n.start_byte(),
        end: n.end_byte(),
        field: n.child_by_field_name(field).map(|f| (f.start_byte(), f.end_byte())),
    });
    nodes.collect()
}

/// The kind of a top-level stanza.
#[derive(Debug, PartialEq, Eq)]
pub enum StanzaKind {
    Assignment { name: String },
    Function { name: String },
    Other,
}

pub enum KindView {
    Assignment(Seq<char>),
    Function(Seq<char>),
    Other,
}

impl View for StanzaKind {
    type V = KindView;

    open spec fn view(&self) -> KindView {
        match self {
            StanzaKind::Assignment { name } => KindView::Assignment(name@),
            StanzaKind::Function { name } => KindView::Function(name@),
            StanzaKind::Other => KindView::Other,
        }
    }
}

/// One top-level statement of a Bash source.
#[derive(Debug, PartialEq, Eq)]
pub struct Stanza {
    pub kind: StanzaKind,
    /// The source text of the statement.
    pub text: String,
    /// Where the statement lies in the UTF-8 bytes of the source.
    pub byte_range: Range<usize>,
}

pub struct StanzaView {
    pub kind: KindView,
    pub text: Seq<char>,
    pub start: int,
    pub end: int,
}

impl View for Stanza {
    type V = StanzaView;

    open spec fn view(&self) -> StanzaView {
        StanzaView {
            kind: self.kind@,
            text: self.text@,
            start: self.byte_range.start as int,
            end: self.byte_range.end as int,
        }
    }
}

pub open spec fn stanzas_view(v: Seq<Stanza>) -> Seq<StanzaView> {
    v.map_values(|s: Stanza| s@)
}

/// The byte range `a..b` delimits characters of `source`.
pub open spec fn range_ok(source: Seq<char>, a: int, b: int) -> bool {
    let bytes = encode_utf8(source);
    &&& 0 <= a <= b <= bytes.len()
    &&& is_char_boundary(bytes, a)
    &&& is_char_boundary(bytes, b)
}

/// The characters whose UTF-8 encoding is bytes `a..b` of `source`.
pub open spec fn text_of(source: Seq<char>, a: int, b: int) -> Seq<char> {
    decode_utf8(encode_utf8(source).subrange(a, b))
}

/// Nodes lie in the source in order: each one's byte range, and that of its
/// field child, delimits characters of the source; a field child lies inside
/// its node; a node ends before the next one starts.
pub open spec fn well_placed(source: Seq<char>, nodes: Seq<NodeView>) -> bool {
    &&& forall|i: int|
        0 <= i < nodes.len() ==> {
            let n = #[trigger] nodes[i];
            &&& range_ok(source, n.start, n.end)
            &&& n.field matches Some((a, b)) ==> range_ok(source, a, b) && n.start <= a && b
                <= n.end
        }
    &&& forall|i: int, j: int|
        0 <= i < j < nodes.len() ==> #[trigger] nodes[i].end <= #[trigger] nodes[j].start
}

/// The field whose child names an assignment or a function.
pub open spec fn name_field() -> Seq<char> {
    "name"@
}

/// The stanza kind of a node: an assignment or a function, named by the text
/// of its `name` child, or another statement. `None` when the name's range
/// does not delimit characters of the source.
pub open spec fn spec_kind(source: Seq<char>, n: NodeView) -> Option<KindView> {
    if n.kind == "variable_assignment"@ || n.kind == "function_definition"@ {
        match n.field {
            Some((a, b)) => if range_ok(source, a, b) {
                if n.kind == "variable_assignment"@ {
                    Some(KindView::Assignment(text_of(source, a, b)))
                } else {
                    Some(KindView::Function(text_of(source, a, b)))
                }
            } else {
                None
            },
            None => Some(KindView::Other),
        }
    } else {
        Some(KindView::Other)
    }
}

/// The stanza of a node: its kind, its text and its range.
pub open spec fn spec_stanza(source: Seq<char>, n: NodeView) -> Option<StanzaView> {
    if range_ok(source, n.start, n.end) && spec_kind(source, n) is Some {
        Some(
            StanzaView {
                kind: spec_kind(source, n)->Some_0,
                text: text_of(source, n.start, n.end),
                start: n.start,
                end: n.end,
            },
        )
    } else {
        None
    }
}

/// The stanzas of a list of top-level nodes, one per node, in order; `None`
/// when a node's range does not delimit characters of the source.
pub open spec fn spec_stanzas(source: Seq<char>, nodes: Seq<NodeView>) -> Option<Seq<StanzaView>> {
    if forall|i: int| 0 <= i < nodes.len() ==> spec_stanza(source, #[trigger] nodes[i]) is Some {
        Some(Seq::new(nodes.len(), |i: int| spec_stanza(source, nodes[i])->Some_0))
    } else {
        None
    }
}

/// A prefix of valid UTF-8 keeps the character boundaries that lie in it.
proof fn lemma_boundary_in_prefix(bytes: Seq<u8>, a: int, b: int)
    requires
        valid_utf8(bytes),
        0 <= a <= b <= bytes.len(),
        is_char_boundary(bytes, a),
        is_char_boundary(bytes, b),
    ensures
        valid_utf8(bytes.subrange(0, b)),
        is_char_boundary(bytes.subrange(0, b), a),
{
    let p = bytes.subrange(0, b);
    vstd::utf8::valid_utf8_split(bytes, b);
    if a < b {
        vstd::utf8::is_char_boundary_iff_not_is_continuation_byte(bytes, a);
        vstd::utf8::is_char_boundary_iff_not_is_continuation_byte(p, a);
    } else {
        vstd::utf8::is_char_boundary_start_end_of_seq(p);
    }
}

/// The text of bytes `a..b` of `source`, when they delimit characters.
fn slice_bytes(source: &str, a: usize, b: usize) -> (r: Option<String>)
    ensures
        r is Some <==> range_ok(source@, a as int, b as int),
        r matches Some(s) ==> s@ == text_of(source@, a as int, b as int),
{
    let ghost bytes = encode_utf8(source@);
    proof {
        vstd::utf8::encode_utf8_valid_utf8(source@);
    }
    let a_ok = source.is_char_boundary(a);
    let b_ok = source.is_char_boundary(b);
    assert(a_ok == is_char_boundary(bytes, a as int));
    assert(b_ok == is_char_boundary(bytes, b as int));
    if a <= b && a_ok && b_ok {
        proof {
            lemma_boundary_in_prefix(bytes, a as int, b as int);
        }
        let (head, _) = source.split_at(b);
        let (_, piece) = head.split_at(a);
        proof {
            assert(bytes.subrange(0, b as int).subrange(a as int, b as int) =~= bytes.subrange(
                a as int,
                b as int,
            ));
            vstd::utf8::encode_utf8_decode_utf8(piece@);
        }
        Some(String::from_str(piece))
    } else {
        None
    }
}

/// Classifies a top-level node.
fn classify(node: &SyntaxNode, source: &str) -> (r: Option<StanzaKind>)
    ensures
        match r {
            Some(k) => spec_kind(source@, node@) == Some(k@),
            None => spec_kind(source@, node@) is None,
        },
{
    let assignment = str_eq(node.kind.as_str(), "variable_assignment");
    let function = str_eq(node.kind.as_str(), "function_definition");
    if !assignment && !function {
        return Some(StanzaKind::Other);
    }
    match node.field {
        None => Some(StanzaKind::Other),
        Some((a, b)) => match slice_bytes(source, a, b) {
            None => None,
            Some(name) => if assignment {
                Some(StanzaKind::Assignment { name })
            } else {
                Some(StanzaKind::Function { name })
            },
        },
    }
}

/// Turns top-level syntax nodes of `source` into stanzas, one per node, in
/// order: its kind, its text and its byte range.
pub fn stanzas_from_nodes(source: &str, nodes: &Vec<SyntaxNode>) -> (r: Result<Vec<Stanza>, BashError>)
    ensures
        match r {
            Ok(v) => spec_stanzas(source@, nodes_view(nodes@)) == Some(stanzas_view(v@)),
            Err(e) => e == BashError::RangeOutsideSource && spec_stanzas(
                source@,
                nodes_view(nodes@),
            ) is None,
        },
{
    let ghost nv = nodes_view(nodes@);
    let mut out: Vec<Stanza> = Vec::new();
    let mut i: usize = 0;
    while i < nodes.len()
        invariant
            i <= nodes@.len(),
            nv == nodes_view(nodes@),
            out@.len() == i,
            forall|j: int|
                0 <= j < i ==> spec_stanza(source@, #[trigger] nv[j]) == Some(out@[j]@),
        decreases nodes@.len() - i,
    {
        let node = &nodes[i];
        let kind = match classify(node, source) {
            Some(k) => k,
            None => {
                assert(spec_stanza(source@, nv[i as int]) is None);
                return Err(BashError::RangeOutsideSource);
            },
        };
        let text = match slice_bytes(source, node.start, node.end) {
            Some(t) => t,
            None => {
                assert(spec_stanza(source@, nv[i as int]) is None);
                return Err(BashError::RangeOutsideSource);
            },
        };
        let stanza = Stanza { kind, text, byte_range: node.start..node.end };
        out.push(stanza);
        i += 1;
    }
    assert(stanzas_view(out@) =~= Seq::new(nv.len(), |i: int| spec_stanza(source@, nv[i])->Some_0));
    Ok(out)
}

/// Walks the top-level statements of Bash `source` and classifies each:
/// the stanzas of the top-level nodes of the Bash parse of `source`, as
/// `stanzas_from_nodes` gives them. It always succeeds, and the stanzas come
/// in source order without overlapping.
pub fn top_level_stanzas(source: &str) -> (r: Result<Vec<Stanza>, BashError>)
    ensures
        r is Ok,
        r matches Ok(v) ==> spec_stanzas(source@, bash_top_level(source@, name_field())) == Some(
            stanzas_view(v@),
        ),
        r matches Ok(v) ==> forall|i: int, j: int|
            0 <= i < j < v@.len() ==> #[trigger] v@[i].byte_range.end
                <= #[trigger] v@[j].byte_range.start,
{
    let tree = match parse(source) {
        Ok(t) => t,
        Err(e) => return Err(e),
    };
    let nodes = top_level_nodes(&tree, "name");
    let r = stanzas_from_nodes(source, &nodes);
    let ghost nv = nodes_view(nodes@);
    assert(nv == top_level_children(tree, name_field()));
    assert(well_placed(source@, nv));
    assert forall|i: int| 0 <= i < nv.len() implies spec_stanza(source@, #[trigger] nv[i]) is Some by {
        let n = nv[i];
        assert(range_ok(source@, n.start, n.end));
    }
    let ghost all = Seq::new(nv.len(), |k: int| spec_stanza(source@, nv[k])->Some_0);
    assert(spec_stanzas(source@, nv) == Some(all));
    if let Ok(v) = &r {
        assert(stanzas_view(v@) == all);
        assert forall|i: int, j: int|
            0 <= i < j < v@.len() implies #[trigger] v@[i].byte_range.end
                <= #[trigger] v@[j].byte_range.start by {
            assert(stanzas_view(v@)[i] == spec_stanza(source@, nv[i])->Some_0);
            assert(stanzas_view(v@)[j] == spec_stanza(source@, nv[j])->Some_0);
            assert(nv[i].end <= nv[j].start);
        }
    }
    r
}

/// The bytes `a..b` of valid UTF-8 text at character boundaries are valid
/// UTF-8, and re-encoding their characters gives them back.
proof fn lemma_text_of_bytes(source: Seq<char>, a: int, b: int)
    requires
        range_ok(source, a, b),
    ensures
        encode_utf8(text_of(source, a, b)) == encode_utf8(source).subrange(a, b),
{
    let bytes = encode_utf8(source);
    vstd::utf8::encode_utf8_valid_utf8(source);
    lemma_boundary_in_prefix(bytes, a, b);
    let head = bytes.subrange(0, b);
    vstd::utf8::valid_utf8_split(head, a);
    assert(head.subrange(a, head.len() as int) =~= bytes.subrange(a, b));
    vstd::utf8::decode_utf8_encode_utf8(bytes.subrange(a, b));
}

/// Law: how top-level nodes become stanzas. Stanza `i` stands for node `i`:
/// its text is exactly the source bytes of the node's range, and its kind is
///   - an assignment named by exactly the source bytes of the `name` child,
///     for every `variable_assignment` that has one, whatever the name;
///   - a function named likewise, for every `function_definition` that has one;
///   - another statement for every other node.
pub proof fn law_stanza_kinds(source: Seq<char>, nodes: Seq<NodeView>)
    requires
        spec_stanzas(source, nodes) is Some,
    ensures
        ({
            let v = spec_stanzas(source, nodes)->Some_0;
            &&& v.len() == nodes.len()
            &&& forall|i: int|
                0 <= i < nodes.len() ==> {
                    let n = #[trigger] nodes[i];
                    let st = v[i];
                    &&& st.start == n.start && st.end == n.end
                    &&& encode_utf8(st.text) == encode_utf8(source).subrange(n.start, n.end)
                    &&& (n.kind == "variable_assignment"@ && n.field is Some) ==> (st.kind matches KindView::Assignment(name) && encode_utf8(name) == encode_utf8(source).subrange(
                        n.field->Some_0.0,
                        n.field->Some_0.1,
                    ))
                    &&& (n.kind == "function_definition"@ && n.field is Some) ==> (st.kind matches KindView::Function(name) && encode_utf8(name) == encode_utf8(source).subrange(
                        n.field->Some_0.0,
                        n.field->Some_0.1,
                    ))
                    &&& (n.field is None || (n.kind != "variable_assignment"@ && n.kind
                        != "function_definition"@)) ==> st.kind == KindView::Other
                }
        }),
{
    reveal_strlit("variable_assignment");
    reveal_strlit("function_definition");
    assert("variable_assignment"@[0] != "function_definition"@[0]);
    let v = spec_stanzas(source, nodes)->Some_0;
    assert forall|i: int| 0 <= i < nodes.len() implies {
        let n = #[trigger] nodes[i];
        let st = v[i];
        &&& st.start == n.start && st.end == n.end
        &&& encode_utf8(st.text) == encode_utf8(source).subrange(n.start, n.end)
        &&& (n.kind == "variable_assignment"@ && n.field is Some) ==> (st.kind matches KindView::Assignment(name) && encode_utf8(name) == encode_utf8(source).subrange(
            n.field->Some_0.0,
            n.field->Some_0.1,
        ))
        &&& (n.kind == "function_definition"@ && n.field is Some) ==> (st.kind matches KindView::Function(name) && encode_utf8(name) == encode_utf8(source).subrange(
            n.field->Some_0.0,
            n.field->Some_0.1,
        ))
        &&& (n.field is None || (n.kind != "variable_assignment"@ && n.kind
            != "function_definition"@)) ==> st.kind == KindView::Other
    } by {
        let n = nodes[i];
        assert(spec_stanza(source, n) is Some);
        lemma_text_of_bytes(source, n.start, n.end);
        if let Some((a, b)) = n.field {
            if n.kind == "variable_assignment"@ || n.kind == "function_definition"@ {
                lemma_text_of_bytes(source, a, b);
            }
        }
    }
}

} // verus!
