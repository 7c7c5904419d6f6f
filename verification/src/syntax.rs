//! Structural parse tree: plain nodes carrying the grammar rule name, the
//! byte span, the matched text and the children, plus the trusted bridge
//! to the outside parser that produces them.

use vstd::prelude::*;

verus! {

use crate::order::str_eq;

/// One node of the structural parse tree, as plain values.
#[derive(Debug)]
pub struct Node {
    pub kind_name: String,
    pub start: usize,
    pub end: usize,
    pub text: String,
    pub children: Vec<Node>,
}

/// Every span of the tree runs from start to end and stays within the
/// first `len` bytes of the document.
pub open spec fn node_within(n: Node, len: int) -> bool
    decreases n,
{
    &&& n.start <= n.end
    &&& n.end <= len
    &&& children_within(n.children@, 0, len)
}

/// Every node from position `i` on lies within the first `len` bytes.
pub open spec fn children_within(cs: Seq<Node>, i: int, len: int) -> bool
    decreases cs, (cs.len() - i),
{
    if i < 0 || i >= cs.len() {
        true
    } else {
        node_within(cs[i], len) && children_within(cs, i + 1, len)
    }
}

/// Each node of a bounded child list is itself bounded.
pub proof fn lemma_child_within(cs: Seq<Node>, i: int, len: int, j: int)
    requires
        0 <= i <= j < cs.len(),
        children_within(cs, i, len),
    ensures
        node_within(cs[j], len),
    decreases j - i,
{
    if j > i {
        lemma_child_within(cs, i + 1, len, j);
    }
}

/// The node kinds the indexer dispatches on; everything else is walked
/// transparently.
#[derive(Debug, Clone, Copy, PartialEq, Eq, Structural)]
pub enum NodeKind {
    ImportDecl,
    ImportSpecifier,
    ImportNamed,
    ImportWildcard,
    ImportItem,
    EntityDecl,
    ResourceDecl,
    FlowDecl,
    PatternDecl,
    RoleDecl,
    RelationDecl,
    InstanceDecl,
    InstanceReference,
    PolicyDecl,
    NameNode,
    Identifier,
    StringLiteral,
    MultilineString,
    NumberLiteral,
    Other,
}

/// The kind a grammar rule name denotes.
pub open spec fn spec_kind_of_name(s: Seq<char>) -> NodeKind {
    if s == "import_decl"@ {
        NodeKind::ImportDecl
    } else if s == "import_specifier"@ {
        NodeKind::ImportSpecifier
    } else if s == "import_named"@ {
        NodeKind::ImportNamed
    } else if s == "import_wildcard"@ {
        NodeKind::ImportWildcard
    } else if s == "import_item"@ {
        NodeKind::ImportItem
    } else if s == "entity_decl"@ {
        NodeKind::EntityDecl
    } else if s == "resource_decl"@ {
        NodeKind::ResourceDecl
    } else if s == "flow_decl"@ {
        NodeKind::FlowDecl
    } else if s == "pattern_decl"@ {
        NodeKind::PatternDecl
    } else if s == "role_decl"@ {
        NodeKind::RoleDecl
    } else if s == "relation_decl"@ {
        NodeKind::RelationDecl
    } else if s == "instance_decl"@ {
        NodeKind::InstanceDecl
    } else if s == "instance_reference"@ {
        NodeKind::InstanceReference
    } else if s == "policy_decl"@ {
        NodeKind::PolicyDecl
    } else if s == "name"@ {
        NodeKind::NameNode
    } else if s == "identifier"@ {
        NodeKind::Identifier
    } else if s == "string_literal"@ {
        NodeKind::StringLiteral
    } else if s == "multiline_string"@ {
        NodeKind::MultilineString
    } else if s == "number"@ {
        NodeKind::NumberLiteral
    } else {
        NodeKind::Other
    }
}

/// The kind of a node, from its rule name.
pub open spec fn spec_kind_of(n: Node) -> NodeKind {
    spec_kind_of_name(n.kind_name@)
}

/// Maps a grammar rule name to the kind the indexer dispatches on.
pub fn kind_of_name(s: &str) -> (r: NodeKind)
    ensures
        r == spec_kind_of_name(s@),
{
    if str_eq(s, "import_decl") {
        NodeKind::ImportDecl
    } else if str_eq(s, "import_specifier") {
        NodeKind::ImportSpecifier
    } else if str_eq(s, "import_named") {
        NodeKind::ImportNamed
    } else if str_eq(s, "import_wildcard") {
        NodeKind::ImportWildcard
    } else if str_eq(s, "import_item") {
        NodeKind::ImportItem
    } else if str_eq(s, "entity_decl") {
        NodeKind::EntityDecl
    } else if str_eq(s, "resource_decl") {
        NodeKind::ResourceDecl
    } else if str_eq(s, "flow_decl") {
        NodeKind::FlowDecl
    } else if str_eq(s, "pattern_decl") {
        NodeKind::PatternDecl
    } else if str_eq(s, "role_decl") {
        NodeKind::RoleDecl
    } else if str_eq(s, "relation_decl") {
        NodeKind::RelationDecl
    } else if str_eq(s, "instance_decl") {
        NodeKind::InstanceDecl
    } else if str_eq(s, "instance_reference") {
        NodeKind::InstanceReference
    } else if str_eq(s, "policy_decl") {
        NodeKind::PolicyDecl
    } else if str_eq(s, "name") {
        NodeKind::NameNode
    } else if str_eq(s, "identifier") {
        NodeKind::Identifier
    } else if str_eq(s, "string_literal") {
        NodeKind::StringLiteral
    } else if str_eq(s, "multiline_string") {
        NodeKind::MultilineString
    } else if str_eq(s, "number") {
        NodeKind::NumberLiteral
    } else {
        NodeKind::Other
    }
}

impl Node {
    /// The kind of this node.
    pub fn kind(&self) -> (r: NodeKind)
        ensures
            r == spec_kind_of(*self),
    {
        kind_of_name(self.kind_name.as_str())
    }

    /// This node's byte range.
    pub open spec fn spec_range(self) -> crate::symbols::ByteRange {
        crate::symbols::ByteRange { start: self.start, end: self.end }
    }
}

#[verifier::external_type_specification]
#[verifier::external_body]
pub struct ExRule(sea_core::parser::Rule);

#[verifier::external_type_specification]
#[verifier::external_body]
#[verifier::reject_recursive_types(R)]
pub struct ExPair<'i, R>(pest::iterators::Pair<'i, R>);

pub uninterp spec fn tree_of(s: Seq<char>) -> Option<Node>;

/// Relies on pest's `Pair` accessors: `as_rule` (with the rule's name as
/// its debug form), `as_span` (byte bounds of the match into the parsed
/// input, start at or before end), `as_str` (the matched slice) and
/// `into_inner` (the child pairs in order). Converts the outside tree to
/// plain nodes, one for one.
#[verifier::external_body]
fn node_from_pair(p: pest::iterators::Pair<'_, sea_core::parser::Rule>) -> Node {
    let span = p.as_span();
    let (start, end) = (span.start(), span.end());
    let kind_name = format!("{:?}", p.as_rule());
    let text = p.as_str().to_string();
    let mut children = Vec::new();
    for q in p.into_inner() {
        children.push(node_from_pair(q));
    }
    Node { kind_name, start, end, text, children }
}

/// Relies on sea_core's pest parser (`SeaParser::parse` on the `program`
/// rule): a deterministic PEG parse of the document, so the tree (read
/// off through `node_from_pair`) is a function of the characters alone
/// (named `tree_of`); nothing comes back for a malformed document. Every
/// span of the tree lies within the document's bytes.
#[verifier::external_body]
pub fn parse_node_tree(source: &str) -> (r: Option<Node>)
    ensures
        r == tree_of(source@),
        r matches Some(n) ==> node_within(n, vstd::utf8::encode_utf8(source@).len() as int),
{
    match <sea_core::parser::SeaParser as pest::Parser<sea_core::parser::Rule>>::parse(
        sea_core::parser::Rule::program,
        source,
    ) {
        Ok(mut pairs) => pairs.next().map(node_from_pair),
        Err(_) => None,
    }
}

pub uninterp spec fn unescaped_or_raw(s: Seq<char>) -> Seq<char>;

/// Relies on sea_core's `unescape_string`: resolves backslash escapes in
/// a quoted literal's body; the result depends on the characters alone,
/// and text without a backslash comes back unchanged. A body whose
/// escapes do not resolve is kept as it came.
#[verifier::external_body]
pub(crate) fn unescape_text(s: &str) -> (r: String)
    ensures
        r@ == unescaped_or_raw(s@),
        !s@.contains('\\') ==> r@ == s@,
{
    match sea_core::parser::unescape_string(s) {
        Ok(u) => u,
        Err(_) => s.to_string(),
    }
}

/// The recorded value of a quoted literal: the body between the quotes
/// with escapes resolved, or the raw text where the quotes are missing.
pub open spec fn spec_literal_value(raw: Seq<char>) -> Seq<char> {
    match crate::text::spec_unquote(raw) {
        Some(body) => unescaped_or_raw(body),
        None => raw,
    }
}

/// Extracts the value of a quoted string literal. A quoted body without
/// a backslash is recorded verbatim, so concrete names stay provable.
pub fn literal_value(raw: &str) -> (r: String)
    ensures
        r@ == spec_literal_value(raw@),
        match crate::text::spec_unquote(raw@) {
            Some(body) => !body.contains('\\') ==> r@ == body,
            None => r@ == raw@,
        },
{
    match crate::text::unquote(raw) {
        Some(body) => unescape_text(body.as_str()),
        None => String::from_str(raw),
    }
}

} // verus!
