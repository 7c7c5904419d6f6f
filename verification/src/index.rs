//! Semantic index of one document snapshot: every occurrence of a named
//! thing, the import-prefix set and the flow declarations, with the
//! derived definition and reference lookups.

use vstd::prelude::*;

verus! {

use crate::order::str_eq;
use crate::syntax::Node;
use crate::syntax::NodeKind;
use crate::syntax::spec_kind_of;
use crate::syntax::spec_literal_value;
use crate::symbols::ByteRange;
use crate::symbols::FlowDecl;
use crate::symbols::FlowView;
use crate::symbols::OccView;
use crate::symbols::Occurrence;
use crate::symbols::SymbolKind;
use crate::text::spec_strip_sigils;
use crate::text::strip_sigils;
use vstd::string::StringExecFns;

/// The per-document structural index. Rebuilt wholesale on every change,
/// never mutated incrementally.
#[derive(Debug, Clone, Default)]
pub struct SemanticIndex {
    pub occurrences: Vec<Occurrence>,
    pub import_prefixes: Vec<String>,
    pub flows: Vec<FlowDecl>,
}

impl vstd::prelude::DeepView for Occurrence {
    type V = OccView;

    open spec fn deep_view(&self) -> OccView {
        self@
    }
}

impl vstd::prelude::DeepView for FlowDecl {
    type V = FlowView;

    open spec fn deep_view(&self) -> FlowView {
        self@
    }
}

/// A span length that never underflows: zero for a backwards range.
pub open spec fn spec_span_len(r: ByteRange) -> int {
    if r.end >= r.start {
        r.end - r.start
    } else {
        0
    }
}

/// The most specific occurrence at an offset, scanning from position `i`:
/// among occurrences whose range contains the offset, the one with the
/// smallest span; the earliest wins a tie.
pub open spec fn spec_symbol_at_from(occs: Seq<OccView>, offset: int, i: int) -> Option<OccView>
    decreases occs.len() - i,
{
    if i < 0 || i >= occs.len() {
        None
    } else {
        let rest = spec_symbol_at_from(occs, offset, i + 1);
        let cur = occs[i];
        if !(cur.range.start <= offset < cur.range.end) {
            rest
        } else {
            match rest {
                None => Some(cur),
                Some(best) => if spec_span_len(cur.range) <= spec_span_len(best.range) {
                    Some(cur)
                } else {
                    Some(best)
                },
            }
        }
    }
}

/// The recorded definition range for a kind and name: the last matching
/// definition occurrence among the first `i`.
pub open spec fn spec_last_def(occs: Seq<OccView>, kind: SymbolKind, name: Seq<char>, i: int) -> Option<
    ByteRange,
>
    decreases i,
{
    if i <= 0 || i > occs.len() {
        None
    } else {
        let o = occs[i - 1];
        if o.is_definition && o.kind == kind && o.name == name {
            Some(o.range)
        } else {
            spec_last_def(occs, kind, name, i - 1)
        }
    }
}

/// The definition lookup, with the instance-sigil fallback: a failed
/// lookup for an Instance is retried with the leading `@` stripped.
pub open spec fn spec_definition_range(
    occs: Seq<OccView>,
    kind: SymbolKind,
    name: Seq<char>,
) -> Option<ByteRange> {
    match spec_last_def(occs, kind, name, occs.len() as int) {
        Some(r) => Some(r),
        None => if kind == SymbolKind::Instance {
            spec_last_def(occs, kind, spec_strip_sigils(name), occs.len() as int)
        } else {
            None
        },
    }
}

/// All reference ranges for a kind and name, in recording order, from
/// position `i` on.
pub open spec fn spec_refs_from(
    occs: Seq<OccView>,
    kind: SymbolKind,
    name: Seq<char>,
    i: int,
) -> Seq<ByteRange>
    decreases occs.len() - i,
{
    if i < 0 || i >= occs.len() {
        Seq::empty()
    } else {
        let o = occs[i];
        let rest = spec_refs_from(occs, kind, name, i + 1);
        if !o.is_definition && o.kind == kind && o.name == name {
            seq![o.range] + rest
        } else {
            rest
        }
    }
}

/// The first flow declaration with exactly the given range, from `i` on.
pub open spec fn spec_flow_at_from(flows: Seq<FlowView>, range: ByteRange, i: int) -> Option<
    FlowView,
>
    decreases flows.len() - i,
{
    if i < 0 || i >= flows.len() {
        None
    } else if flows[i].range == range {
        Some(flows[i])
    } else {
        spec_flow_at_from(flows, range, i + 1)
    }
}

impl SemanticIndex {
    /// An index with nothing in it, as a malformed document yields.
    pub fn empty() -> (r: SemanticIndex)
        ensures
            r.occurrences@.len() == 0,
            r.import_prefixes@.len() == 0,
            r.flows@.len() == 0,
    {
        SemanticIndex { occurrences: Vec::new(), import_prefixes: Vec::new(), flows: Vec::new() }
    }

    /// Records one occurrence; a definition also becomes the recorded
    /// definition of its (kind, name), a reference joins its list.
    pub fn record(&mut self, kind: SymbolKind, name: String, range: ByteRange, is_definition: bool)
        ensures
            final(self).occurrences.deep_view() == old(self).occurrences.deep_view().push(
                OccView { kind, name: name@, range, is_definition },
            ),
            final(self).import_prefixes == old(self).import_prefixes,
            final(self).flows == old(self).flows,
    {
        let ghost pre = self.occurrences.deep_view();
        self.occurrences.push(Occurrence { kind, name, range, is_definition });
        proof {
            assert(self.occurrences.deep_view() =~= pre.push(
                self.occurrences@.last().deep_view(),
            ));
        }
    }

    fn symbol_at_from(&self, offset: usize, i: usize) -> (r: Option<Occurrence>)
        requires
            i <= self.occurrences@.len(),
        ensures
            match r {
                Some(o) => spec_symbol_at_from(self.occurrences.deep_view(), offset as int, i as int)
                    == Some(o@),
                None => spec_symbol_at_from(self.occurrences.deep_view(), offset as int, i as int)
                    is None,
            },
        decreases self.occurrences@.len() - i,
    {
        if i >= self.occurrences.len() {
            return None;
        }
        let rest = self.symbol_at_from(offset, i + 1);
        let cur = &self.occurrences[i];
        proof {
            assert(self.occurrences.deep_view()[i as int] == self.occurrences@[i as int]@);
        }
        if !cur.range.contains(offset) {
            return rest;
        }
        match rest {
            None => Some(cur.clone()),
            Some(best) => {
                let cur_span = if cur.range.end >= cur.range.start {
                    cur.range.end - cur.range.start
                } else {
                    0
                };
                let best_span = if best.range.end >= best.range.start {
                    best.range.end - best.range.start
                } else {
                    0
                };
                if cur_span <= best_span {
                    Some(cur.clone())
                } else {
                    Some(best)
                }
            },
        }
    }

    /// Selects, among all occurrences whose range contains the offset,
    /// the one with the smallest span; the earliest recorded wins a tie.
    pub fn symbol_at_offset(&self, offset: usize) -> (r: Option<Occurrence>)
        ensures
            match r {
                Some(o) => spec_symbol_at_from(self.occurrences.deep_view(), offset as int, 0)
                    == Some(o@),
                None => spec_symbol_at_from(self.occurrences.deep_view(), offset as int, 0) is None,
            },
    {
        self.symbol_at_from(offset, 0)
    }

    fn last_def_upto(&self, kind: SymbolKind, name: &str, i: usize) -> (r: Option<ByteRange>)
        requires
            i <= self.occurrences@.len(),
        ensures
            r == spec_last_def(self.occurrences.deep_view(), kind, name@, i as int),
        decreases i,
    {
        if i == 0 {
            return None;
        }
        let o = &self.occurrences[i - 1];
        proof {
            assert(self.occurrences.deep_view()[i - 1] == self.occurrences@[i - 1]@);
        }
        if o.is_definition && o.kind == kind && str_eq(o.name.as_str(), name) {
            Some(o.range)
        } else {
            self.last_def_upto(kind, name, i - 1)
        }
    }

    /// The definition range recorded for (kind, name); for the Instance
    /// kind a failed lookup is retried with the leading `@` stripped.
    pub fn definition_range(&self, kind: SymbolKind, name: &str) -> (r: Option<ByteRange>)
        ensures
            r == spec_definition_range(self.occurrences.deep_view(), kind, name@),
    {
        let direct = self.last_def_upto(kind, name, self.occurrences.len());
        match direct {
            Some(r) => Some(r),
            None => {
                if kind == SymbolKind::Instance {
                    let stripped = strip_sigils(name);
                    self.last_def_upto(kind, stripped.as_str(), self.occurrences.len())
                } else {
                    None
                }
            },
        }
    }

    fn refs_from(&self, kind: SymbolKind, name: &str, i: usize) -> (r: Vec<ByteRange>)
        requires
            i <= self.occurrences@.len(),
        ensures
            r@ == spec_refs_from(self.occurrences.deep_view(), kind, name@, i as int),
        decreases self.occurrences@.len() - i,
    {
        if i >= self.occurrences.len() {
            return Vec::new();
        }
        let o = &self.occurrences[i];
        proof {
            assert(self.occurrences.deep_view()[i as int] == self.occurrences@[i as int]@);
        }
        let rest = self.refs_from(kind, name, i + 1);
        if !o.is_definition && o.kind == kind && str_eq(o.name.as_str(), name) {
            let mut out: Vec<ByteRange> = Vec::new();
            out.push(o.range);
            let mut j: usize = 0;
            while j < rest.len()
                invariant
                    j <= rest@.len(),
                    out@ == seq![self.occurrences.deep_view()[i as int].range] + rest@.take(
                        j as int,
                    ),
                decreases rest@.len() - j,
            {
                out.push(rest[j]);
                proof {
                    assert(rest@.take(j + 1) =~= rest@.take(j as int).push(rest@[j as int]));
                }
                j += 1;
            }
            proof {
                assert(rest@.take(rest@.len() as int) =~= rest@);
            }
            out
        } else {
            rest
        }
    }

    /// Every reference range recorded for (kind, name), in order.
    pub fn reference_ranges(&self, kind: SymbolKind, name: &str) -> (r: Vec<ByteRange>)
        ensures
            r@ == spec_refs_from(self.occurrences.deep_view(), kind, name@, 0),
    {
        self.refs_from(kind, name, 0)
    }

    fn flow_at_from(&self, range: ByteRange, i: usize) -> (r: Option<FlowDecl>)
        requires
            i <= self.flows@.len(),
        ensures
            match r {
                Some(f) => spec_flow_at_from(self.flows.deep_view(), range, i as int) == Some(f@),
                None => spec_flow_at_from(self.flows.deep_view(), range, i as int) is None,
            },
        decreases self.flows@.len() - i,
    {
        if i >= self.flows.len() {
            return None;
        }
        proof {
            assert(self.flows.deep_view()[i as int] == self.flows@[i as int]@);
        }
        let f = &self.flows[i];
        if f.range == range {
            Some(f.clone())
        } else {
            self.flow_at_from(range, i + 1)
        }
    }

    /// The flow declaration whose statement spans exactly this range.
    pub fn flow_decl_for_range(&self, range: ByteRange) -> (r: Option<FlowDecl>)
        ensures
            match r {
                Some(f) => spec_flow_at_from(self.flows.deep_view(), range, 0) == Some(f@),
                None => spec_flow_at_from(self.flows.deep_view(), range, 0) is None,
            },
    {
        self.flow_at_from(range, 0)
    }
}


/// What one subtree contributes to the index.
pub struct WalkView {
    pub occs: Seq<OccView>,
    pub prefixes: Seq<Seq<char>>,
    pub flows: Seq<FlowView>,
}

pub open spec fn wv_empty() -> WalkView {
    WalkView { occs: Seq::empty(), prefixes: Seq::empty(), flows: Seq::empty() }
}

pub open spec fn wv_add(a: WalkView, b: WalkView) -> WalkView {
    WalkView { occs: a.occs + b.occs, prefixes: a.prefixes + b.prefixes, flows: a.flows + b.flows }
}

pub open spec fn wv_occs(occs: Seq<OccView>) -> WalkView {
    WalkView { occs, prefixes: Seq::empty(), flows: Seq::empty() }
}

/// The `which`-th child (zero-based) of the given kind, from `i` on.
pub open spec fn kth_of_kind(cs: Seq<Node>, k: NodeKind, which: int, i: int) -> Option<Node>
    decreases cs.len() - i,
{
    if i < 0 || i >= cs.len() {
        None
    } else if spec_kind_of(cs[i]) == k {
        if which <= 0 {
            Some(cs[i])
        } else {
            kth_of_kind(cs, k, which - 1, i + 1)
        }
    } else {
        kth_of_kind(cs, k, which, i + 1)
    }
}

/// The first child holding a quoted or triple-quoted literal, from `i` on.
pub open spec fn first_name_lit(cs: Seq<Node>, i: int) -> Option<Node>
    decreases cs.len() - i,
{
    if i < 0 || i >= cs.len() {
        None
    } else if spec_kind_of(cs[i]) == NodeKind::StringLiteral || spec_kind_of(cs[i])
        == NodeKind::MultilineString {
        Some(cs[i])
    } else {
        first_name_lit(cs, i + 1)
    }
}

/// The occurrence a quoted literal child yields.
pub open spec fn occ_of_string_lit(lit: Node, k: SymbolKind, is_definition: bool) -> OccView {
    OccView {
        kind: k,
        name: spec_literal_value(lit.text@),
        range: lit.spec_range(),
        is_definition,
    }
}

/// The definition occurrence a declaration's name child yields: quoted
/// literals have quotes stripped and escapes resolved, triple-quoted
/// literals have their delimiters stripped.
pub open spec fn name_occs(n: Node, k: SymbolKind) -> Seq<OccView> {
    match kth_of_kind(n.children@, NodeKind::NameNode, 0, 0) {
        None => Seq::empty(),
        Some(nm) => match first_name_lit(nm.children@, 0) {
            None => Seq::empty(),
            Some(lit) => if spec_kind_of(lit) == NodeKind::StringLiteral {
                seq![occ_of_string_lit(lit, k, true)]
            } else {
                seq![
                    OccView {
                        kind: k,
                        name: crate::text::spec_strip_triple(lit.text@),
                        range: lit.spec_range(),
                        is_definition: true,
                    },
                ]
            },
        },
    }
}

/// The reference occurrence of the `which`-th quoted literal child.
pub open spec fn lit_ref_occs(cs: Seq<Node>, which: int, k: SymbolKind) -> Seq<OccView> {
    match kth_of_kind(cs, NodeKind::StringLiteral, which, 0) {
        None => Seq::empty(),
        Some(lit) => seq![occ_of_string_lit(lit, k, false)],
    }
}

/// The fallback operand text of a flow whose literal is missing or
/// unquoted.
pub open spec fn unknown_text() -> Seq<char> {
    seq!['<', 'u', 'n', 'k', 'n', 'o', 'w', 'n', '>']
}

/// The denormalized text of the `which`-th string-literal operand.
pub open spec fn flow_operand(cs: Seq<Node>, which: int) -> Seq<char> {
    match kth_of_kind(cs, NodeKind::StringLiteral, which, 0) {
        None => unknown_text(),
        Some(lit) => match crate::text::spec_unquote(lit.text@) {
            Some(body) => crate::syntax::unescaped_or_raw(body),
            None => unknown_text(),
        },
    }
}

/// The synthesized name of an unnamed flow statement, from its byte range.
pub open spec fn spec_flow_name(start: int, end: int) -> Seq<char> {
    seq!['f', 'l', 'o', 'w', '@'] + crate::text::spec_u64_dec(start) + seq!['.', '.']
        + crate::text::spec_u64_dec(end)
}

/// The flow record a flow declaration yields.
pub open spec fn flow_view_of(n: Node) -> FlowView {
    FlowView {
        range: n.spec_range(),
        resource: flow_operand(n.children@, 0),
        from_entity: flow_operand(n.children@, 1),
        to_entity: flow_operand(n.children@, 2),
        quantity: match kth_of_kind(n.children@, NodeKind::NumberLiteral, 0, 0) {
            None => None,
            Some(q) => Some(q.text@),
        },
    }
}

/// The occurrences an instance declaration yields: a definition for the
/// instance identifier and a reference for its entity-type literal.
pub open spec fn instance_occs(cs: Seq<Node>) -> Seq<OccView> {
    (match kth_of_kind(cs, NodeKind::Identifier, 0, 0) {
        None => Seq::empty(),
        Some(id) => seq![
            OccView {
                kind: SymbolKind::Instance,
                name: id.text@,
                range: id.spec_range(),
                is_definition: true,
            },
        ],
    }) + (match kth_of_kind(cs, NodeKind::StringLiteral, 0, 0) {
        None => Seq::empty(),
        Some(lit) => seq![occ_of_string_lit(lit, SymbolKind::Entity, false)],
    })
}

/// The prefix one import item yields: its alias when present, else its
/// base name.
pub open spec fn item_prefix(item: Node) -> Seq<Seq<char>> {
    match kth_of_kind(item.children@, NodeKind::Identifier, 1, 0) {
        Some(alias) => seq![alias.text@],
        None => match kth_of_kind(item.children@, NodeKind::Identifier, 0, 0) {
            Some(nm) => seq![nm.text@],
            None => Seq::empty(),
        },
    }
}

/// The prefixes of every import item among the children, from `i` on.
pub open spec fn items_prefixes(cs: Seq<Node>, i: int) -> Seq<Seq<char>>
    decreases cs.len() - i,
{
    if i < 0 || i >= cs.len() {
        Seq::empty()
    } else if spec_kind_of(cs[i]) == NodeKind::ImportItem {
        item_prefix(cs[i]) + items_prefixes(cs, i + 1)
    } else {
        items_prefixes(cs, i + 1)
    }
}

/// The prefix a wildcard import yields: its alias identifier.
pub open spec fn wildcard_prefix(n: Node) -> Seq<Seq<char>> {
    match kth_of_kind(n.children@, NodeKind::Identifier, 0, 0) {
        Some(id) => seq![id.text@],
        None => Seq::empty(),
    }
}

/// The prefixes of the named or wildcard imports among the children.
pub open spec fn specifier_prefixes(cs: Seq<Node>, i: int) -> Seq<Seq<char>>
    decreases cs.len() - i,
{
    if i < 0 || i >= cs.len() {
        Seq::empty()
    } else if spec_kind_of(cs[i]) == NodeKind::ImportNamed {
        items_prefixes(cs[i].children@, 0) + specifier_prefixes(cs, i + 1)
    } else if spec_kind_of(cs[i]) == NodeKind::ImportWildcard {
        wildcard_prefix(cs[i]) + specifier_prefixes(cs, i + 1)
    } else {
        specifier_prefixes(cs, i + 1)
    }
}

/// The prefixes an import declaration's children yield, from `i` on.
pub open spec fn import_prefixes_of(cs: Seq<Node>, i: int) -> Seq<Seq<char>>
    decreases cs.len() - i,
{
    if i < 0 || i >= cs.len() {
        Seq::empty()
    } else if spec_kind_of(cs[i]) == NodeKind::ImportNamed {
        items_prefixes(cs[i].children@, 0) + import_prefixes_of(cs, i + 1)
    } else if spec_kind_of(cs[i]) == NodeKind::ImportWildcard {
        wildcard_prefix(cs[i]) + import_prefixes_of(cs, i + 1)
    } else if spec_kind_of(cs[i]) == NodeKind::ImportSpecifier {
        specifier_prefixes(cs[i].children@, 0) + import_prefixes_of(cs, i + 1)
    } else {
        import_prefixes_of(cs, i + 1)
    }
}

/// What the single-pass walk of one node contributes to the index.
pub open spec fn walk_of(n: Node) -> WalkView
    decreases n,
{
    let cs = n.children@;
    match spec_kind_of(n) {
        NodeKind::ImportDecl => WalkView {
            occs: Seq::empty(),
            prefixes: import_prefixes_of(cs, 0),
            flows: Seq::empty(),
        },
        NodeKind::EntityDecl => wv_occs(name_occs(n, SymbolKind::Entity)),
        NodeKind::ResourceDecl => wv_occs(name_occs(n, SymbolKind::Resource)),
        NodeKind::PatternDecl => wv_occs(name_occs(n, SymbolKind::Pattern)),
        NodeKind::RoleDecl => wv_occs(name_occs(n, SymbolKind::Role)),
        NodeKind::RelationDecl => wv_occs(
            name_occs(n, SymbolKind::Relation) + lit_ref_occs(cs, 0, SymbolKind::Role)
                + lit_ref_occs(cs, 2, SymbolKind::Role) + lit_ref_occs(cs, 3, SymbolKind::Resource),
        ),
        NodeKind::FlowDecl => WalkView {
            occs: lit_ref_occs(cs, 0, SymbolKind::Resource) + lit_ref_occs(cs, 1, SymbolKind::Entity)
                + lit_ref_occs(cs, 2, SymbolKind::Entity) + seq![
                OccView {
                    kind: SymbolKind::Flow,
                    name: spec_flow_name(n.start as int, n.end as int),
                    range: n.spec_range(),
                    is_definition: true,
                },
            ],
            prefixes: Seq::empty(),
            flows: seq![flow_view_of(n)],
        },
        NodeKind::InstanceDecl => wv_occs(instance_occs(cs)),
        NodeKind::InstanceReference => wv_occs(
            seq![
                OccView {
                    kind: SymbolKind::Instance,
                    name: spec_strip_sigils(n.text@),
                    range: n.spec_range(),
                    is_definition: false,
                },
            ],
        ),
        NodeKind::PolicyDecl => walk_policy(cs, 0, false),
        _ => walk_seq(cs, 0),
    }
}

/// The contributions of the children from `i` on, walked transparently.
pub open spec fn walk_seq(cs: Seq<Node>, i: int) -> WalkView
    decreases cs, cs.len() - i,
{
    if i < 0 || i >= cs.len() {
        wv_empty()
    } else {
        wv_add(walk_of(cs[i]), walk_seq(cs, i + 1))
    }
}

/// The policy walk: the first bare identifier becomes the policy's
/// definition occurrence; every other child is walked in full.
pub open spec fn walk_policy(cs: Seq<Node>, i: int, found: bool) -> WalkView
    decreases cs, (cs.len() - i),
{
    if i < 0 || i >= cs.len() {
        wv_empty()
    } else if !found && spec_kind_of(cs[i]) == NodeKind::Identifier {
        wv_add(
            wv_occs(
                seq![
                    OccView {
                        kind: SymbolKind::Policy,
                        name: cs[i].text@,
                        range: cs[i].spec_range(),
                        is_definition: true,
                    },
                ],
            ),
            walk_policy(cs, i + 1, true),
        )
    } else {
        wv_add(walk_of(cs[i]), walk_policy(cs, i + 1, found))
    }
}

/// `post` extends `pre` by exactly the contribution `w`.
pub open spec fn adds(pre: SemanticIndex, post: SemanticIndex, w: WalkView) -> bool {
    &&& post.occurrences.deep_view() == pre.occurrences.deep_view() + w.occs
    &&& post.import_prefixes.deep_view() == pre.import_prefixes.deep_view() + w.prefixes
    &&& post.flows.deep_view() == pre.flows.deep_view() + w.flows
}

/// Finds the `which`-th child of a kind, from position `i` on.
fn find_kth_of_kind(cs: &Vec<Node>, k: NodeKind, which: usize, i: usize) -> (r: Option<usize>)
    requires
        i <= cs@.len(),
    ensures
        match r {
            Some(j) => i <= j < cs@.len() && kth_of_kind(cs@, k, which as int, i as int) == Some(
                cs@[j as int],
            ),
            None => kth_of_kind(cs@, k, which as int, i as int) is None,
        },
    decreases cs@.len() - i,
{
    if i >= cs.len() {
        return None;
    }
    if cs[i].kind() == k {
        if which == 0 {
            Some(i)
        } else {
            find_kth_of_kind(cs, k, which - 1, i + 1)
        }
    } else {
        find_kth_of_kind(cs, k, which, i + 1)
    }
}

/// Finds the first quoted or triple-quoted literal child, from `i` on.
fn find_first_name_lit(cs: &Vec<Node>, i: usize) -> (r: Option<usize>)
    requires
        i <= cs@.len(),
    ensures
        match r {
            Some(j) => i <= j < cs@.len() && first_name_lit(cs@, i as int) == Some(cs@[j as int]),
            None => first_name_lit(cs@, i as int) is None,
        },
    decreases cs@.len() - i,
{
    if i >= cs.len() {
        return None;
    }
    let k = cs[i].kind();
    if k == NodeKind::StringLiteral || k == NodeKind::MultilineString {
        Some(i)
    } else {
        find_first_name_lit(cs, i + 1)
    }
}

/// The fallback operand text of a flow.
pub fn unknown_string_text() -> (r: String)
    ensures
        r@ == unknown_text(),
{
    let r = String::from_str("<unknown>");
    proof {
        reveal_strlit("<unknown>");
        assert(r@ =~= unknown_text());
    }
    r
}

/// The denormalized text of the `which`-th string-literal operand.
fn flow_operand_text(cs: &Vec<Node>, which: usize) -> (r: String)
    ensures
        r@ == flow_operand(cs@, which as int),
{
    match find_kth_of_kind(cs, NodeKind::StringLiteral, which, 0) {
        None => unknown_string_text(),
        Some(j) => {
            let lit = &cs[j];
            match crate::text::unquote(lit.text.as_str()) {
                Some(body) => crate::syntax::unescape_text(body.as_str()),
                None => unknown_string_text(),
            }
        },
    }
}

impl SemanticIndex {
    fn push_prefix(&mut self, p: String)
        ensures
            final(self).import_prefixes.deep_view() == old(self).import_prefixes.deep_view().push(
                p@,
            ),
            final(self).occurrences == old(self).occurrences,
            final(self).flows == old(self).flows,
    {
        let ghost pre = self.import_prefixes.deep_view();
        self.import_prefixes.push(p);
        proof {
            assert(self.import_prefixes.deep_view() =~= pre.push(
                self.import_prefixes@.last()@,
            ));
        }
    }

    fn push_flow(&mut self, f: FlowDecl)
        ensures
            final(self).flows.deep_view() == old(self).flows.deep_view().push(f@),
            final(self).occurrences == old(self).occurrences,
            final(self).import_prefixes == old(self).import_prefixes,
    {
        let ghost pre = self.flows.deep_view();
        self.flows.push(f);
        proof {
            assert(self.flows.deep_view() =~= pre.push(self.flows@.last()@));
        }
    }

    /// Records the definition occurrence of a declaration's name child.
    fn record_name(&mut self, n: &Node, k: SymbolKind)
        ensures
            adds(*old(self), *final(self), wv_occs(name_occs(*n, k))),
    {
        let ghost pre = *self;
        match find_kth_of_kind(&n.children, NodeKind::NameNode, 0, 0) {
            None => {
                proof {
                    lemma_adds_refl(*self);
                }
            },
            Some(j) => {
                let nm = &n.children[j];
                match find_first_name_lit(&nm.children, 0) {
                    None => {
                        proof {
                            lemma_adds_refl(*self);
                        }
                    },
                    Some(l) => {
                        let lit = &nm.children[l];
                        let range = ByteRange { start: lit.start, end: lit.end };
                        if lit.kind() == NodeKind::StringLiteral {
                            let v = crate::syntax::literal_value(lit.text.as_str());
                            self.record(k, v, range, true);
                        } else {
                            let v = crate::text::strip_triple(lit.text.as_str());
                            self.record(k, v, range, true);
                        }
                        proof {
                            assert(self.occurrences.deep_view() =~= pre.occurrences.deep_view()
                                + name_occs(*n, k));
                            lemma_adds_prefixes_flows(pre, *self);
                        }
                    },
                }
            },
        }
    }

    /// Records the reference occurrence of the `which`-th quoted literal.
    fn record_lit_ref(&mut self, cs: &Vec<Node>, which: usize, k: SymbolKind)
        ensures
            adds(*old(self), *final(self), wv_occs(lit_ref_occs(cs@, which as int, k))),
    {
        let ghost pre = *self;
        match find_kth_of_kind(cs, NodeKind::StringLiteral, which, 0) {
            None => {
                proof {
                    lemma_adds_refl(*self);
                }
            },
            Some(j) => {
                let lit = &cs[j];
                let range = ByteRange { start: lit.start, end: lit.end };
                let v = crate::syntax::literal_value(lit.text.as_str());
                self.record(k, v, range, false);
                proof {
                    assert(self.occurrences.deep_view() =~= pre.occurrences.deep_view()
                        + lit_ref_occs(cs@, which as int, k));
                    lemma_adds_prefixes_flows(pre, *self);
                }
            },
        }
    }

    /// Walks one node, dispatching on its kind; unknown kinds are walked
    /// transparently.
    pub fn walk(&mut self, n: &Node)
        ensures
            adds(*old(self), *final(self), walk_of(*n)),
        decreases n,
    {
        let ghost pre = *self;
        let k = n.kind();
        match k {
            NodeKind::ImportDecl => {
                self.collect_import(&n.children, 0);
            },
            NodeKind::EntityDecl => {
                self.record_name(n, SymbolKind::Entity);
            },
            NodeKind::ResourceDecl => {
                self.record_name(n, SymbolKind::Resource);
            },
            NodeKind::PatternDecl => {
                self.record_name(n, SymbolKind::Pattern);
            },
            NodeKind::RoleDecl => {
                self.record_name(n, SymbolKind::Role);
            },
            NodeKind::RelationDecl => {
                self.record_name(n, SymbolKind::Relation);
                let ghost s1 = *self;
                self.record_lit_ref(&n.children, 0, SymbolKind::Role);
                let ghost s2 = *self;
                self.record_lit_ref(&n.children, 2, SymbolKind::Role);
                let ghost s3 = *self;
                self.record_lit_ref(&n.children, 3, SymbolKind::Resource);
                proof {
                    assert(self.occurrences.deep_view() =~= pre.occurrences.deep_view()
                        + walk_of(*n).occs);
                    assert(self.import_prefixes.deep_view() =~= pre.import_prefixes.deep_view());
                    assert(self.flows.deep_view() =~= pre.flows.deep_view());
                }
            },
            NodeKind::FlowDecl => {
                self.record_lit_ref(&n.children, 0, SymbolKind::Resource);
                self.record_lit_ref(&n.children, 1, SymbolKind::Entity);
                self.record_lit_ref(&n.children, 2, SymbolKind::Entity);
                let range = ByteRange { start: n.start, end: n.end };
                let resource = flow_operand_text(&n.children, 0);
                let from_entity = flow_operand_text(&n.children, 1);
                let to_entity = flow_operand_text(&n.children, 2);
                let quantity = match find_kth_of_kind(&n.children, NodeKind::NumberLiteral, 0, 0) {
                    None => None,
                    Some(j) => Some(n.children[j].text.clone()),
                };
                self.push_flow(
                    FlowDecl { range, resource, from_entity, to_entity, quantity },
                );
                let mut nm = String::from_str("flow@");
                nm.append(crate::text::usize_to_dec(n.start).as_str());
                nm.append("..");
                nm.append(crate::text::usize_to_dec(n.end).as_str());
                proof {
                    reveal_strlit("flow@");
                    reveal_strlit("..");
                    assert(nm@ =~= spec_flow_name(n.start as int, n.end as int));
                }
                self.record(SymbolKind::Flow, nm, range, true);
                proof {
                    assert(self.occurrences.deep_view() =~= pre.occurrences.deep_view()
                        + walk_of(*n).occs);
                    assert(self.flows.deep_view() =~= pre.flows.deep_view() + walk_of(*n).flows);
                    assert(self.import_prefixes.deep_view() =~= pre.import_prefixes.deep_view());
                }
            },
            NodeKind::InstanceDecl => {
                match find_kth_of_kind(&n.children, NodeKind::Identifier, 0, 0) {
                    None => (),
                    Some(j) => {
                        let id = &n.children[j];
                        let range = ByteRange { start: id.start, end: id.end };
                        self.record(SymbolKind::Instance, id.text.clone(), range, true);
                    },
                }
                self.record_lit_ref(&n.children, 0, SymbolKind::Entity);
                proof {
                    assert(self.occurrences.deep_view() =~= pre.occurrences.deep_view()
                        + walk_of(*n).occs);
                    assert(self.import_prefixes.deep_view() =~= pre.import_prefixes.deep_view());
                    assert(self.flows.deep_view() =~= pre.flows.deep_view());
                }
            },
            NodeKind::InstanceReference => {
                let nm = crate::text::strip_sigils(n.text.as_str());
                let range = ByteRange { start: n.start, end: n.end };
                self.record(SymbolKind::Instance, nm, range, false);
                proof {
                    assert(self.occurrences.deep_view() =~= pre.occurrences.deep_view()
                        + walk_of(*n).occs);
                }
            },
            NodeKind::PolicyDecl => {
                self.walk_policy_children(&n.children, 0, false);
            },
            _ => {
                self.walk_children(&n.children, 0);
            },
        }
        proof {
            lemma_adds_refl(*self);
            assert(adds(pre, *self, walk_of(*n)));
        }
    }

    /// Walks the children from `i` on.
    fn walk_children(&mut self, cs: &Vec<Node>, i: usize)
        ensures
            adds(*old(self), *final(self), walk_seq(cs@, i as int)),
        decreases cs@, cs@.len() - i,
    {
        let ghost pre = *self;
        if i >= cs.len() {
            proof {
                lemma_adds_refl(*self);
            }
            return ;
        }
        self.walk(&cs[i]);
        let ghost mid = *self;
        self.walk_children(cs, i + 1);
        proof {
            lemma_adds_chain(pre, mid, *self, walk_of(cs@[i as int]), walk_seq(cs@, i + 1));
        }
    }

    /// The policy walk: records the first bare identifier as the policy's
    /// definition and walks every other child.
    fn walk_policy_children(&mut self, cs: &Vec<Node>, i: usize, found: bool)
        ensures
            adds(*old(self), *final(self), walk_policy(cs@, i as int, found)),
        decreases cs@, cs@.len() - i,
    {
        let ghost pre = *self;
        if i >= cs.len() {
            proof {
                lemma_adds_refl(*self);
            }
            return ;
        }
        let c = &cs[i];
        if !found && c.kind() == NodeKind::Identifier {
            let range = ByteRange { start: c.start, end: c.end };
            self.record(SymbolKind::Policy, c.text.clone(), range, true);
            let ghost mid = *self;
            self.walk_policy_children(cs, i + 1, true);
            proof {
                assert(mid.occurrences.deep_view() =~= pre.occurrences.deep_view() + seq![
                    OccView {
                        kind: SymbolKind::Policy,
                        name: cs@[i as int].text@,
                        range: cs@[i as int].spec_range(),
                        is_definition: true,
                    },
                ]);
                lemma_adds_chain(
                    pre,
                    mid,
                    *self,
                    wv_occs(
                        seq![
                            OccView {
                                kind: SymbolKind::Policy,
                                name: cs@[i as int].text@,
                                range: cs@[i as int].spec_range(),
                                is_definition: true,
                            },
                        ],
                    ),
                    walk_policy(cs@, i + 1, true),
                );
            }
        } else {
            self.walk(c);
            let ghost mid = *self;
            self.walk_policy_children(cs, i + 1, found);
            proof {
                lemma_adds_chain(
                    pre,
                    mid,
                    *self,
                    walk_of(cs@[i as int]),
                    walk_policy(cs@, i + 1, found),
                );
            }
        }
    }

    /// Collects the prefixes of an import declaration's children.
    fn collect_import(&mut self, cs: &Vec<Node>, i: usize)
        ensures
            adds(
                *old(self),
                *final(self),
                WalkView {
                    occs: Seq::empty(),
                    prefixes: import_prefixes_of(cs@, i as int),
                    flows: Seq::empty(),
                },
            ),
        decreases cs@.len() - i,
    {
        let ghost pre = *self;
        if i >= cs.len() {
            proof {
                lemma_adds_refl(*self);
            }
            return ;
        }
        let c = &cs[i];
        let k = c.kind();
        if k == NodeKind::ImportNamed {
            self.collect_items(&c.children, 0);
        } else if k == NodeKind::ImportWildcard {
            self.collect_wildcard(c);
        } else if k == NodeKind::ImportSpecifier {
            self.collect_specifier(&c.children, 0);
        }
        let ghost mid = *self;
        self.collect_import(cs, i + 1);
        proof {
            assert(self.import_prefixes.deep_view() =~= pre.import_prefixes.deep_view()
                + import_prefixes_of(cs@, i as int));
            assert(self.occurrences.deep_view() =~= pre.occurrences.deep_view() + Seq::<
                OccView,
            >::empty());
            assert(self.flows.deep_view() =~= pre.flows.deep_view() + Seq::<FlowView>::empty());
        }
    }

    /// Collects the prefixes of named or wildcard imports.
    fn collect_specifier(&mut self, cs: &Vec<Node>, i: usize)
        ensures
            adds(
                *old(self),
                *final(self),
                WalkView {
                    occs: Seq::empty(),
                    prefixes: specifier_prefixes(cs@, i as int),
                    flows: Seq::empty(),
                },
            ),
        decreases cs@.len() - i,
    {
        let ghost pre = *self;
        if i >= cs.len() {
            proof {
                lemma_adds_refl(*self);
            }
            return ;
        }
        let c = &cs[i];
        let k = c.kind();
        if k == NodeKind::ImportNamed {
            self.collect_items(&c.children, 0);
        } else if k == NodeKind::ImportWildcard {
            self.collect_wildcard(c);
        }
        let ghost mid = *self;
        self.collect_specifier(cs, i + 1);
        proof {
            assert(self.import_prefixes.deep_view() =~= pre.import_prefixes.deep_view()
                + specifier_prefixes(cs@, i as int));
            assert(self.occurrences.deep_view() =~= pre.occurrences.deep_view() + Seq::<
                OccView,
            >::empty());
            assert(self.flows.deep_view() =~= pre.flows.deep_view() + Seq::<FlowView>::empty());
        }
    }

    /// Collects the prefix of every import item among the children.
    fn collect_items(&mut self, cs: &Vec<Node>, i: usize)
        ensures
            adds(
                *old(self),
                *final(self),
                WalkView {
                    occs: Seq::empty(),
                    prefixes: items_prefixes(cs@, i as int),
                    flows: Seq::empty(),
                },
            ),
        decreases cs@.len() - i,
    {
        let ghost pre = *self;
        if i >= cs.len() {
            proof {
                lemma_adds_refl(*self);
            }
            return ;
        }
        let c = &cs[i];
        if c.kind() == NodeKind::ImportItem {
            match find_kth_of_kind(&c.children, NodeKind::Identifier, 1, 0) {
                Some(a) => {
                    self.push_prefix(c.children[a].text.clone());
                },
                None => {
                    match find_kth_of_kind(&c.children, NodeKind::Identifier, 0, 0) {
                        Some(nm) => {
                            self.push_prefix(c.children[nm].text.clone());
                        },
                        None => (),
                    }
                },
            }
        }
        let ghost mid = *self;
        self.collect_items(cs, i + 1);
        proof {
            assert(self.import_prefixes.deep_view() =~= pre.import_prefixes.deep_view()
                + items_prefixes(cs@, i as int));
            assert(self.occurrences.deep_view() =~= pre.occurrences.deep_view() + Seq::<
                OccView,
            >::empty());
            assert(self.flows.deep_view() =~= pre.flows.deep_view() + Seq::<FlowView>::empty());
        }
    }

    /// Collects the alias of a wildcard import.
    fn collect_wildcard(&mut self, n: &Node)
        ensures
            adds(
                *old(self),
                *final(self),
                WalkView { occs: Seq::empty(), prefixes: wildcard_prefix(*n), flows: Seq::empty() },
            ),
    {
        let ghost pre = *self;
        match find_kth_of_kind(&n.children, NodeKind::Identifier, 0, 0) {
            Some(j) => {
                self.push_prefix(n.children[j].text.clone());
            },
            None => (),
        }
        proof {
            assert(self.import_prefixes.deep_view() =~= pre.import_prefixes.deep_view()
                + wildcard_prefix(*n));
            assert(self.occurrences.deep_view() =~= pre.occurrences.deep_view() + Seq::<
                OccView,
            >::empty());
            assert(self.flows.deep_view() =~= pre.flows.deep_view() + Seq::<FlowView>::empty());
        }
    }
}

/// Extending by nothing is extending by the empty contribution.
proof fn lemma_adds_refl(s: SemanticIndex)
    ensures
        adds(s, s, wv_empty()),
{
    assert(s.occurrences.deep_view() =~= s.occurrences.deep_view() + Seq::<OccView>::empty());
    assert(s.import_prefixes.deep_view() =~= s.import_prefixes.deep_view() + Seq::<
        Seq<char>,
    >::empty());
    assert(s.flows.deep_view() =~= s.flows.deep_view() + Seq::<FlowView>::empty());
}

/// Two extensions in a row extend by the two contributions together.
proof fn lemma_adds_chain(a: SemanticIndex, b: SemanticIndex, c: SemanticIndex, w1: WalkView, w2: WalkView)
    requires
        adds(a, b, w1),
        adds(b, c, w2),
    ensures
        adds(a, c, wv_add(w1, w2)),
{
    assert(c.occurrences.deep_view() =~= a.occurrences.deep_view() + (w1.occs + w2.occs));
    assert(c.import_prefixes.deep_view() =~= a.import_prefixes.deep_view() + (w1.prefixes
        + w2.prefixes));
    assert(c.flows.deep_view() =~= a.flows.deep_view() + (w1.flows + w2.flows));
}

/// A record step alone extends the occurrences and nothing else.
proof fn lemma_adds_prefixes_flows(pre: SemanticIndex, post: SemanticIndex)
    requires
        post.import_prefixes == pre.import_prefixes,
        post.flows == pre.flows,
    ensures
        post.import_prefixes.deep_view() == pre.import_prefixes.deep_view(),
        post.flows.deep_view() == pre.flows.deep_view(),
{
}

/// Order of flow records: by range start, then range end.
pub open spec fn flow_le(a: FlowView, b: FlowView) -> bool {
    a.range.start < b.range.start || (a.range.start == b.range.start && a.range.end
        <= b.range.end)
}

/// Inserts a flow into a sorted sequence, after any equal ranges.
pub open spec fn spec_insert_flow(s: Seq<FlowView>, x: FlowView) -> Seq<FlowView>
    decreases s.len(),
{
    if s.len() == 0 {
        seq![x]
    } else if flow_le(s.last(), x) {
        s.push(x)
    } else {
        spec_insert_flow(s.drop_last(), x).push(s.last())
    }
}

/// Insertion sort of flows by range: stable and a function of its input.
pub open spec fn spec_sort_flows(s: Seq<FlowView>) -> Seq<FlowView>
    decreases s.len(),
{
    if s.len() == 0 {
        s
    } else {
        spec_insert_flow(spec_sort_flows(s.drop_last()), s.last())
    }
}

fn insert_flow(acc: Vec<FlowDecl>, x: FlowDecl) -> (r: Vec<FlowDecl>)
    ensures
        r.deep_view() == spec_insert_flow(acc.deep_view(), x@),
    decreases acc.len(),
{
    let mut acc = acc;
    let ghost pre = acc.deep_view();
    if acc.len() == 0 {
        acc.push(x);
        proof {
            assert(acc.deep_view() =~= spec_insert_flow(pre, x@));
        }
        return acc;
    }
    let a = &acc[acc.len() - 1];
    if a.range.start < x.range.start || (a.range.start == x.range.start && a.range.end
        <= x.range.end) {
        acc.push(x);
        proof {
            assert(acc.deep_view() =~= pre.push(x@));
        }
        return acc;
    }
    let last = acc.pop().unwrap();
    proof {
        assert(acc.deep_view() =~= pre.drop_last());
        assert(last@ == pre.last());
    }
    let mut out = insert_flow(acc, x);
    let ghost mid = out.deep_view();
    out.push(last);
    proof {
        assert(out.deep_view() =~= mid.push(last@));
    }
    out
}

/// Sorts the flow declarations by range for stable iteration.
pub fn sort_flows(v: Vec<FlowDecl>) -> (r: Vec<FlowDecl>)
    ensures
        r.deep_view() == spec_sort_flows(v.deep_view()),
    decreases v.len(),
{
    let mut v = v;
    let ghost pre = v.deep_view();
    if v.len() == 0 {
        return v;
    }
    let last = v.pop().unwrap();
    proof {
        assert(v.deep_view() =~= pre.drop_last());
        assert(last@ == pre.last());
    }
    let sorted = sort_flows(v);
    insert_flow(sorted, last)
}

/// What `build_from_tree` leaves in the index: exactly the walked
/// occurrences, the sorted and deduplicated prefixes, and the flows
/// sorted by range.
pub open spec fn spec_built(root: Node, r: SemanticIndex) -> bool {
    &&& r.occurrences.deep_view() == walk_of(root).occs
    &&& r.import_prefixes.deep_view() == crate::order::spec_dedup_strs(
        crate::order::spec_sort_strs(walk_of(root).prefixes),
    )
    &&& r.flows.deep_view() == spec_sort_flows(walk_of(root).flows)
}

impl SemanticIndex {
    /// Builds the index from one parsed structural tree: a single
    /// recursive descent, then the prefixes are sorted and deduplicated
    /// and the flows sorted by range for stable iteration.
    pub fn build_from_tree(root: &Node) -> (r: SemanticIndex)
        ensures
            spec_built(*root, r),
    {
        let mut idx = SemanticIndex::empty();
        let ghost pre = idx;
        idx.walk(root);
        proof {
            assert(idx.occurrences.deep_view() =~= walk_of(*root).occs);
            assert(idx.import_prefixes.deep_view() =~= walk_of(*root).prefixes);
            assert(idx.flows.deep_view() =~= walk_of(*root).flows);
        }
        let SemanticIndex { occurrences, import_prefixes, flows } = idx;
        let import_prefixes = crate::order::dedup_strings(
            crate::order::sort_strings(import_prefixes),
        );
        let flows = sort_flows(flows);
        SemanticIndex { occurrences, import_prefixes, flows }
    }

    /// Builds the index for a document: a malformed document yields an
    /// empty index, any other exactly the index of its structural tree;
    /// every recorded range lies within the document's bytes.
    pub fn build(source: &str) -> (r: SemanticIndex)
        ensures
            match crate::syntax::tree_of(source@) {
                None => r.occurrences@.len() == 0 && r.import_prefixes@.len() == 0
                    && r.flows@.len() == 0,
                Some(root) => spec_built(root, r),
            },
            occs_within(
                r.occurrences.deep_view(),
                vstd::utf8::encode_utf8(source@).len() as int,
            ),
            flows_within(r.flows.deep_view(), vstd::utf8::encode_utf8(source@).len() as int),
    {
        let ghost len = vstd::utf8::encode_utf8(source@).len() as int;
        match crate::syntax::parse_node_tree(source) {
            None => SemanticIndex::empty(),
            Some(root) => {
                let r = SemanticIndex::build_from_tree(&root);
                proof {
                    assert(spec_built(root, r));
                    lemma_walk_within(root, len);
                    lemma_sort_flows_within(walk_of(root).flows, len);
                }
                r
            },
        }
    }
}

/// The prefix set of a built index is sorted and has no repeated entry.
pub proof fn lemma_built_prefixes_ordered(root: Node, r: SemanticIndex)
    requires
        spec_built(root, r),
    ensures
        crate::order::strs_sorted(r.import_prefixes.deep_view()),
        forall|i: int|
            0 < i < r.import_prefixes.deep_view().len() ==> r.import_prefixes.deep_view()[i - 1]
                != #[trigger] r.import_prefixes.deep_view()[i],
{
    let p = walk_of(root).prefixes;
    crate::order::lemma_sort_strs_sorted(p);
    crate::order::lemma_dedup_strs_sorted(crate::order::spec_sort_strs(p));
}

/// Every occurrence range runs from start to end within `len` bytes.
pub open spec fn occs_within(s: Seq<OccView>, len: int) -> bool {
    forall|i: int|
        0 <= i < s.len() ==> (#[trigger] s[i]).range.start <= s[i].range.end && s[i].range.end
            <= len
}

/// Every flow range runs from start to end within `len` bytes.
pub open spec fn flows_within(s: Seq<FlowView>, len: int) -> bool {
    forall|i: int|
        0 <= i < s.len() ==> (#[trigger] s[i]).range.start <= s[i].range.end && s[i].range.end
            <= len
}

proof fn lemma_occs_within_add(a: Seq<OccView>, b: Seq<OccView>, len: int)
    requires
        occs_within(a, len),
        occs_within(b, len),
    ensures
        occs_within(a + b, len),
{
    assert forall|i: int| 0 <= i < (a + b).len() implies (#[trigger] (a + b)[i]).range.start <= (a
        + b)[i].range.end && (a + b)[i].range.end <= len by {
        if i < a.len() {
            assert((a + b)[i] == a[i]);
        } else {
            assert((a + b)[i] == b[i - a.len()]);
        }
    }
}

proof fn lemma_flows_within_add(a: Seq<FlowView>, b: Seq<FlowView>, len: int)
    requires
        flows_within(a, len),
        flows_within(b, len),
    ensures
        flows_within(a + b, len),
{
    assert forall|i: int| 0 <= i < (a + b).len() implies (#[trigger] (a + b)[i]).range.start <= (a
        + b)[i].range.end && (a + b)[i].range.end <= len by {
        if i < a.len() {
            assert((a + b)[i] == a[i]);
        } else {
            assert((a + b)[i] == b[i - a.len()]);
        }
    }
}

proof fn lemma_kth_within(cs: Seq<Node>, k: NodeKind, which: int, i: int, len: int)
    requires
        crate::syntax::children_within(cs, i, len),
        0 <= i,
        kth_of_kind(cs, k, which, i) is Some,
    ensures
        crate::syntax::node_within(kth_of_kind(cs, k, which, i)->0, len),
    decreases cs.len() - i,
{
    if 0 <= i && i < cs.len() {
        if spec_kind_of(cs[i]) == k {
            if which > 0 {
                lemma_kth_within(cs, k, which - 1, i + 1, len);
            }
        } else {
            lemma_kth_within(cs, k, which, i + 1, len);
        }
    }
}

proof fn lemma_first_name_lit_within(cs: Seq<Node>, i: int, len: int)
    requires
        crate::syntax::children_within(cs, i, len),
        0 <= i,
        first_name_lit(cs, i) is Some,
    ensures
        crate::syntax::node_within(first_name_lit(cs, i)->0, len),
    decreases cs.len() - i,
{
    if 0 <= i && i < cs.len() {
        if spec_kind_of(cs[i]) != NodeKind::StringLiteral && spec_kind_of(cs[i])
            != NodeKind::MultilineString {
            lemma_first_name_lit_within(cs, i + 1, len);
        }
    }
}

proof fn lemma_name_occs_within(n: Node, k: SymbolKind, len: int)
    requires
        crate::syntax::node_within(n, len),
    ensures
        occs_within(name_occs(n, k), len),
{
    match kth_of_kind(n.children@, NodeKind::NameNode, 0, 0) {
        None => (),
        Some(nm) => {
            lemma_kth_within(n.children@, NodeKind::NameNode, 0, 0, len);
            match first_name_lit(nm.children@, 0) {
                None => (),
                Some(lit) => {
                    lemma_first_name_lit_within(nm.children@, 0, len);
                },
            }
        },
    }
}

proof fn lemma_lit_ref_within(cs: Seq<Node>, which: int, k: SymbolKind, len: int)
    requires
        crate::syntax::children_within(cs, 0, len),
    ensures
        occs_within(lit_ref_occs(cs, which, k), len),
{
    match kth_of_kind(cs, NodeKind::StringLiteral, which, 0) {
        None => (),
        Some(lit) => {
            lemma_kth_within(cs, NodeKind::StringLiteral, which, 0, len);
        },
    }
}

/// Every range the walk of a bounded tree records lies within the
/// document.
proof fn lemma_walk_within(n: Node, len: int)
    requires
        crate::syntax::node_within(n, len),
    ensures
        occs_within(walk_of(n).occs, len),
        flows_within(walk_of(n).flows, len),
    decreases n,
{
    let cs = n.children@;
    match spec_kind_of(n) {
        NodeKind::ImportDecl => (),
        NodeKind::EntityDecl => lemma_name_occs_within(n, SymbolKind::Entity, len),
        NodeKind::ResourceDecl => lemma_name_occs_within(n, SymbolKind::Resource, len),
        NodeKind::PatternDecl => lemma_name_occs_within(n, SymbolKind::Pattern, len),
        NodeKind::RoleDecl => lemma_name_occs_within(n, SymbolKind::Role, len),
        NodeKind::RelationDecl => {
            lemma_name_occs_within(n, SymbolKind::Relation, len);
            lemma_lit_ref_within(cs, 0, SymbolKind::Role, len);
            lemma_lit_ref_within(cs, 2, SymbolKind::Role, len);
            lemma_lit_ref_within(cs, 3, SymbolKind::Resource, len);
            lemma_occs_within_add(
                name_occs(n, SymbolKind::Relation),
                lit_ref_occs(cs, 0, SymbolKind::Role),
                len,
            );
            lemma_occs_within_add(
                name_occs(n, SymbolKind::Relation) + lit_ref_occs(cs, 0, SymbolKind::Role),
                lit_ref_occs(cs, 2, SymbolKind::Role),
                len,
            );
            lemma_occs_within_add(
                name_occs(n, SymbolKind::Relation) + lit_ref_occs(cs, 0, SymbolKind::Role)
                    + lit_ref_occs(cs, 2, SymbolKind::Role),
                lit_ref_occs(cs, 3, SymbolKind::Resource),
                len,
            );
        },
        NodeKind::FlowDecl => {
            lemma_lit_ref_within(cs, 0, SymbolKind::Resource, len);
            lemma_lit_ref_within(cs, 1, SymbolKind::Entity, len);
            lemma_lit_ref_within(cs, 2, SymbolKind::Entity, len);
            lemma_occs_within_add(
                lit_ref_occs(cs, 0, SymbolKind::Resource),
                lit_ref_occs(cs, 1, SymbolKind::Entity),
                len,
            );
            lemma_occs_within_add(
                lit_ref_occs(cs, 0, SymbolKind::Resource) + lit_ref_occs(cs, 1, SymbolKind::Entity),
                lit_ref_occs(cs, 2, SymbolKind::Entity),
                len,
            );
            lemma_occs_within_add(
                lit_ref_occs(cs, 0, SymbolKind::Resource) + lit_ref_occs(cs, 1, SymbolKind::Entity)
                    + lit_ref_occs(cs, 2, SymbolKind::Entity),
                seq![
                    OccView {
                        kind: SymbolKind::Flow,
                        name: spec_flow_name(n.start as int, n.end as int),
                        range: n.spec_range(),
                        is_definition: true,
                    },
                ],
                len,
            );
        },
        NodeKind::InstanceDecl => {
            match kth_of_kind(cs, NodeKind::Identifier, 0, 0) {
                None => (),
                Some(id) => {
                    lemma_kth_within(cs, NodeKind::Identifier, 0, 0, len);
                },
            }
            match kth_of_kind(cs, NodeKind::StringLiteral, 0, 0) {
                None => (),
                Some(lit) => {
                    lemma_kth_within(cs, NodeKind::StringLiteral, 0, 0, len);
                },
            }
        },
        NodeKind::InstanceReference => (),
        NodeKind::PolicyDecl => {
            lemma_walk_policy_within(cs, 0, false, len);
        },
        _ => {
            lemma_walk_seq_within(cs, 0, len);
        },
    }
}

proof fn lemma_walk_seq_within(cs: Seq<Node>, i: int, len: int)
    requires
        crate::syntax::children_within(cs, 0, len),
    ensures
        occs_within(walk_seq(cs, i).occs, len),
        flows_within(walk_seq(cs, i).flows, len),
    decreases cs, cs.len() - i,
{
    if 0 <= i && i < cs.len() {
        crate::syntax::lemma_child_within(cs, 0, len, i);
        lemma_walk_within(cs[i], len);
        lemma_walk_seq_within(cs, i + 1, len);
        lemma_occs_within_add(walk_of(cs[i]).occs, walk_seq(cs, i + 1).occs, len);
        lemma_flows_within_add(walk_of(cs[i]).flows, walk_seq(cs, i + 1).flows, len);
    }
}

proof fn lemma_walk_policy_within(cs: Seq<Node>, i: int, found: bool, len: int)
    requires
        crate::syntax::children_within(cs, 0, len),
    ensures
        occs_within(walk_policy(cs, i, found).occs, len),
        flows_within(walk_policy(cs, i, found).flows, len),
    decreases cs, (cs.len() - i),
{
    if 0 <= i && i < cs.len() {
        if !found && spec_kind_of(cs[i]) == NodeKind::Identifier {
            crate::syntax::lemma_child_within(cs, 0, len, i);
            lemma_walk_policy_within(cs, i + 1, true, len);
            lemma_occs_within_add(
                seq![
                    OccView {
                        kind: SymbolKind::Policy,
                        name: cs[i].text@,
                        range: cs[i].spec_range(),
                        is_definition: true,
                    },
                ],
                walk_policy(cs, i + 1, true).occs,
                len,
            );
        } else {
            crate::syntax::lemma_child_within(cs, 0, len, i);
            lemma_walk_within(cs[i], len);
            lemma_walk_policy_within(cs, i + 1, found, len);
            lemma_occs_within_add(walk_of(cs[i]).occs, walk_policy(cs, i + 1, found).occs, len);
            lemma_flows_within_add(walk_of(cs[i]).flows, walk_policy(cs, i + 1, found).flows, len);
        }
    }
}

proof fn lemma_insert_flow_within(s: Seq<FlowView>, x: FlowView, len: int)
    requires
        flows_within(s, len),
        x.range.start <= x.range.end <= len,
    ensures
        flows_within(spec_insert_flow(s, x), len),
    decreases s.len(),
{
    if s.len() > 0 && !flow_le(s.last(), x) {
        assert(flows_within(s.drop_last(), len)) by {
            assert(forall|j: int| 0 <= j < s.len() - 1 ==> s.drop_last()[j] == s[j]);
        }
        lemma_insert_flow_within(s.drop_last(), x, len);
    }
}

/// The flow sort keeps every range within the document.
proof fn lemma_sort_flows_within(s: Seq<FlowView>, len: int)
    requires
        flows_within(s, len),
    ensures
        flows_within(spec_sort_flows(s), len),
    decreases s.len(),
{
    if s.len() > 0 {
        assert(flows_within(s.drop_last(), len)) by {
            assert(forall|j: int| 0 <= j < s.len() - 1 ==> s.drop_last()[j] == s[j]);
        }
        lemma_sort_flows_within(s.drop_last(), len);
        lemma_insert_flow_within(spec_sort_flows(s.drop_last()), s.last(), len);
    }
}
} // verus!
