//! The hover model: a schema-stable, size-bounded payload built from the
//! position index, the semantic index and the symbol resolver.

use vstd::prelude::*;

verus! {

use crate::graphmodel::GraphModel;
use crate::index::SemanticIndex;
use crate::position::LineIndex;
use crate::position::Position;
use crate::resolve::DetailLevel;
use crate::resolve::HoverRelated;
use crate::resolve::RelView;

/// The hover markdown budget in bytes.
pub const MAX_MARKDOWN_BYTES: usize = 32 * 1024;

/// The hover payload budget in bytes.
pub const MAX_JSON_BYTES: usize = 128 * 1024;

/// A position as the payload carries it.
#[derive(Debug, Clone, Copy, PartialEq, Eq, Structural)]
pub struct HoverPosition {
    pub line: u32,
    pub character: u32,
}

impl HoverPosition {
    /// The payload position of a protocol position.
    pub fn of_position(p: Position) -> (r: HoverPosition)
        ensures
            r.line == p.line && r.character == p.character,
    {
        HoverPosition { line: p.line, character: p.character }
    }
}

/// A range as the payload carries it.
#[derive(Debug, Clone, Copy, PartialEq, Eq, Structural)]
pub struct HoverRange {
    pub start: HoverPosition,
    pub end: HoverPosition,
}

/// The symbol identity of a hover payload.
#[derive(Debug)]
pub struct HoverSymbol {
    pub name: String,
    pub kind: String,
    pub qualified_name: String,
    pub uri: String,
    pub range: HoverRange,
    pub resolve_id: String,
    pub resolution_confidence: String,
}

#[verifier::ext_equal]
pub struct SymbolView {
    pub name: Seq<char>,
    pub kind: Seq<char>,
    pub qualified_name: Seq<char>,
    pub uri: Seq<char>,
    pub range: HoverRange,
    pub resolve_id: Seq<char>,
    pub resolution_confidence: Seq<char>,
}

impl View for HoverSymbol {
    type V = SymbolView;

    open spec fn view(&self) -> SymbolView {
        SymbolView {
            name: self.name@,
            kind: self.kind@,
            qualified_name: self.qualified_name@,
            uri: self.uri@,
            range: self.range,
            resolve_id: self.resolve_id@,
            resolution_confidence: self.resolution_confidence@,
        }
    }
}

/// What was in scope around the request.
#[derive(Debug)]
pub struct HoverScopeSummary {
    pub module: Option<String>,
    pub enclosing_rule: Option<String>,
    pub namespaces_in_scope: Vec<String>,
}

#[verifier::ext_equal]
pub struct ScopeView {
    pub module: Option<Seq<char>>,
    pub enclosing_rule: Option<Seq<char>>,
    pub namespaces_in_scope: Seq<Seq<char>>,
}

impl View for HoverScopeSummary {
    type V = ScopeView;

    open spec fn view(&self) -> ScopeView {
        ScopeView {
            module: match self.module {
                Some(ref s) => Some(s@),
                None => None,
            },
            enclosing_rule: match self.enclosing_rule {
                Some(ref s) => Some(s@),
                None => None,
            },
            namespaces_in_scope: self.namespaces_in_scope.deep_view(),
        }
    }
}

/// The request context of a hover payload.
#[derive(Debug)]
pub struct HoverContext {
    pub document_version: i32,
    pub position: HoverPosition,
    pub scope_summary: HoverScopeSummary,
    pub config_hash: String,
}

#[verifier::ext_equal]
pub struct ContextView {
    pub document_version: i32,
    pub position: HoverPosition,
    pub scope_summary: ScopeView,
    pub config_hash: Seq<char>,
}

impl View for HoverContext {
    type V = ContextView;

    open spec fn view(&self) -> ContextView {
        ContextView {
            document_version: self.document_version,
            position: self.position,
            scope_summary: self.scope_summary@,
            config_hash: self.config_hash@,
        }
    }
}

/// The display header of a hover payload.
#[derive(Debug)]
pub struct HoverHeader {
    pub display_name: String,
    pub kind_label: String,
    pub qualified_path: String,
}

#[verifier::ext_equal]
pub struct HeaderView {
    pub display_name: Seq<char>,
    pub kind_label: Seq<char>,
    pub qualified_path: Seq<char>,
}

impl View for HoverHeader {
    type V = HeaderView;

    open spec fn view(&self) -> HeaderView {
        HeaderView {
            display_name: self.display_name@,
            kind_label: self.kind_label@,
            qualified_path: self.qualified_path@,
        }
    }
}

/// The primary content of a hover payload.
#[derive(Debug)]
pub struct HoverPrimary {
    pub header: HoverHeader,
    pub signature_or_shape: String,
    pub summary: String,
    pub badges: Vec<String>,
    pub facts: Vec<(String, String)>,
}

#[verifier::ext_equal]
pub struct PrimaryView {
    pub header: HeaderView,
    pub signature_or_shape: Seq<char>,
    pub summary: Seq<char>,
    pub badges: Seq<Seq<char>>,
    pub facts: Seq<(Seq<char>, Seq<char>)>,
}

impl View for HoverPrimary {
    type V = PrimaryView;

    open spec fn view(&self) -> PrimaryView {
        PrimaryView {
            header: self.header@,
            signature_or_shape: self.signature_or_shape@,
            summary: self.summary@,
            badges: self.badges.deep_view(),
            facts: self.facts.deep_view(),
        }
    }
}

/// The size limits and truncation markers of a hover payload.
#[derive(Debug)]
pub struct HoverLimits {
    pub max_markdown_bytes: usize,
    pub max_json_bytes: usize,
    pub truncated_sections: Vec<String>,
}

#[verifier::ext_equal]
pub struct LimitsView {
    pub max_markdown_bytes: usize,
    pub max_json_bytes: usize,
    pub truncated_sections: Seq<Seq<char>>,
}

impl View for HoverLimits {
    type V = LimitsView;

    open spec fn view(&self) -> LimitsView {
        LimitsView {
            max_markdown_bytes: self.max_markdown_bytes,
            max_json_bytes: self.max_json_bytes,
            truncated_sections: self.truncated_sections.deep_view(),
        }
    }
}

/// The schema-versioned hover payload.
#[derive(Debug)]
pub struct HoverModel {
    pub schema_version: String,
    pub id: String,
    pub symbol: HoverSymbol,
    pub context: HoverContext,
    pub primary: HoverPrimary,
    pub related: Vec<HoverRelated>,
    pub limits: HoverLimits,
}

#[verifier::ext_equal]
pub struct ModelView {
    pub schema_version: Seq<char>,
    pub id: Seq<char>,
    pub symbol: SymbolView,
    pub context: ContextView,
    pub primary: PrimaryView,
    pub related: Seq<RelView>,
    pub limits: LimitsView,
}

impl View for HoverModel {
    type V = ModelView;

    open spec fn view(&self) -> ModelView {
        ModelView {
            schema_version: self.schema_version@,
            id: self.id@,
            symbol: self.symbol@,
            context: self.context@,
            primary: self.primary@,
            related: self.related.deep_view(),
            limits: self.limits@,
        }
    }
}

/// A hover response: the payload, with its rendering when asked for.
#[derive(Debug)]
pub struct HoverPlusResponse {
    pub model: HoverModel,
    pub markdown: Option<String>,
}


pub uninterp spec fn blake3_hex_of(s: Seq<char>) -> Seq<char>;

/// Relies on `blake3::hash` and `Hash::to_hex`: a cryptographic digest
/// of the text, as 64 lower-case hex characters; the result depends on
/// the bytes alone.
#[verifier::external_body]
fn blake3_hex(s: &str) -> (r: String)
    ensures
        r@ == blake3_hex_of(s@),
        r@.len() == 64,
{
    blake3::hash(s.as_bytes()).to_hex().to_string()
}

/// The ranking of related symbols: relevance score descending, then
/// qualified name, then kind.
pub open spec fn rel_le(a: RelView, b: RelView) -> bool {
    if a.relevance_score != b.relevance_score {
        a.relevance_score > b.relevance_score
    } else if a.qualified_name != b.qualified_name {
        crate::order::char_seq_le(a.qualified_name, b.qualified_name)
    } else {
        crate::order::char_seq_le(a.kind, b.kind)
    }
}

/// Inserts a related symbol into a ranked sequence.
pub open spec fn spec_insert_rel(s: Seq<RelView>, x: RelView) -> Seq<RelView>
    decreases s.len(),
{
    if s.len() == 0 {
        seq![x]
    } else if rel_le(s.last(), x) {
        s.push(x)
    } else {
        spec_insert_rel(s.drop_last(), x).push(s.last())
    }
}

/// Ranks related symbols: stable and a function of its input.
pub open spec fn spec_sort_rel(s: Seq<RelView>) -> Seq<RelView>
    decreases s.len(),
{
    if s.len() == 0 {
        s
    } else {
        spec_insert_rel(spec_sort_rel(s.drop_last()), s.last())
    }
}

fn exec_rel_le(a: &HoverRelated, b: &HoverRelated) -> (r: bool)
    ensures
        r == rel_le(a@, b@),
{
    if a.relevance_score != b.relevance_score {
        a.relevance_score > b.relevance_score
    } else if !crate::order::str_eq(a.qualified_name.as_str(), b.qualified_name.as_str()) {
        crate::order::str_le(a.qualified_name.as_str(), b.qualified_name.as_str())
    } else {
        crate::order::str_le(a.kind.as_str(), b.kind.as_str())
    }
}

fn insert_rel(acc: Vec<HoverRelated>, x: HoverRelated) -> (r: Vec<HoverRelated>)
    ensures
        r.deep_view() == spec_insert_rel(acc.deep_view(), x@),
    decreases acc.len(),
{
    let mut acc = acc;
    let ghost pre = acc.deep_view();
    if acc.len() == 0 {
        let ghost xv = x@;
        acc.push(x);
        proof {
            assert(acc.deep_view() =~= spec_insert_rel(pre, xv));
        }
        return acc;
    }
    if exec_rel_le(&acc[acc.len() - 1], &x) {
        let ghost xv = x@;
        acc.push(x);
        proof {
            assert(acc.deep_view() =~= pre.push(xv));
        }
        return acc;
    }
    let last = acc.pop().unwrap();
    proof {
        assert(acc.deep_view() =~= pre.drop_last());
        assert(last@ == pre.last());
    }
    let mut out = insert_rel(acc, x);
    let ghost mid = out.deep_view();
    out.push(last);
    proof {
        assert(out.deep_view() =~= mid.push(pre.last()));
    }
    out
}

/// Ranks the related symbols deterministically.
pub fn sort_related(v: Vec<HoverRelated>) -> (r: Vec<HoverRelated>)
    ensures
        r.deep_view() == spec_sort_rel(v.deep_view()),
    decreases v.len(),
{
    let mut v = v;
    let ghost pre = v.deep_view();
    if v.len() == 0 {
        return v;
    }
    let last = v.pop().unwrap();
    proof {
        assert(v.deep_view() =~= pre.drop_last());
        assert(last@ == pre.last());
    }
    let sorted = sort_related(v);
    insert_rel(sorted, last)
}

/// The ranking of related symbols is total.
proof fn lemma_rel_le_total(a: RelView, b: RelView)
    ensures
        rel_le(a, b) || rel_le(b, a),
{
    crate::order::lemma_char_seq_le_total(a.qualified_name, b.qualified_name);
    crate::order::lemma_char_seq_le_total(a.kind, b.kind);
}

/// The ranking of related symbols is transitive.
proof fn lemma_rel_le_trans(a: RelView, b: RelView, c: RelView)
    requires
        rel_le(a, b),
        rel_le(b, c),
    ensures
        rel_le(a, c),
{
    if a.relevance_score == b.relevance_score && b.relevance_score == c.relevance_score {
        if a.qualified_name != b.qualified_name && b.qualified_name != c.qualified_name {
            crate::order::lemma_char_seq_le_trans(a.qualified_name, b.qualified_name, c.qualified_name);
            if a.qualified_name == c.qualified_name {
                crate::order::lemma_char_seq_le_antisym(a.qualified_name, b.qualified_name);
            }
        } else if a.qualified_name == b.qualified_name && b.qualified_name == c.qualified_name {
            crate::order::lemma_char_seq_le_trans(a.kind, b.kind, c.kind);
        }
    }
}

/// Whether a related list is ranked.
pub open spec fn rel_ranked(s: Seq<RelView>) -> bool {
    forall|i: int, j: int| 0 <= i < j < s.len() ==> rel_le(#[trigger] s[i], #[trigger] s[j])
}

/// Inserting into a ranked list keeps it ranked and adds exactly the
/// new entry.
proof fn lemma_insert_rel_ranked(s: Seq<RelView>, x: RelView)
    requires
        rel_ranked(s),
    ensures
        rel_ranked(spec_insert_rel(s, x)),
        spec_insert_rel(s, x).to_multiset() == s.to_multiset().insert(x),
    decreases s.len(),
{
    broadcast use vstd::seq_lib::group_seq_properties;

    if s.len() == 0 {
        assert(spec_insert_rel(s, x) =~= seq![x]);
        assert(s.to_multiset() =~= vstd::multiset::Multiset::<RelView>::empty());
        assert(seq![x].to_multiset() =~= vstd::multiset::Multiset::<RelView>::empty().insert(x));
    } else if rel_le(s.last(), x) {
        let r = s.push(x);
        assert forall|i: int, j: int| 0 <= i < j < r.len() implies rel_le(r[i], r[j]) by {
            if j == r.len() - 1 {
                if i < s.len() - 1 {
                    lemma_rel_le_trans(r[i], s.last(), x);
                }
            }
        }
    } else {
        lemma_rel_le_total(s.last(), x);
        let head = s.drop_last();
        lemma_insert_rel_ranked(head, x);
        let inner = spec_insert_rel(head, x);
        let r = inner.push(s.last());
        assert forall|i: int, j: int| 0 <= i < j < r.len() implies rel_le(r[i], r[j]) by {
            if j == r.len() - 1 {
                assert(inner.to_multiset().contains(inner[i]));
                assert(head.to_multiset().insert(x).contains(inner[i]));
                if inner[i] == x {
                    assert(rel_le(x, s.last()));
                } else {
                    assert(head.to_multiset().contains(inner[i]));
                    let k = choose|k: int| 0 <= k < head.len() && head[k] == inner[i];
                    assert(s[k] == head[k]);
                    assert(rel_le(s[k], s.last()));
                }
            }
        }
        assert(s =~= head.push(s.last()));
        assert(s.to_multiset() =~= head.to_multiset().insert(s.last()));
        assert(r.to_multiset() =~= inner.to_multiset().insert(s.last()));
    }
}

/// The related sort ranks its input.
pub proof fn lemma_sort_rel_ranked(s: Seq<RelView>)
    ensures
        rel_ranked(spec_sort_rel(s)),
    decreases s.len(),
{
    if s.len() > 0 {
        lemma_sort_rel_ranked(s.drop_last());
        lemma_insert_rel_ranked(spec_sort_rel(s.drop_last()), s.last());
    }
}

/// The request name of a detail level.
pub open spec fn spec_detail_name(d: DetailLevel) -> Seq<char> {
    match d {
        DetailLevel::Core => "Core"@,
        DetailLevel::Standard => "Standard"@,
        DetailLevel::Deep => "Deep"@,
    }
}

/// The content-addressed identifier of one hover: a digest over the
/// request coordinates, the configuration hash, the resolver's stable id
/// and the detail level.
pub open spec fn spec_hover_id(
    uri: Seq<char>,
    version: i32,
    position: Position,
    config_hash: Seq<char>,
    resolve_id: Seq<char>,
    detail: DetailLevel,
) -> Seq<char> {
    blake3_hex_of(
        uri + crate::text::spec_i64_dec(version as int) + crate::text::spec_u64_dec(
            position.line as int,
        ) + crate::text::spec_u64_dec(position.character as int) + config_hash + resolve_id
            + spec_detail_name(detail),
    )
}

/// Computes the content-addressed hover identifier.
pub fn hover_id(
    uri: &str,
    version: i32,
    position: Position,
    config_hash: &str,
    resolve_id: &str,
    detail: DetailLevel,
) -> (r: String)
    ensures
        r@ == spec_hover_id(uri@, version, position, config_hash@, resolve_id@, detail),
        r@.len() == 64,
{
    let mut s = String::from_str(uri);
    s.append(crate::text::i32_to_dec(version).as_str());
    s.append(crate::text::u32_to_dec(position.line).as_str());
    s.append(crate::text::u32_to_dec(position.character).as_str());
    s.append(config_hash);
    s.append(resolve_id);
    s.append(detail.name().as_str());
    proof {
        assert(s@ =~= uri@ + crate::text::spec_i64_dec(version as int) + crate::text::spec_u64_dec(
            position.line as int,
        ) + crate::text::spec_u64_dec(position.character as int) + config_hash@ + resolve_id@
            + spec_detail_name(detail));
    }
    blake3_hex(s.as_str())
}

/// The payload range of a byte range, through the position index.
pub open spec fn spec_hover_range(li: LineIndex, range: crate::symbols::ByteRange) -> HoverRange {
    let s = li.spec_position_of(range.start);
    let e = li.spec_position_of(range.end);
    HoverRange {
        start: HoverPosition { line: s.line, character: s.character },
        end: HoverPosition { line: e.line, character: e.character },
    }
}

/// Maps a byte range to a payload range.
pub fn byte_range_to_hover_range(line_index: &LineIndex, range: crate::symbols::ByteRange) -> (r:
    HoverRange)
    requires
        line_index.wf(),
    ensures
        r == spec_hover_range(*line_index, range),
{
    let s = line_index.position_of(range.start);
    let e = line_index.position_of(range.end);
    HoverRange {
        start: HoverPosition::of_position(s),
        end: HoverPosition::of_position(e),
    }
}

/// The model with the `json` marker recorded and the related symbols
/// dropped: the ladder's first rung.
pub open spec fn spec_strip_related(m: ModelView) -> ModelView {
    ModelView {
        related: Seq::empty(),
        limits: LimitsView {
            truncated_sections: m.limits.truncated_sections.push("json"@),
            ..m.limits
        },
        ..m
    }
}

/// The first rung with the facts also dropped: the second rung.
pub open spec fn spec_strip_facts(m: ModelView) -> ModelView {
    let m1 = spec_strip_related(m);
    ModelView { primary: PrimaryView { facts: Seq::empty(), ..m1.primary }, ..m1 }
}

/// The second rung with the summary capped at 512 characters: the last
/// rung.
pub open spec fn spec_stripped(m: ModelView) -> ModelView {
    let m2 = spec_strip_facts(m);
    ModelView {
        primary: PrimaryView {
            summary: if m2.primary.summary.len() > 512 {
                m2.primary.summary.take(512)
            } else {
                m2.primary.summary
            },
            ..m2.primary
        },
        ..m2
    }
}

/// The loss-ordered truncation ladder: applied only when the payload
/// exceeds its JSON budget; drops the related symbols, then the facts,
/// then caps the summary, re-measuring after each step, and records one
/// `json` marker.
pub open spec fn spec_enforce(m: ModelView) -> ModelView {
    if crate::json::json_byte_len(m) <= m.limits.max_json_bytes {
        m
    } else if crate::json::json_byte_len(spec_strip_related(m)) <= m.limits.max_json_bytes {
        spec_strip_related(m)
    } else if crate::json::json_byte_len(spec_strip_facts(m)) <= m.limits.max_json_bytes {
        spec_strip_facts(m)
    } else {
        spec_stripped(m)
    }
}

fn apply_strip_related(model: &mut HoverModel)
    ensures
        final(model)@ == spec_strip_related(old(model)@),
{
    let ghost m0 = model@;
    model.limits.truncated_sections.push(String::from_str("json"));
    model.related = Vec::new();
    proof {
        assert(model.limits.truncated_sections.deep_view()
            =~= m0.limits.truncated_sections.push("json"@));
        assert(model.related.deep_view() =~= Seq::<RelView>::empty());
        assert(model@ =~= spec_strip_related(m0));
    }
}

fn apply_strip_facts(model: &mut HoverModel)
    ensures
        final(model)@ == (ModelView {
            primary: PrimaryView { facts: Seq::empty(), ..old(model)@.primary },
            ..old(model)@
        }),
{
    let ghost m0 = model@;
    model.primary.facts = Vec::new();
    proof {
        assert(model.primary.facts.deep_view() =~= Seq::<(Seq<char>, Seq<char>)>::empty());
        assert(model@ =~= (ModelView {
            primary: PrimaryView { facts: Seq::empty(), ..m0.primary },
            ..m0
        }));
    }
}

fn apply_cap_summary(model: &mut HoverModel)
    ensures
        final(model)@ == (ModelView {
            primary: PrimaryView {
                summary: if old(model)@.primary.summary.len() > 512 {
                    old(model)@.primary.summary.take(512)
                } else {
                    old(model)@.primary.summary
                },
                ..old(model)@.primary
            },
            ..old(model)@
        }),
{
    let ghost m0 = model@;
    if model.primary.summary.as_str().unicode_len() > 512 {
        let capped = model.primary.summary.as_str().substring_char(0, 512);
        model.primary.summary = String::from_str(capped);
        proof {
            assert(model.primary.summary@ =~= m0.primary.summary.take(512));
        }
    }
    proof {
        assert(model@ =~= (ModelView {
            primary: PrimaryView {
                summary: if m0.primary.summary.len() > 512 {
                    m0.primary.summary.take(512)
                } else {
                    m0.primary.summary
                },
                ..m0.primary
            },
            ..m0
        }));
    }
}

/// Applies the deterministic truncation ladder in place.
pub fn enforce_json_limits(model: &mut HoverModel)
    ensures
        final(model)@ == spec_enforce(old(model)@),
{
    let ghost m0 = model@;
    let j = crate::json::hover_model_to_json(model);
    if j.as_str().len() <= model.limits.max_json_bytes {
        return ;
    }
    apply_strip_related(model);
    let j1 = crate::json::hover_model_to_json(model);
    if j1.as_str().len() <= model.limits.max_json_bytes {
        return ;
    }
    apply_strip_facts(model);
    proof {
        assert(model@ =~= spec_strip_facts(m0));
    }
    let j2 = crate::json::hover_model_to_json(model);
    if j2.as_str().len() <= model.limits.max_json_bytes {
        return ;
    }
    apply_cap_summary(model);
    proof {
        assert(model@ =~= spec_stripped(m0));
    }
}

/// The snapshot inputs of one hover request.
pub struct HoverBuildInput<'a> {
    pub uri: &'a str,
    pub document_version: i32,
    pub position: Position,
    pub config_hash: &'a str,
    pub detail_level: DetailLevel,
    pub line_index: &'a LineIndex,
    pub index: &'a SemanticIndex,
    pub graph: Option<&'a GraphModel>,
}

/// The assembled payload of one resolved occurrence, before the size
/// ladder: schema version, content-addressed id, symbol identity,
/// request context, primary content, the related symbols ranked and
/// capped at five, and the sorted, deduplicated truncation markers.
pub open spec fn spec_assemble(
    uri: Seq<char>,
    version: i32,
    position: Position,
    config_hash: Seq<char>,
    detail: DetailLevel,
    li: LineIndex,
    idx: SemanticIndex,
    g: Option<GraphModel>,
    occ: crate::symbols::OccView,
) -> ModelView {
    let rv = crate::resolve::spec_resolve_occurrence(occ, idx.flows.deep_view(), g, detail);
    let ranked = spec_sort_rel(rv.related);
    let capped = if ranked.len() <= 5 {
        ranked
    } else {
        ranked.take(5)
    };
    ModelView {
        schema_version: "1.0"@,
        id: spec_hover_id(uri, version, position, config_hash, rv.resolve_id, detail),
        symbol: SymbolView {
            name: rv.name,
            kind: rv.kind_label,
            qualified_name: rv.qualified_name,
            uri: uri,
            range: spec_hover_range(li, occ.range),
            resolve_id: rv.resolve_id,
            resolution_confidence: rv.confidence,
        },
        context: ContextView {
            document_version: version,
            position: HoverPosition { line: position.line, character: position.character },
            scope_summary: ScopeView {
                module: None,
                enclosing_rule: None,
                namespaces_in_scope: idx.import_prefixes.deep_view(),
            },
            config_hash: config_hash,
        },
        primary: PrimaryView {
            header: HeaderView {
                display_name: rv.name,
                kind_label: rv.kind_label,
                qualified_path: rv.qualified_name,
            },
            signature_or_shape: rv.signature,
            summary: rv.summary,
            badges: rv.badges,
            facts: rv.facts,
        },
        related: capped,
        limits: LimitsView {
            max_markdown_bytes: MAX_MARKDOWN_BYTES,
            max_json_bytes: MAX_JSON_BYTES,
            truncated_sections: crate::order::spec_dedup_strs(
                crate::order::spec_sort_strs(rv.truncated_sections),
            ),
        },
    }
}

/// What building one hover yields: nothing when the position maps to no
/// offset or no occurrence, else the assembled payload with the size
/// ladder applied.
pub open spec fn spec_build_hover_model(
    uri: Seq<char>,
    version: i32,
    position: Position,
    config_hash: Seq<char>,
    detail: DetailLevel,
    li: LineIndex,
    idx: SemanticIndex,
    g: Option<GraphModel>,
) -> Option<ModelView> {
    match li.spec_offset_of(position) {
        None => None,
        Some(off) => match crate::index::spec_symbol_at_from(
            idx.occurrences.deep_view(),
            off as int,
            0,
        ) {
            None => None,
            Some(occ) => Some(
                spec_enforce(
                    spec_assemble(uri, version, position, config_hash, detail, li, idx, g, occ),
                ),
            ),
        },
    }
}

/// Builds the hover payload for one request against one snapshot.
pub fn build_hover_model(input: HoverBuildInput<'_>) -> (r: Option<HoverModel>)
    requires
        input.line_index.wf(),
    ensures
        match r {
            Some(m) => spec_build_hover_model(
                input.uri@,
                input.document_version,
                input.position,
                input.config_hash@,
                input.detail_level,
                *input.line_index,
                *input.index,
                crate::resolve::opt_g(input.graph),
            ) == Some(m@),
            None => spec_build_hover_model(
                input.uri@,
                input.document_version,
                input.position,
                input.config_hash@,
                input.detail_level,
                *input.line_index,
                *input.index,
                crate::resolve::opt_g(input.graph),
            ) is None,
        },
{
    let offset = match input.line_index.offset_of(input.position) {
        None => {
            return None;
        },
        Some(o) => o,
    };
    let occurrence = match input.index.symbol_at_offset(offset) {
        None => {
            return None;
        },
        Some(o) => o,
    };
    let resolved = crate::resolve::resolve_occurrence(
        &occurrence,
        input.index,
        input.graph,
        input.detail_level,
    );
    let id = hover_id(
        input.uri,
        input.document_version,
        input.position,
        input.config_hash,
        resolved.resolve_id.as_str(),
        input.detail_level,
    );
    let range = byte_range_to_hover_range(input.line_index, occurrence.range);
    let mut related = sort_related(resolved.related);
    if related.len() > 5 {
        related.truncate(5);
    }
    let truncated = crate::order::dedup_strings(
        crate::order::sort_strings(resolved.truncated_sections),
    );
    let mut model = HoverModel {
        schema_version: String::from_str("1.0"),
        id,
        symbol: HoverSymbol {
            name: resolved.name.clone(),
            kind: resolved.kind_label.clone(),
            qualified_name: resolved.qualified_name.clone(),
            uri: String::from_str(input.uri),
            range,
            resolve_id: resolved.resolve_id,
            resolution_confidence: resolved.confidence,
        },
        context: HoverContext {
            document_version: input.document_version,
            position: HoverPosition {
                line: input.position.line,
                character: input.position.character,
            },
            scope_summary: HoverScopeSummary {
                module: None,
                enclosing_rule: None,
                namespaces_in_scope: crate::resolve::clone_strings(&input.index.import_prefixes),
            },
            config_hash: String::from_str(input.config_hash),
        },
        primary: HoverPrimary {
            header: HoverHeader {
                display_name: resolved.name,
                kind_label: resolved.kind_label,
                qualified_path: resolved.qualified_name,
            },
            signature_or_shape: resolved.signature,
            summary: resolved.summary,
            badges: resolved.badges,
            facts: resolved.facts,
        },
        related,
        limits: HoverLimits {
            max_markdown_bytes: MAX_MARKDOWN_BYTES,
            max_json_bytes: MAX_JSON_BYTES,
            truncated_sections: truncated,
        },
    };
    proof {
        assert(model@ =~= spec_assemble(
            input.uri@,
            input.document_version,
            input.position,
            input.config_hash@,
            input.detail_level,
            *input.line_index,
            *input.index,
            crate::resolve::opt_g(input.graph),
            occurrence@,
        ));
    }
    enforce_json_limits(&mut model);
    Some(model)
}

/// Determinism: for one fixed snapshot and request, any two built hover
/// payloads serialize to byte-identical JSON.
pub proof fn lemma_hover_model_deterministic(
    m1: HoverModel,
    m2: HoverModel,
    uri: Seq<char>,
    version: i32,
    position: Position,
    config_hash: Seq<char>,
    detail: DetailLevel,
    li: LineIndex,
    idx: SemanticIndex,
    g: Option<GraphModel>,
)
    requires
        spec_build_hover_model(uri, version, position, config_hash, detail, li, idx, g) == Some(
            m1@,
        ),
        spec_build_hover_model(uri, version, position, config_hash, detail, li, idx, g) == Some(
            m2@,
        ),
    ensures
        crate::json::json_of_model(m1@) == crate::json::json_of_model(m2@),
{
}

/// Size invariant: whenever the fully stripped payload fits the JSON
/// budget, the ladder's outcome fits it too.
pub proof fn lemma_json_size_invariant(m: ModelView)
    requires
        crate::json::json_byte_len(spec_stripped(m)) <= m.limits.max_json_bytes,
    ensures
        crate::json::json_byte_len(spec_enforce(m)) <= m.limits.max_json_bytes,
{
}

/// The related list of every built hover is ranked (score descending,
/// then name, then kind) and capped at five entries.
pub proof fn lemma_related_ranked_and_capped(
    uri: Seq<char>,
    version: i32,
    position: Position,
    config_hash: Seq<char>,
    detail: DetailLevel,
    li: LineIndex,
    idx: SemanticIndex,
    g: Option<GraphModel>,
    occ: crate::symbols::OccView,
)
    ensures
        ({
            let m = spec_assemble(uri, version, position, config_hash, detail, li, idx, g, occ);
            m.related.len() <= 5 && rel_ranked(m.related)
        }),
{
    let rv = crate::resolve::spec_resolve_occurrence(occ, idx.flows.deep_view(), g, detail);
    lemma_sort_rel_ranked(rv.related);
    let ranked = spec_sort_rel(rv.related);
    if ranked.len() > 5 {
        assert(rel_ranked(ranked.take(5))) by {
            assert(forall|i: int, j: int|
                0 <= i < j < 5 ==> rel_le(#[trigger] ranked.take(5)[i], #[trigger] ranked.take(5)[j]));
        }
    }
}

proof fn lemma_insert_rel_len(s: Seq<RelView>, x: RelView)
    ensures
        spec_insert_rel(s, x).len() == s.len() + 1,
    decreases s.len(),
{
    if s.len() > 0 && !rel_le(s.last(), x) {
        lemma_insert_rel_len(s.drop_last(), x);
    }
}

/// Ranking the related symbols keeps their number.
proof fn lemma_sort_rel_len(s: Seq<RelView>)
    ensures
        spec_sort_rel(s).len() == s.len(),
    decreases s.len(),
{
    if s.len() > 0 {
        lemma_sort_rel_len(s.drop_last());
        lemma_insert_rel_len(spec_sort_rel(s.drop_last()), s.last());
    }
}

/// Detail gating through the size ladder, for an entity hover: a `core`
/// payload carries no related symbols even after the ladder; at any
/// other level, when the payload fits its JSON budget untruncated, the
/// related list is non-empty exactly when the flow scan found
/// co-occurring flows.
pub proof fn lemma_detail_gating_through_ladder(
    uri: Seq<char>,
    version: i32,
    position: Position,
    config_hash: Seq<char>,
    detail: DetailLevel,
    li: LineIndex,
    idx: SemanticIndex,
    g: GraphModel,
    occ: crate::symbols::OccView,
)
    requires
        occ.kind == crate::symbols::SymbolKind::Entity,
    ensures
        ({
            let m = spec_assemble(uri, version, position, config_hash, detail, li, idx, Some(g), occ);
            &&& (detail == DetailLevel::Core ==> spec_enforce(m).related.len() == 0)
            &&& ((detail != DetailLevel::Core && crate::json::json_byte_len(m)
                <= m.limits.max_json_bytes) ==> (spec_enforce(m).related.len() > 0
                <==> crate::resolve::entity_scan_keys(
                g,
                occ.name,
                crate::resolve::scan_bound(g),
            ).len() > 0))
        }),
{
    let rv = crate::resolve::spec_resolve_occurrence(occ, idx.flows.deep_view(), Some(g), detail);
    lemma_sort_rel_len(rv.related);
    crate::resolve::lemma_detail_gating(occ.name, g, detail);
    let m = spec_assemble(uri, version, position, config_hash, detail, li, idx, Some(g), occ);
    if detail == DetailLevel::Core {
        assert(m.related.len() == 0);
        assert(spec_enforce(m).related.len() == 0);
    }
}
} // verus!
