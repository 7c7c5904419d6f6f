//! Symbol resolution: a pure function from one occurrence, the semantic
//! index and the optional graph model to a canonical, ranked resolution.

use vstd::prelude::*;

verus! {

use crate::graphmodel::DefRec;
use crate::graphmodel::GraphModel;
use crate::graphmodel::InstanceRec;
use crate::order::char_seq_le;
use crate::order::spec_dedup_strs;
use crate::order::spec_sort_strs;
use crate::order::str_eq;
use crate::order::str_le;
use vstd::string::StrSliceExecFns;
use vstd::string::StringExecFns;

/// The flow-scan ceiling per query.
pub const MAX_FLOW_SCAN: usize = 2000;

/// The three-tier verbosity control.
#[derive(Debug, Clone, Copy, PartialEq, Eq, Structural)]
pub enum DetailLevel {
    Core,
    Standard,
    Deep,
}

/// The detail level a request string selects: `core` and `deep` by name,
/// anything else (the default included) is `standard`.
pub open spec fn spec_parse_detail(s: Option<&str>) -> DetailLevel {
    match s {
        None => DetailLevel::Standard,
        Some(t) => if t@ == "core"@ {
            DetailLevel::Core
        } else if t@ == "deep"@ {
            DetailLevel::Deep
        } else {
            DetailLevel::Standard
        },
    }
}

impl DetailLevel {
    pub fn parse(s: Option<&str>) -> (r: Self)
        ensures
            r == spec_parse_detail(s),
    {
        match s {
            None => DetailLevel::Standard,
            Some(t) => {
                if str_eq(t, "core") {
                    DetailLevel::Core
                } else if str_eq(t, "deep") {
                    DetailLevel::Deep
                } else {
                    DetailLevel::Standard
                }
            },
        }
    }

    /// The level's name, as requests spell it.
    pub fn name(&self) -> (r: String)
        ensures
            self is Core ==> r@ == "Core"@,
            self is Standard ==> r@ == "Standard"@,
            self is Deep ==> r@ == "Deep"@,
    {
        match self {
            DetailLevel::Core => String::from_str("Core"),
            DetailLevel::Standard => String::from_str("Standard"),
            DetailLevel::Deep => String::from_str("Deep"),
        }
    }
}

/// One related symbol, ranked by co-occurrence.
#[derive(Debug)]
pub struct HoverRelated {
    pub qualified_name: String,
    pub kind: String,
    pub relevance_score: i32,
}

/// Mathematical image of a related symbol.
#[verifier::ext_equal]
pub struct RelView {
    pub qualified_name: Seq<char>,
    pub kind: Seq<char>,
    pub relevance_score: i32,
}

impl View for HoverRelated {
    type V = RelView;

    open spec fn view(&self) -> RelView {
        RelView {
            qualified_name: self.qualified_name@,
            kind: self.kind@,
            relevance_score: self.relevance_score,
        }
    }
}

impl DeepView for HoverRelated {
    type V = RelView;

    open spec fn deep_view(&self) -> RelView {
        self@
    }
}

impl Clone for HoverRelated {
    fn clone(&self) -> (r: Self)
        ensures
            r@ == self@,
    {
        HoverRelated {
            qualified_name: self.qualified_name.clone(),
            kind: self.kind.clone(),
            relevance_score: self.relevance_score,
        }
    }
}

/// The enriched description of one occurrence.
#[derive(Debug)]
pub struct ResolvedSymbol {
    pub name: String,
    pub kind_label: String,
    pub qualified_name: String,
    pub resolve_id: String,
    pub confidence: String,
    pub signature: String,
    pub summary: String,
    pub badges: Vec<String>,
    pub facts: Vec<(String, String)>,
    pub related: Vec<HoverRelated>,
    pub truncated_sections: Vec<String>,
}

/// Mathematical image of a resolved symbol.
#[verifier::ext_equal]
pub struct ResolvedView {
    pub name: Seq<char>,
    pub kind_label: Seq<char>,
    pub qualified_name: Seq<char>,
    pub resolve_id: Seq<char>,
    pub confidence: Seq<char>,
    pub signature: Seq<char>,
    pub summary: Seq<char>,
    pub badges: Seq<Seq<char>>,
    pub facts: Seq<(Seq<char>, Seq<char>)>,
    pub related: Seq<RelView>,
    pub truncated_sections: Seq<Seq<char>>,
}

impl View for ResolvedSymbol {
    type V = ResolvedView;

    open spec fn view(&self) -> ResolvedView {
        ResolvedView {
            name: self.name@,
            kind_label: self.kind_label@,
            qualified_name: self.qualified_name@,
            resolve_id: self.resolve_id@,
            confidence: self.confidence@,
            signature: self.signature@,
            summary: self.summary@,
            badges: self.badges.deep_view(),
            facts: self.facts.deep_view(),
            related: self.related.deep_view(),
            truncated_sections: self.truncated_sections.deep_view(),
        }
    }
}

/// The graph model behind an optional reference.
pub open spec fn opt_g(g: Option<&GraphModel>) -> Option<GraphModel> {
    match g {
        Some(m) => Some(*m),
        None => None,
    }
}

/// How many definitions carry the bare name, from `i` on.
pub open spec fn count_named(ds: Seq<DefRec>, name: Seq<char>, i: int) -> int
    decreases ds.len() - i,
{
    if i < 0 || i >= ds.len() {
        0
    } else {
        (if ds[i].name@ == name {
            1int
        } else {
            0int
        }) + count_named(ds, name, i + 1)
    }
}

/// The deterministic candidate order: by namespace, then stable id.
pub open spec fn cand_le(a: DefRec, b: DefRec) -> bool {
    if a.namespace@ != b.namespace@ {
        char_seq_le(a.namespace@, b.namespace@)
    } else {
        char_seq_le(a.id@, b.id@)
    }
}

/// The first candidate in the deterministic order among the definitions
/// carrying the name, from `i` on.
pub open spec fn min_named(ds: Seq<DefRec>, name: Seq<char>, i: int) -> Option<DefRec>
    decreases ds.len() - i,
{
    if i < 0 || i >= ds.len() {
        None
    } else {
        let rest = min_named(ds, name, i + 1);
        if ds[i].name@ != name {
            rest
        } else {
            match rest {
                None => Some(ds[i]),
                Some(b) => if cand_le(ds[i], b) {
                    Some(ds[i])
                } else {
                    Some(b)
                },
            }
        }
    }
}

/// The first definition with the given stable id, from `i` on.
pub open spec fn first_by_id(ds: Seq<DefRec>, id: Seq<char>, i: int) -> Option<DefRec>
    decreases ds.len() - i,
{
    if i < 0 || i >= ds.len() {
        None
    } else if ds[i].id@ == id {
        Some(ds[i])
    } else {
        first_by_id(ds, id, i + 1)
    }
}

/// The first instance with the given name, from `i` on.
pub open spec fn first_instance(rs: Seq<InstanceRec>, name: Seq<char>, i: int) -> Option<
    InstanceRec,
>
    decreases rs.len() - i,
{
    if i < 0 || i >= rs.len() {
        None
    } else if rs[i].name@ == name {
        Some(rs[i])
    } else {
        first_instance(rs, name, i + 1)
    }
}

/// A qualified name: namespace, separator, bare name.
pub open spec fn qualify(ns: Seq<char>, nm: Seq<char>) -> Seq<char> {
    ns + "::"@ + nm
}

/// The strings joined with a separator, from `i` on.
pub open spec fn join_from(s: Seq<Seq<char>>, sep: Seq<char>, i: int) -> Seq<char>
    decreases s.len() - i,
{
    if i < 0 || i >= s.len() {
        Seq::empty()
    } else if i == s.len() - 1 {
        s[i]
    } else {
        s[i] + sep + join_from(s, sep, i + 1)
    }
}

/// How often a string occurs among the keys, from `i` on.
pub open spec fn count_str(keys: Seq<Seq<char>>, x: Seq<char>, i: int) -> int
    decreases keys.len() - i,
{
    if i < 0 || i >= keys.len() {
        0
    } else {
        (if keys[i] == x {
            1int
        } else {
            0int
        }) + count_str(keys, x, i + 1)
    }
}

fn exec_count_named(ds: &Vec<DefRec>, name: &str, i: usize) -> (r: usize)
    requires
        i <= ds@.len(),
    ensures
        r == count_named(ds@, name@, i as int),
        r <= ds@.len() - i,
    decreases ds@.len() - i,
{
    if i >= ds.len() {
        return 0;
    }
    let rest = exec_count_named(ds, name, i + 1);
    if str_eq(ds[i].name.as_str(), name) {
        rest + 1
    } else {
        rest
    }
}

fn exec_cand_le(a: &DefRec, b: &DefRec) -> (r: bool)
    ensures
        r == cand_le(*a, *b),
{
    if !str_eq(a.namespace.as_str(), b.namespace.as_str()) {
        str_le(a.namespace.as_str(), b.namespace.as_str())
    } else {
        str_le(a.id.as_str(), b.id.as_str())
    }
}

fn exec_min_named(ds: &Vec<DefRec>, name: &str, i: usize) -> (r: Option<usize>)
    requires
        i <= ds@.len(),
    ensures
        match r {
            Some(j) => i <= j < ds@.len() && min_named(ds@, name@, i as int) == Some(ds@[j as int]),
            None => min_named(ds@, name@, i as int) is None,
        },
    decreases ds@.len() - i,
{
    if i >= ds.len() {
        return None;
    }
    let rest = exec_min_named(ds, name, i + 1);
    if !str_eq(ds[i].name.as_str(), name) {
        return rest;
    }
    match rest {
        None => Some(i),
        Some(j) => {
            if exec_cand_le(&ds[i], &ds[j]) {
                Some(i)
            } else {
                Some(j)
            }
        },
    }
}

fn exec_first_by_id(ds: &Vec<DefRec>, id: &str, i: usize) -> (r: Option<usize>)
    requires
        i <= ds@.len(),
    ensures
        match r {
            Some(j) => i <= j < ds@.len() && first_by_id(ds@, id@, i as int) == Some(ds@[j as int]),
            None => first_by_id(ds@, id@, i as int) is None,
        },
    decreases ds@.len() - i,
{
    if i >= ds.len() {
        return None;
    }
    if str_eq(ds[i].id.as_str(), id) {
        Some(i)
    } else {
        exec_first_by_id(ds, id, i + 1)
    }
}

fn exec_first_instance(rs: &Vec<InstanceRec>, name: &str, i: usize) -> (r: Option<usize>)
    requires
        i <= rs@.len(),
    ensures
        match r {
            Some(j) => i <= j < rs@.len() && first_instance(rs@, name@, i as int) == Some(
                rs@[j as int],
            ),
            None => first_instance(rs@, name@, i as int) is None,
        },
    decreases rs@.len() - i,
{
    if i >= rs.len() {
        return None;
    }
    if str_eq(rs[i].name.as_str(), name) {
        Some(i)
    } else {
        exec_first_instance(rs, name, i + 1)
    }
}

/// Builds a qualified name.
fn exec_qualify(ns: &str, nm: &str) -> (r: String)
    ensures
        r@ == qualify(ns@, nm@),
{
    let mut s = String::from_str(ns);
    s.append("::");
    s.append(nm);
    s
}

/// Joins strings with a separator.
pub fn exec_join_from(v: &Vec<String>, sep: &str, i: usize) -> (r: String)
    requires
        i <= v@.len(),
    ensures
        r@ == join_from(v.deep_view(), sep@, i as int),
    decreases v@.len() - i,
{
    if i >= v.len() {
        return String::new();
    }
    let mut s = v[i].clone();
    if i + 1 < v.len() {
        s.append(sep);
        let rest = exec_join_from(v, sep, i + 1);
        s.append(rest.as_str());
    }
    s
}

fn exec_count_str(keys: &Vec<String>, x: &str, i: usize) -> (r: usize)
    requires
        i <= keys@.len(),
    ensures
        r == count_str(keys.deep_view(), x@, i as int),
        r <= keys@.len() - i,
    decreases keys@.len() - i,
{
    if i >= keys.len() {
        return 0;
    }
    let rest = exec_count_str(keys, x, i + 1);
    proof {
        assert(keys.deep_view()[i as int] == keys@[i as int]@);
    }
    if str_eq(keys[i].as_str(), x) {
        rest + 1
    } else {
        rest
    }
}

/// The related list a key multiset yields: one entry per distinct key in
/// ascending order, scored by how often the key occurs.
pub open spec fn related_of(keys: Seq<Seq<char>>, kind_label: Seq<char>) -> Seq<RelView> {
    let uniq = spec_dedup_strs(spec_sort_strs(keys));
    Seq::new(
        uniq.len(),
        |i: int|
            RelView {
                qualified_name: uniq[i],
                kind: kind_label,
                relevance_score: count_str(keys, uniq[i], 0) as i32,
            },
    )
}

/// Builds the related list from the collected keys.
fn exec_related_of(keys: &Vec<String>, kind_label: &str) -> (r: Vec<HoverRelated>)
    ensures
        r.deep_view() == related_of(keys.deep_view(), kind_label@),
{
    let uniq = crate::order::dedup_strings(crate::order::sort_strings(clone_strings(keys)));
    let mut out: Vec<HoverRelated> = Vec::new();
    let mut i: usize = 0;
    while i < uniq.len()
        invariant
            i <= uniq@.len(),
            uniq.deep_view() == spec_dedup_strs(spec_sort_strs(keys.deep_view())),
            out.deep_view() =~= related_of(keys.deep_view(), kind_label@).take(i as int),
        decreases uniq@.len() - i,
    {
        let score = exec_count_str(keys, uniq[i].as_str(), 0);
        let ghost pre = out.deep_view();
        out.push(
            HoverRelated {
                qualified_name: uniq[i].clone(),
                kind: String::from_str(kind_label),
                relevance_score: score as i32,
            },
        );
        proof {
            assert(uniq.deep_view()[i as int] == uniq@[i as int]@);
            assert(out.deep_view() =~= pre.push(out@.last().deep_view()));
            assert(out.deep_view() =~= related_of(keys.deep_view(), kind_label@).take(i + 1));
        }
        i += 1;
    }
    proof {
        assert(related_of(keys.deep_view(), kind_label@).take(uniq.deep_view().len() as int)
            =~= related_of(keys.deep_view(), kind_label@));
    }
    out
}

/// Clones a string list, keeping the views.
pub fn clone_strings(v: &Vec<String>) -> (r: Vec<String>)
    ensures
        r.deep_view() == v.deep_view(),
{
    let mut out: Vec<String> = Vec::new();
    let mut i: usize = 0;
    while i < v.len()
        invariant
            i <= v@.len(),
            out.deep_view() =~= v.deep_view().take(i as int),
        decreases v@.len() - i,
    {
        let ghost pre = out.deep_view();
        out.push(v[i].clone());
        proof {
            assert(out.deep_view() =~= pre.push(v@[i as int]@));
            assert(out.deep_view() =~= v.deep_view().take(i + 1));
        }
        i += 1;
    }
    proof {
        assert(v.deep_view().take(v@.len() as int) =~= v.deep_view());
    }
    out
}


/// Whether a count of matches exists exactly when a minimal candidate
/// does.
proof fn lemma_min_named_some(ds: Seq<DefRec>, name: Seq<char>, i: int)
    ensures
        count_named(ds, name, i) >= 0,
        (count_named(ds, name, i) > 0) <==> (min_named(ds, name, i) is Some),
    decreases ds.len() - i,
{
    if 0 <= i && i < ds.len() {
        lemma_min_named_some(ds, name, i + 1);
    }
}

/// A single string as a badge list.
fn one_string(s: &str) -> (r: Vec<String>)
    ensures
        r.deep_view() =~= seq![s@],
{
    let mut v: Vec<String> = Vec::new();
    v.push(String::from_str(s));
    proof {
        assert(v.deep_view() =~= seq![s@]);
    }
    v
}

/// A quoted-name signature: label, space, the name in double quotes.
pub open spec fn quoted_signature(label: Seq<char>, name: Seq<char>) -> Seq<char> {
    label + " \""@ + name + "\""@
}

fn exec_quoted_signature(label: &str, name: &str) -> (r: String)
    ensures
        r@ == quoted_signature(label@, name@),
{
    let mut s = String::from_str(label);
    s.append(" \"");
    s.append(name);
    s.append("\"");
    s
}

/// Resolution against one definition table, for the kinds whose facts
/// hold at most the namespace: a missing graph is flagged `no-graph`, no
/// match `error_fallback`, both with the bare name kept; one match is
/// `exact` and qualified; several are `ambiguous` with the first
/// candidate in deterministic order surfaced and all facts withheld.
pub open spec fn spec_resolve_simple(
    name: Seq<char>,
    ds: Option<Seq<DefRec>>,
    kind_label: Seq<char>,
    summary: Seq<char>,
    with_ns: bool,
) -> ResolvedView {
    let base = ResolvedView {
        name: name,
        kind_label: kind_label,
        qualified_name: name,
        resolve_id: "<no-graph>"@,
        confidence: "no-graph"@,
        signature: quoted_signature(kind_label, name),
        summary: summary,
        badges: seq!["unresolved"@],
        facts: Seq::empty(),
        related: Seq::empty(),
        truncated_sections: Seq::empty(),
    };
    match ds {
        None => base,
        Some(ds) => match min_named(ds, name, 0) {
            None => ResolvedView {
                resolve_id: "<unresolved>"@,
                confidence: "error_fallback"@,
                ..base
            },
            Some(m) => {
                let exact = count_named(ds, name, 0) == 1;
                ResolvedView {
                    qualified_name: qualify(m.namespace@, m.name@),
                    resolve_id: m.id@,
                    confidence: if exact {
                        "exact"@
                    } else {
                        "ambiguous"@
                    },
                    badges: if exact {
                        Seq::empty()
                    } else {
                        seq!["ambiguous"@]
                    },
                    facts: if exact && with_ns {
                        seq![("namespace"@, m.namespace@)]
                    } else {
                        Seq::empty()
                    },
                    ..base
                }
            },
        },
    }
}

/// The definition tables of an optional model, one kind at a time.
pub open spec fn opt_defs(ds: Option<&Vec<DefRec>>) -> Option<Seq<DefRec>> {
    match ds {
        Some(v) => Some(v@),
        None => None,
    }
}

fn resolve_simple(
    name: &str,
    ds: Option<&Vec<DefRec>>,
    kind_label: &str,
    summary: &str,
    with_ns: bool,
) -> (r: ResolvedSymbol)
    ensures
        r@ =~= spec_resolve_simple(name@, opt_defs(ds), kind_label@, summary@, with_ns),
{
    let mut out = ResolvedSymbol {
        name: String::from_str(name),
        kind_label: String::from_str(kind_label),
        qualified_name: String::from_str(name),
        resolve_id: String::from_str("<no-graph>"),
        confidence: String::from_str("no-graph"),
        signature: exec_quoted_signature(kind_label, name),
        summary: String::from_str(summary),
        badges: one_string("unresolved"),
        facts: Vec::new(),
        related: Vec::new(),
        truncated_sections: Vec::new(),
    };
    match ds {
        None => out,
        Some(ds) => {
            proof {
                lemma_min_named_some(ds@, name@, 0);
            }
            let c = exec_count_named(ds, name, 0);
            match exec_min_named(ds, name, 0) {
                None => {
                    out.resolve_id = String::from_str("<unresolved>");
                    out.confidence = String::from_str("error_fallback");
                    out
                },
                Some(j) => {
                    let m = &ds[j];
                    out.qualified_name = exec_qualify(m.namespace.as_str(), m.name.as_str());
                    out.resolve_id = m.id.clone();
                    if c == 1 {
                        out.confidence = String::from_str("exact");
                        out.badges = Vec::new();
                        if with_ns {
                            let mut facts: Vec<(String, String)> = Vec::new();
                            facts.push((String::from_str("namespace"), m.namespace.clone()));
                            proof {
                                assert(facts.deep_view() =~= seq![("namespace"@, m.namespace@)]);
                            }
                            out.facts = facts;
                        }
                    } else {
                        out.confidence = String::from_str("ambiguous");
                        out.badges = one_string("ambiguous");
                    }
                    proof {
                        assert(out.badges.deep_view().len() == 0 || out.badges.deep_view()
                            =~= seq!["ambiguous"@]);
                    }
                    out
                },
            }
        },
    }
}

/// How many flows leave the entity with this id, from `i` on.
pub open spec fn count_from(fs: Seq<crate::graphmodel::FlowRec>, id: Seq<char>, i: int) -> int
    decreases fs.len() - i,
{
    if i < 0 || i >= fs.len() {
        0
    } else {
        (if fs[i].from_id@ == id {
            1int
        } else {
            0int
        }) + count_from(fs, id, i + 1)
    }
}

/// How many flows reach the entity with this id, from `i` on.
pub open spec fn count_to(fs: Seq<crate::graphmodel::FlowRec>, id: Seq<char>, i: int) -> int
    decreases fs.len() - i,
{
    if i < 0 || i >= fs.len() {
        0
    } else {
        (if fs[i].to_id@ == id {
            1int
        } else {
            0int
        }) + count_to(fs, id, i + 1)
    }
}

fn exec_count_from(fs: &Vec<crate::graphmodel::FlowRec>, id: &str, i: usize) -> (r: usize)
    requires
        i <= fs@.len(),
    ensures
        r == count_from(fs@, id@, i as int),
        r <= fs@.len() - i,
    decreases fs@.len() - i,
{
    if i >= fs.len() {
        return 0;
    }
    let rest = exec_count_from(fs, id, i + 1);
    if str_eq(fs[i].from_id.as_str(), id) {
        rest + 1
    } else {
        rest
    }
}

fn exec_count_to(fs: &Vec<crate::graphmodel::FlowRec>, id: &str, i: usize) -> (r: usize)
    requires
        i <= fs@.len(),
    ensures
        r == count_to(fs@, id@, i as int),
        r <= fs@.len() - i,
    decreases fs@.len() - i,
{
    if i >= fs.len() {
        return 0;
    }
    let rest = exec_count_to(fs, id, i + 1);
    if str_eq(fs[i].to_id.as_str(), id) {
        rest + 1
    } else {
        rest
    }
}

/// The related-symbol key one flow yields for an entity hover: the
/// qualified name of the flow's resource, when the flow touches an
/// entity with the hovered name.
pub open spec fn entity_flow_keys(g: GraphModel, f: crate::graphmodel::FlowRec, name: Seq<char>) -> Seq<
    Seq<char>,
> {
    let involves = (match first_by_id(g.entities@, f.from_id@, 0) {
        Some(e) => e.name@ == name,
        None => false,
    }) || (match first_by_id(g.entities@, f.to_id@, 0) {
        Some(e) => e.name@ == name,
        None => false,
    });
    if involves {
        match first_by_id(g.resources@, f.resource_id@, 0) {
            Some(r) => seq![qualify(r.namespace@, r.name@)],
            None => Seq::empty(),
        }
    } else {
        Seq::empty()
    }
}

/// The keys of the first `n` flows for an entity hover.
pub open spec fn entity_scan_keys(g: GraphModel, name: Seq<char>, n: int) -> Seq<Seq<char>>
    decreases n,
{
    if n <= 0 {
        Seq::empty()
    } else {
        entity_scan_keys(g, name, n - 1) + entity_flow_keys(g, g.flows@[n - 1], name)
    }
}

/// The related-symbol keys one flow yields for a resource hover: the
/// qualified names of its endpoint entities, when the flow carries a
/// resource with the hovered name.
pub open spec fn resource_flow_keys(g: GraphModel, f: crate::graphmodel::FlowRec, name: Seq<char>) -> Seq<
    Seq<char>,
> {
    match first_by_id(g.resources@, f.resource_id@, 0) {
        None => Seq::empty(),
        Some(r) => if r.name@ != name {
            Seq::empty()
        } else {
            (match first_by_id(g.entities@, f.from_id@, 0) {
                Some(e) => seq![qualify(e.namespace@, e.name@)],
                None => Seq::empty(),
            }) + (match first_by_id(g.entities@, f.to_id@, 0) {
                Some(e) => seq![qualify(e.namespace@, e.name@)],
                None => Seq::empty(),
            })
        },
    }
}

/// The keys of the first `n` flows for a resource hover.
pub open spec fn resource_scan_keys(g: GraphModel, name: Seq<char>, n: int) -> Seq<Seq<char>>
    decreases n,
{
    if n <= 0 {
        Seq::empty()
    } else {
        resource_scan_keys(g, name, n - 1) + resource_flow_keys(g, g.flows@[n - 1], name)
    }
}

/// Collects the entity-hover keys of the first `n` flows.
fn exec_entity_scan(g: &GraphModel, name: &str, n: usize) -> (keys: Vec<String>)
    requires
        n <= g.flows@.len(),
    ensures
        keys.deep_view() == entity_scan_keys(*g, name@, n as int),
{
    let mut keys: Vec<String> = Vec::new();
    let mut i: usize = 0;
    while i < n
        invariant
            i <= n <= g.flows@.len(),
            keys.deep_view() =~= entity_scan_keys(*g, name@, i as int),
        decreases n - i,
    {
        let f = &g.flows[i];
        let from_hit = match exec_first_by_id(&g.entities, f.from_id.as_str(), 0) {
            Some(j) => str_eq(g.entities[j].name.as_str(), name),
            None => false,
        };
        let to_hit = match exec_first_by_id(&g.entities, f.to_id.as_str(), 0) {
            Some(j) => str_eq(g.entities[j].name.as_str(), name),
            None => false,
        };
        let ghost pre = keys.deep_view();
        if from_hit || to_hit {
            match exec_first_by_id(&g.resources, f.resource_id.as_str(), 0) {
                Some(j) => {
                    let r = &g.resources[j];
                    keys.push(exec_qualify(r.namespace.as_str(), r.name.as_str()));
                    proof {
                        assert(keys.deep_view() =~= pre.push(keys@.last()@));
                    }
                },
                None => (),
            }
        }
        proof {
            assert(keys.deep_view() =~= entity_scan_keys(*g, name@, i + 1));
        }
        i += 1;
    }
    keys
}

/// Collects the resource-hover keys of the first `n` flows.
fn exec_resource_scan(g: &GraphModel, name: &str, n: usize) -> (keys: Vec<String>)
    requires
        n <= g.flows@.len(),
    ensures
        keys.deep_view() == resource_scan_keys(*g, name@, n as int),
{
    let mut keys: Vec<String> = Vec::new();
    let mut i: usize = 0;
    while i < n
        invariant
            i <= n <= g.flows@.len(),
            keys.deep_view() =~= resource_scan_keys(*g, name@, i as int),
        decreases n - i,
    {
        let f = &g.flows[i];
        let res_hit = match exec_first_by_id(&g.resources, f.resource_id.as_str(), 0) {
            Some(j) => str_eq(g.resources[j].name.as_str(), name),
            None => false,
        };
        if res_hit {
            let ghost pre = keys.deep_view();
            match exec_first_by_id(&g.entities, f.from_id.as_str(), 0) {
                Some(j) => {
                    let e = &g.entities[j];
                    keys.push(exec_qualify(e.namespace.as_str(), e.name.as_str()));
                    proof {
                        assert(keys.deep_view() =~= pre.push(keys@.last()@));
                    }
                },
                None => (),
            }
            let ghost mid = keys.deep_view();
            match exec_first_by_id(&g.entities, f.to_id.as_str(), 0) {
                Some(j) => {
                    let e = &g.entities[j];
                    keys.push(exec_qualify(e.namespace.as_str(), e.name.as_str()));
                    proof {
                        assert(keys.deep_view() =~= mid.push(keys@.last()@));
                    }
                },
                None => (),
            }
        }
        proof {
            assert(keys.deep_view() =~= resource_scan_keys(*g, name@, i + 1));
        }
        i += 1;
    }
    keys
}

/// The number of flows one query scans: all of them, up to the ceiling.
pub open spec fn scan_bound(g: GraphModel) -> int {
    if g.flows@.len() <= MAX_FLOW_SCAN {
        g.flows@.len() as int
    } else {
        MAX_FLOW_SCAN as int
    }
}

/// The budget marker: recorded when the scan ceiling cut the flow scan.
pub open spec fn budget_marks(g: GraphModel, detail: DetailLevel) -> Seq<Seq<char>> {
    if detail != DetailLevel::Core && g.flows@.len() > MAX_FLOW_SCAN {
        seq!["budget_exceeded"@]
    } else {
        Seq::empty()
    }
}

/// Resolution of an entity occurrence: deterministic candidate choice,
/// kind-specific facts for a unique match, all facts withheld under
/// ambiguity, `no-graph` without a graph, and resources related by
/// co-occurring flows at `standard` or `deep` detail.
pub open spec fn spec_resolve_entity(
    name: Seq<char>,
    g: Option<GraphModel>,
    detail: DetailLevel,
) -> ResolvedView {
    let base = ResolvedView {
        name: name,
        kind_label: "Entity"@,
        qualified_name: name,
        resolve_id: "<no-graph>"@,
        confidence: "no-graph"@,
        signature: quoted_signature("Entity"@, name),
        summary: "DomainForge entity"@,
        badges: seq!["unresolved"@],
        facts: Seq::empty(),
        related: Seq::empty(),
        truncated_sections: Seq::empty(),
    };
    match g {
        None => base,
        Some(g) => {
            let related = if detail != DetailLevel::Core {
                related_of(entity_scan_keys(g, name, scan_bound(g)), "Resource"@)
            } else {
                Seq::empty()
            };
            let marks = budget_marks(g, detail);
            match min_named(g.entities@, name, 0) {
                None => ResolvedView {
                    resolve_id: "<unresolved>"@,
                    confidence: "error_fallback"@,
                    related: related,
                    truncated_sections: marks,
                    ..base
                },
                Some(m) => if count_named(g.entities@, name, 0) == 1 {
                    ResolvedView {
                        qualified_name: qualify(m.namespace@, m.name@),
                        resolve_id: m.id@,
                        confidence: "exact"@,
                        badges: Seq::empty(),
                        facts: entity_facts(g, m),
                        related: related,
                        truncated_sections: marks,
                        ..base
                    }
                } else {
                    ResolvedView {
                        qualified_name: qualify(m.namespace@, m.name@),
                        resolve_id: m.id@,
                        confidence: "ambiguous"@,
                        badges: seq!["ambiguous"@],
                        related: related,
                        truncated_sections: marks,
                        ..base
                    }
                },
            }
        },
    }
}

/// The facts of a uniquely resolved entity: lineage, namespace, flow
/// counts and attached role names.
pub open spec fn entity_facts(g: GraphModel, m: DefRec) -> Seq<(Seq<char>, Seq<char>)> {
    (match m.version {
        Some(v) => seq![("version"@, v@)],
        None => Seq::empty(),
    }) + (match m.replaces {
        Some(v) => seq![("replaces"@, v@)],
        None => Seq::empty(),
    }) + (if m.changes@.len() > 0 {
        seq![("changes"@, join_from(m.changes.deep_view(), "; "@, 0))]
    } else {
        Seq::empty()
    }) + seq![("namespace"@, m.namespace@)] + seq![
        ("flows_from"@, crate::text::spec_u64_dec(count_from(g.flows@, m.id@, 0))),
    ] + seq![("flows_to"@, crate::text::spec_u64_dec(count_to(g.flows@, m.id@, 0)))] + (
    if m.role_names@.len() > 0 {
        seq![
            (
                "roles"@,
                join_from(spec_sort_strs(m.role_names.deep_view()), ", "@, 0),
            ),
        ]
    } else {
        Seq::empty()
    })
}

/// Resolves an entity occurrence against the graph model.
pub fn resolve_entity(name: &str, graph: Option<&GraphModel>, detail: DetailLevel) -> (r:
    ResolvedSymbol)
    ensures
        r@ =~= spec_resolve_entity(name@, opt_g(graph), detail),
{
    let mut out = ResolvedSymbol {
        name: String::from_str(name),
        kind_label: String::from_str("Entity"),
        qualified_name: String::from_str(name),
        resolve_id: String::from_str("<no-graph>"),
        confidence: String::from_str("no-graph"),
        signature: exec_quoted_signature("Entity", name),
        summary: String::from_str("DomainForge entity"),
        badges: one_string("unresolved"),
        facts: Vec::new(),
        related: Vec::new(),
        truncated_sections: Vec::new(),
    };
    let g = match graph {
        None => {
            return out;
        },
        Some(g) => g,
    };
    if detail != DetailLevel::Core {
        let n = if g.flows.len() <= MAX_FLOW_SCAN {
            g.flows.len()
        } else {
            MAX_FLOW_SCAN
        };
        let keys = exec_entity_scan(g, name, n);
        out.related = exec_related_of(&keys, "Resource");
        if g.flows.len() > MAX_FLOW_SCAN {
            out.truncated_sections = one_string("budget_exceeded");
        }
    }
    proof {
        lemma_min_named_some(g.entities@, name@, 0);
        assert(out.truncated_sections.deep_view() =~= budget_marks(*g, detail));
    }
    let c = exec_count_named(&g.entities, name, 0);
    match exec_min_named(&g.entities, name, 0) {
        None => {
            out.resolve_id = String::from_str("<unresolved>");
            out.confidence = String::from_str("error_fallback");
            out
        },
        Some(j) => {
            let m = &g.entities[j];
            out.qualified_name = exec_qualify(m.namespace.as_str(), m.name.as_str());
            out.resolve_id = m.id.clone();
            if c == 1 {
                out.confidence = String::from_str("exact");
                out.badges = Vec::new();
                let mut facts: Vec<(String, String)> = Vec::new();
                match &m.version {
                    Some(v) => {
                        facts.push((String::from_str("version"), v.clone()));
                    },
                    None => (),
                }
                match &m.replaces {
                    Some(v) => {
                        facts.push((String::from_str("replaces"), v.clone()));
                    },
                    None => (),
                }
                if m.changes.len() > 0 {
                    facts.push(
                        (String::from_str("changes"), exec_join_from(&m.changes, "; ", 0)),
                    );
                }
                facts.push((String::from_str("namespace"), m.namespace.clone()));
                let from_count = exec_count_from(&g.flows, m.id.as_str(), 0);
                facts.push(
                    (String::from_str("flows_from"), crate::text::usize_to_dec(from_count)),
                );
                let to_count = exec_count_to(&g.flows, m.id.as_str(), 0);
                facts.push((String::from_str("flows_to"), crate::text::usize_to_dec(to_count)));
                if m.role_names.len() > 0 {
                    let roles = crate::order::sort_strings(clone_strings(&m.role_names));
                    facts.push((String::from_str("roles"), exec_join_from(&roles, ", ", 0)));
                }
                proof {
                    assert(facts.deep_view() =~= entity_facts(*g, g.entities@[j as int]));
                }
                out.facts = facts;
                out
            } else {
                out.confidence = String::from_str("ambiguous");
                out.badges = one_string("ambiguous");
                out
            }
        },
    }
}

/// Resolution of a resource occurrence: like an entity, with the unit
/// symbol surfaced for a unique match and entities related by
/// co-occurring flows.
pub open spec fn spec_resolve_resource(
    name: Seq<char>,
    g: Option<GraphModel>,
    detail: DetailLevel,
) -> ResolvedView {
    let base = ResolvedView {
        name: name,
        kind_label: "Resource"@,
        qualified_name: name,
        resolve_id: "<no-graph>"@,
        confidence: "no-graph"@,
        signature: quoted_signature("Resource"@, name),
        summary: "DomainForge resource"@,
        badges: seq!["unresolved"@],
        facts: Seq::empty(),
        related: Seq::empty(),
        truncated_sections: Seq::empty(),
    };
    match g {
        None => base,
        Some(g) => {
            let related = if detail != DetailLevel::Core {
                related_of(resource_scan_keys(g, name, scan_bound(g)), "Entity"@)
            } else {
                Seq::empty()
            };
            let marks = budget_marks(g, detail);
            match min_named(g.resources@, name, 0) {
                None => ResolvedView {
                    resolve_id: "<unresolved>"@,
                    confidence: "error_fallback"@,
                    related: related,
                    truncated_sections: marks,
                    ..base
                },
                Some(m) => ResolvedView {
                    qualified_name: qualify(m.namespace@, m.name@),
                    resolve_id: m.id@,
                    confidence: if count_named(g.resources@, name, 0) == 1 {
                        "exact"@
                    } else {
                        "ambiguous"@
                    },
                    badges: if count_named(g.resources@, name, 0) == 1 {
                        Seq::empty()
                    } else {
                        seq!["ambiguous"@]
                    },
                    facts: if count_named(g.resources@, name, 0) == 1 {
                        seq![("namespace"@, m.namespace@)] + (match m.unit_symbol {
                            Some(u) => seq![("unit"@, u@)],
                            None => Seq::empty(),
                        })
                    } else {
                        Seq::empty()
                    },
                    related: related,
                    truncated_sections: marks,
                    ..base
                },
            }
        },
    }
}

/// Resolves a resource occurrence against the graph model.
pub fn resolve_resource(name: &str, graph: Option<&GraphModel>, detail: DetailLevel) -> (r:
    ResolvedSymbol)
    ensures
        r@ =~= spec_resolve_resource(name@, opt_g(graph), detail),
{
    let mut out = ResolvedSymbol {
        name: String::from_str(name),
        kind_label: String::from_str("Resource"),
        qualified_name: String::from_str(name),
        resolve_id: String::from_str("<no-graph>"),
        confidence: String::from_str("no-graph"),
        signature: exec_quoted_signature("Resource", name),
        summary: String::from_str("DomainForge resource"),
        badges: one_string("unresolved"),
        facts: Vec::new(),
        related: Vec::new(),
        truncated_sections: Vec::new(),
    };
    let g = match graph {
        None => {
            return out;
        },
        Some(g) => g,
    };
    if detail != DetailLevel::Core {
        let n = if g.flows.len() <= MAX_FLOW_SCAN {
            g.flows.len()
        } else {
            MAX_FLOW_SCAN
        };
        let keys = exec_resource_scan(g, name, n);
        out.related = exec_related_of(&keys, "Entity");
        if g.flows.len() > MAX_FLOW_SCAN {
            out.truncated_sections = one_string("budget_exceeded");
        }
    }
    proof {
        lemma_min_named_some(g.resources@, name@, 0);
        assert(out.truncated_sections.deep_view() =~= budget_marks(*g, detail));
    }
    let c = exec_count_named(&g.resources, name, 0);
    match exec_min_named(&g.resources, name, 0) {
        None => {
            out.resolve_id = String::from_str("<unresolved>");
            out.confidence = String::from_str("error_fallback");
            out
        },
        Some(j) => {
            let m = &g.resources[j];
            out.qualified_name = exec_qualify(m.namespace.as_str(), m.name.as_str());
            out.resolve_id = m.id.clone();
            if c == 1 {
                out.confidence = String::from_str("exact");
                out.badges = Vec::new();
                let mut facts: Vec<(String, String)> = Vec::new();
                facts.push((String::from_str("namespace"), m.namespace.clone()));
                match &m.unit_symbol {
                    Some(u) => {
                        facts.push((String::from_str("unit"), u.clone()));
                    },
                    None => (),
                }
                proof {
                    assert(facts.deep_view() =~= seq![("namespace"@, m.namespace@)] + (
                    match g.resources@[j as int].unit_symbol {
                        Some(u) => seq![("unit"@, u@)],
                        None => Seq::<(Seq<char>, Seq<char>)>::empty(),
                    }));
                }
                out.facts = facts;
            } else {
                out.confidence = String::from_str("ambiguous");
                out.badges = one_string("ambiguous");
            }
            out
        },
    }
}

/// Resolution of an instance occurrence: a point lookup by name, with
/// the owning entity type and field count as facts and the entity type
/// related at `standard` or `deep` detail.
pub open spec fn spec_resolve_instance(
    name: Seq<char>,
    g: Option<GraphModel>,
    detail: DetailLevel,
) -> ResolvedView {
    let base = ResolvedView {
        name: name,
        kind_label: "Instance"@,
        qualified_name: name,
        resolve_id: if g is Some {
            "<unresolved>"@
        } else {
            "<no-graph>"@
        },
        confidence: if g is Some {
            "error_fallback"@
        } else {
            "no-graph"@
        },
        signature: "Instance "@ + name + " of \"\u{2026}\""@,
        summary: "DomainForge entity instance"@,
        badges: seq!["unresolved"@],
        facts: Seq::empty(),
        related: Seq::empty(),
        truncated_sections: Seq::empty(),
    };
    match g {
        None => base,
        Some(g) => match first_instance(g.instances@, name, 0) {
            None => base,
            Some(inst) => ResolvedView {
                qualified_name: qualify(inst.namespace@, inst.name@),
                resolve_id: inst.id@,
                confidence: "exact"@,
                badges: Seq::empty(),
                facts: seq![("of"@, inst.entity_type@)] + seq![
                    ("fields"@, crate::text::spec_u64_dec(inst.field_count as int)),
                ],
                related: if detail != DetailLevel::Core {
                    seq![
                        RelView {
                            qualified_name: inst.entity_type@,
                            kind: "Entity"@,
                            relevance_score: 10,
                        },
                    ]
                } else {
                    Seq::empty()
                },
                ..base
            },
        },
    }
}

/// Resolves an instance occurrence against the graph model.
pub fn resolve_instance(name: &str, graph: Option<&GraphModel>, detail: DetailLevel) -> (r:
    ResolvedSymbol)
    ensures
        r@ =~= spec_resolve_instance(name@, opt_g(graph), detail),
{
    let mut signature = String::from_str("Instance ");
    signature.append(name);
    signature.append(" of \"\u{2026}\"");
    let mut out = ResolvedSymbol {
        name: String::from_str(name),
        kind_label: String::from_str("Instance"),
        qualified_name: String::from_str(name),
        resolve_id: String::from_str("<no-graph>"),
        confidence: String::from_str("no-graph"),
        signature,
        summary: String::from_str("DomainForge entity instance"),
        badges: one_string("unresolved"),
        facts: Vec::new(),
        related: Vec::new(),
        truncated_sections: Vec::new(),
    };
    proof {
        assert(out.signature@ =~= "Instance "@ + name@ + " of \"\u{2026}\""@);
    }
    let g = match graph {
        None => {
            return out;
        },
        Some(g) => g,
    };
    out.resolve_id = String::from_str("<unresolved>");
    out.confidence = String::from_str("error_fallback");
    match exec_first_instance(&g.instances, name, 0) {
        None => out,
        Some(j) => {
            let inst = &g.instances[j];
            out.qualified_name = exec_qualify(inst.namespace.as_str(), inst.name.as_str());
            out.resolve_id = inst.id.clone();
            out.confidence = String::from_str("exact");
            out.badges = Vec::new();
            let mut facts: Vec<(String, String)> = Vec::new();
            facts.push((String::from_str("of"), inst.entity_type.clone()));
            facts.push((String::from_str("fields"), crate::text::usize_to_dec(inst.field_count)));
            proof {
                assert(facts.deep_view() =~= seq![("of"@, inst.entity_type@)] + seq![
                    ("fields"@, crate::text::spec_u64_dec(inst.field_count as int)),
                ]);
            }
            out.facts = facts;
            if detail != DetailLevel::Core {
                let mut related: Vec<HoverRelated> = Vec::new();
                related.push(
                    HoverRelated {
                        qualified_name: inst.entity_type.clone(),
                        kind: String::from_str("Entity"),
                        relevance_score: 10,
                    },
                );
                proof {
                    assert(related.deep_view() =~= seq![
                        RelView {
                            qualified_name: inst.entity_type@,
                            kind: "Entity"@,
                            relevance_score: 10,
                        },
                    ]);
                }
                out.related = related;
            }
            out
        },
    }
}

/// The expression preview: capped at 80 characters, with an ellipsis
/// marker when cut.
pub open spec fn expr_preview(e: Seq<char>) -> Seq<char> {
    if e.len() > 80 {
        e.subrange(0, 77).push('\u{2026}')
    } else {
        e
    }
}

/// Builds the capped expression preview.
fn exec_expr_preview(e: &str) -> (r: String)
    ensures
        r@ == expr_preview(e@),
{
    let n = e.unicode_len();
    if n > 80 {
        let head = e.substring_char(0, 77);
        let mut s = String::from_str(head);
        s.append("\u{2026}");
        proof {
            reveal_strlit("\u{2026}");
            assert(s@ =~= e@.subrange(0, 77).push('\u{2026}'));
        }
        s
    } else {
        String::from_str(e)
    }
}

/// Resolution of a policy occurrence: modality, rule kind, priority and
/// a capped expression preview for a unique match.
pub open spec fn spec_resolve_policy(name: Seq<char>, g: Option<GraphModel>) -> ResolvedView {
    let base = ResolvedView {
        name: name,
        kind_label: "Policy"@,
        qualified_name: name,
        resolve_id: "<no-graph>"@,
        confidence: "no-graph"@,
        signature: "Policy "@ + name + " as: \u{2026}"@,
        summary: "DomainForge policy (business rule)"@,
        badges: seq!["unresolved"@],
        facts: Seq::empty(),
        related: Seq::empty(),
        truncated_sections: Seq::empty(),
    };
    match g {
        None => base,
        Some(g) => match min_named(g.policies@, name, 0) {
            None => ResolvedView {
                resolve_id: "<unresolved>"@,
                confidence: "error_fallback"@,
                ..base
            },
            Some(m) => if count_named(g.policies@, name, 0) == 1 {
                ResolvedView {
                    qualified_name: qualify(m.namespace@, m.name@),
                    resolve_id: m.id@,
                    confidence: "exact"@,
                    badges: Seq::empty(),
                    facts: seq![("namespace"@, m.namespace@)] + (match m.modality {
                        Some(v) => seq![("modality"@, v@)],
                        None => Seq::empty(),
                    }) + (match m.kind_label {
                        Some(v) => seq![("kind"@, v@)],
                        None => Seq::empty(),
                    }) + (match m.priority {
                        Some(v) => seq![("priority"@, crate::text::spec_i64_dec(v as int))],
                        None => Seq::empty(),
                    }),
                    signature: match m.expression {
                        Some(e) => "Policy "@ + name + " as:\n    "@ + expr_preview(e@),
                        None => "Policy "@ + name + " as: \u{2026}"@,
                    },
                    ..base
                }
            } else {
                ResolvedView {
                    qualified_name: qualify(m.namespace@, m.name@),
                    resolve_id: m.id@,
                    confidence: "ambiguous"@,
                    badges: seq!["ambiguous"@],
                    ..base
                }
            },
        },
    }
}

/// Resolves a policy occurrence against the graph model.
pub fn resolve_policy(name: &str, graph: Option<&GraphModel>) -> (r: ResolvedSymbol)
    ensures
        r@ =~= spec_resolve_policy(name@, opt_g(graph)),
{
    let mut signature = String::from_str("Policy ");
    signature.append(name);
    signature.append(" as: \u{2026}");
    let mut out = ResolvedSymbol {
        name: String::from_str(name),
        kind_label: String::from_str("Policy"),
        qualified_name: String::from_str(name),
        resolve_id: String::from_str("<no-graph>"),
        confidence: String::from_str("no-graph"),
        signature,
        summary: String::from_str("DomainForge policy (business rule)"),
        badges: one_string("unresolved"),
        facts: Vec::new(),
        related: Vec::new(),
        truncated_sections: Vec::new(),
    };
    proof {
        assert(out.signature@ =~= "Policy "@ + name@ + " as: \u{2026}"@);
    }
    let g = match graph {
        None => {
            return out;
        },
        Some(g) => g,
    };
    proof {
        lemma_min_named_some(g.policies@, name@, 0);
    }
    let c = exec_count_named(&g.policies, name, 0);
    match exec_min_named(&g.policies, name, 0) {
        None => {
            out.resolve_id = String::from_str("<unresolved>");
            out.confidence = String::from_str("error_fallback");
            out
        },
        Some(j) => {
            let m = &g.policies[j];
            out.qualified_name = exec_qualify(m.namespace.as_str(), m.name.as_str());
            out.resolve_id = m.id.clone();
            if c == 1 {
                let mut facts: Vec<(String, String)> = Vec::new();
                facts.push((String::from_str("namespace"), m.namespace.clone()));
                out.confidence = String::from_str("exact");
                out.badges = Vec::new();
                match &m.modality {
                    Some(v) => {
                        facts.push((String::from_str("modality"), v.clone()));
                    },
                    None => (),
                }
                match &m.kind_label {
                    Some(v) => {
                        facts.push((String::from_str("kind"), v.clone()));
                    },
                    None => (),
                }
                match &m.priority {
                    Some(v) => {
                        facts.push((String::from_str("priority"), crate::text::i32_to_dec(*v)));
                    },
                    None => (),
                }
                match &m.expression {
                    Some(e) => {
                        let mut sig = String::from_str("Policy ");
                        sig.append(name);
                        sig.append(" as:\n    ");
                        let preview = exec_expr_preview(e.as_str());
                        sig.append(preview.as_str());
                        proof {
                            assert(sig@ =~= "Policy "@ + name@ + " as:\n    "@ + expr_preview(
                                g.policies@[j as int].expression->0@,
                            ));
                        }
                        out.signature = sig;
                    },
                    None => (),
                }
                proof {
                    let mm = g.policies@[j as int];
                    assert(facts.deep_view() =~= seq![("namespace"@, mm.namespace@)] + (
                    match mm.modality {
                        Some(v) => seq![("modality"@, v@)],
                        None => Seq::<(Seq<char>, Seq<char>)>::empty(),
                    }) + (match mm.kind_label {
                        Some(v) => seq![("kind"@, v@)],
                        None => Seq::<(Seq<char>, Seq<char>)>::empty(),
                    }) + (match mm.priority {
                        Some(v) => seq![("priority"@, crate::text::spec_i64_dec(v as int))],
                        None => Seq::<(Seq<char>, Seq<char>)>::empty(),
                    }));
                }
                out.facts = facts;
                out
            } else {
                out.confidence = String::from_str("ambiguous");
                out.badges = one_string("ambiguous");
                out
            }
        },
    }
}

/// The first definition carrying the name in enumeration order, from
/// `i` on (the unit lookup a flow hover makes).
pub open spec fn first_named(ds: Seq<DefRec>, name: Seq<char>, i: int) -> Option<DefRec>
    decreases ds.len() - i,
{
    if i < 0 || i >= ds.len() {
        None
    } else if ds[i].name@ == name {
        Some(ds[i])
    } else {
        first_named(ds, name, i + 1)
    }
}

fn exec_first_named(ds: &Vec<DefRec>, name: &str, i: usize) -> (r: Option<usize>)
    requires
        i <= ds@.len(),
    ensures
        match r {
            Some(j) => i <= j < ds@.len() && first_named(ds@, name@, i as int) == Some(
                ds@[j as int],
            ),
            None => first_named(ds@, name@, i as int) is None,
        },
    decreases ds@.len() - i,
{
    if i >= ds.len() {
        return None;
    }
    if str_eq(ds[i].name.as_str(), name) {
        Some(i)
    } else {
        exec_first_named(ds, name, i + 1)
    }
}

/// The flow-hover signature, with the optional quantity.
pub open spec fn flow_signature(
    res: Seq<char>,
    from: Seq<char>,
    to: Seq<char>,
    q: Option<Seq<char>>,
) -> Seq<char> {
    let head = "Flow \""@ + res + "\" from \""@ + from + "\" to \""@ + to + "\""@;
    match q {
        Some(qv) => head + " quantity "@ + qv,
        None => head,
    }
}

/// Resolution of a flow occurrence: no graph lookup, but the matching
/// flow declaration of the snapshot, with its operands as facts and the
/// resource's unit symbol when the graph resolves it.
pub open spec fn spec_resolve_flow(
    range: crate::symbols::ByteRange,
    flows: Seq<crate::symbols::FlowView>,
    g: Option<GraphModel>,
) -> ResolvedView {
    let d = crate::index::spec_flow_at_from(flows, range, 0);
    let res = match d {
        Some(f) => f.resource,
        None => crate::index::unknown_text(),
    };
    let from = match d {
        Some(f) => f.from_entity,
        None => crate::index::unknown_text(),
    };
    let to = match d {
        Some(f) => f.to_entity,
        None => crate::index::unknown_text(),
    };
    let q = match d {
        Some(f) => f.quantity,
        None => None,
    };
    ResolvedView {
        name: "Flow"@,
        kind_label: "Flow"@,
        qualified_name: "Flow "@ + from + " -> "@ + to + " ("@ + res + ")"@,
        resolve_id: crate::index::spec_flow_name(range.start as int, range.end as int),
        confidence: if d is Some {
            "exact"@
        } else {
            "error_fallback"@
        },
        signature: flow_signature(res, from, to, q),
        summary: "DomainForge flow"@,
        badges: Seq::empty(),
        facts: seq![("resource"@, res)] + seq![("from"@, from)] + seq![("to"@, to)] + (match q {
            Some(qv) => seq![("quantity"@, qv)],
            None => Seq::empty(),
        }) + (match g {
            Some(g) => match first_named(g.resources@, res, 0) {
                Some(r) => match r.unit_symbol {
                    Some(u) => seq![("unit"@, u@)],
                    None => Seq::empty(),
                },
                None => Seq::empty(),
            },
            None => Seq::empty(),
        }),
        related: Seq::empty(),
        truncated_sections: Seq::empty(),
    }
}

/// Resolves a flow occurrence from the snapshot's flow declarations.
pub fn resolve_flow(
    range: crate::symbols::ByteRange,
    index: &crate::index::SemanticIndex,
    graph: Option<&GraphModel>,
) -> (r: ResolvedSymbol)
    ensures
        r@ =~= spec_resolve_flow(range, index.flows.deep_view(), opt_g(graph)),
{
    let decl = index.flow_decl_for_range(range);
    let found = decl.is_some();
    let (resource, from_entity, to_entity, quantity) = match decl {
        Some(f) => (f.resource, f.from_entity, f.to_entity, f.quantity),
        None => {
            let u0 = crate::index::unknown_string_text();
            let u1 = crate::index::unknown_string_text();
            let u2 = crate::index::unknown_string_text();
            (u0, u1, u2, None)
        },
    };
    let mut qualified = String::from_str("Flow ");
    qualified.append(from_entity.as_str());
    qualified.append(" -> ");
    qualified.append(to_entity.as_str());
    qualified.append(" (");
    qualified.append(resource.as_str());
    qualified.append(")");
    let mut resolve_id = String::from_str("flow@");
    resolve_id.append(crate::text::usize_to_dec(range.start).as_str());
    resolve_id.append("..");
    resolve_id.append(crate::text::usize_to_dec(range.end).as_str());
    proof {
        reveal_strlit("flow@");
        reveal_strlit("..");
        assert(resolve_id@ =~= crate::index::spec_flow_name(range.start as int, range.end as int));
    }
    let mut signature = String::from_str("Flow \"");
    signature.append(resource.as_str());
    signature.append("\" from \"");
    signature.append(from_entity.as_str());
    signature.append("\" to \"");
    signature.append(to_entity.as_str());
    signature.append("\"");
    match &quantity {
        Some(qv) => {
            signature.append(" quantity ");
            signature.append(qv.as_str());
        },
        None => (),
    }
    let mut facts: Vec<(String, String)> = Vec::new();
    facts.push((String::from_str("resource"), resource.clone()));
    facts.push((String::from_str("from"), from_entity.clone()));
    facts.push((String::from_str("to"), to_entity.clone()));
    match &quantity {
        Some(qv) => {
            facts.push((String::from_str("quantity"), qv.clone()));
        },
        None => (),
    }
    match graph {
        Some(g) => {
            match exec_first_named(&g.resources, resource.as_str(), 0) {
                Some(j) => {
                    match &g.resources[j].unit_symbol {
                        Some(u) => {
                            facts.push((String::from_str("unit"), u.clone()));
                        },
                        None => (),
                    }
                },
                None => (),
            }
        },
        None => (),
    }
    let out = ResolvedSymbol {
        name: String::from_str("Flow"),
        kind_label: String::from_str("Flow"),
        qualified_name: qualified,
        resolve_id,
        confidence: if found {
            String::from_str("exact")
        } else {
            String::from_str("error_fallback")
        },
        signature,
        summary: String::from_str("DomainForge flow"),
        badges: Vec::new(),
        facts,
        related: Vec::new(),
        truncated_sections: Vec::new(),
    };
    proof {
        let sv = spec_resolve_flow(range, index.flows.deep_view(), opt_g(graph));
        assert(out.facts.deep_view() =~= sv.facts);
        assert(out@ =~= sv);
    }
    out
}

/// Resolves a role occurrence.
pub fn resolve_role(name: &str, graph: Option<&GraphModel>) -> (r: ResolvedSymbol)
    ensures
        r@ =~= spec_resolve_simple(
            name@,
            match opt_g(graph) {
                Some(g) => Some(g.roles@),
                None => None,
            },
            "Role"@,
            "DomainForge role"@,
            true,
        ),
{
    match graph {
        Some(g) => resolve_simple(name, Some(&g.roles), "Role", "DomainForge role", true),
        None => resolve_simple(name, None, "Role", "DomainForge role", true),
    }
}

/// Resolves a relation occurrence.
pub fn resolve_relation(name: &str, graph: Option<&GraphModel>) -> (r: ResolvedSymbol)
    ensures
        r@ =~= spec_resolve_simple(
            name@,
            match opt_g(graph) {
                Some(g) => Some(g.relations@),
                None => None,
            },
            "Relation"@,
            "DomainForge relation"@,
            true,
        ),
{
    match graph {
        Some(g) => resolve_simple(name, Some(&g.relations), "Relation", "DomainForge relation", true),
        None => resolve_simple(name, None, "Relation", "DomainForge relation", true),
    }
}

/// Resolves a pattern occurrence.
pub fn resolve_pattern(name: &str, graph: Option<&GraphModel>) -> (r: ResolvedSymbol)
    ensures
        r@ =~= spec_resolve_simple(
            name@,
            match opt_g(graph) {
                Some(g) => Some(g.patterns@),
                None => None,
            },
            "Pattern"@,
            "DomainForge pattern"@,
            false,
        ),
{
    match graph {
        Some(g) => resolve_simple(name, Some(&g.patterns), "Pattern", "DomainForge pattern", false),
        None => resolve_simple(name, None, "Pattern", "DomainForge pattern", false),
    }
}

/// What resolving one occurrence yields, over the whole closed set of
/// symbol kinds.
pub open spec fn spec_resolve_occurrence(
    occ: crate::symbols::OccView,
    flows: Seq<crate::symbols::FlowView>,
    g: Option<GraphModel>,
    detail: DetailLevel,
) -> ResolvedView {
    match occ.kind {
        crate::symbols::SymbolKind::Entity => spec_resolve_entity(occ.name, g, detail),
        crate::symbols::SymbolKind::Resource => spec_resolve_resource(occ.name, g, detail),
        crate::symbols::SymbolKind::Flow => spec_resolve_flow(occ.range, flows, g),
        crate::symbols::SymbolKind::Role => spec_resolve_simple(
            occ.name,
            match g {
                Some(g) => Some(g.roles@),
                None => None,
            },
            "Role"@,
            "DomainForge role"@,
            true,
        ),
        crate::symbols::SymbolKind::Relation => spec_resolve_simple(
            occ.name,
            match g {
                Some(g) => Some(g.relations@),
                None => None,
            },
            "Relation"@,
            "DomainForge relation"@,
            true,
        ),
        crate::symbols::SymbolKind::Pattern => spec_resolve_simple(
            occ.name,
            match g {
                Some(g) => Some(g.patterns@),
                None => None,
            },
            "Pattern"@,
            "DomainForge pattern"@,
            false,
        ),
        crate::symbols::SymbolKind::Instance => spec_resolve_instance(occ.name, g, detail),
        crate::symbols::SymbolKind::Policy => spec_resolve_policy(occ.name, g),
    }
}

/// Resolves one occurrence: an exhaustive dispatch over the closed set
/// of symbol kinds.
pub fn resolve_occurrence(
    occ: &crate::symbols::Occurrence,
    index: &crate::index::SemanticIndex,
    graph: Option<&GraphModel>,
    detail: DetailLevel,
) -> (r: ResolvedSymbol)
    ensures
        r@ =~= spec_resolve_occurrence(occ@, index.flows.deep_view(), opt_g(graph), detail),
{
    match occ.kind {
        crate::symbols::SymbolKind::Entity => resolve_entity(occ.name.as_str(), graph, detail),
        crate::symbols::SymbolKind::Resource => resolve_resource(occ.name.as_str(), graph, detail),
        crate::symbols::SymbolKind::Flow => resolve_flow(occ.range, index, graph),
        crate::symbols::SymbolKind::Role => resolve_role(occ.name.as_str(), graph),
        crate::symbols::SymbolKind::Relation => resolve_relation(occ.name.as_str(), graph),
        crate::symbols::SymbolKind::Pattern => resolve_pattern(occ.name.as_str(), graph),
        crate::symbols::SymbolKind::Instance => resolve_instance(occ.name.as_str(), graph, detail),
        crate::symbols::SymbolKind::Policy => resolve_policy(occ.name.as_str(), graph),
    }
}

/// Ambiguity flagging: two or more definitions sharing the hovered name
/// resolve with confidence `ambiguous` and a non-empty `ambiguous`
/// badge, never `exact`.
pub proof fn lemma_ambiguity_flagged(name: Seq<char>, g: GraphModel, detail: DetailLevel)
    requires
        count_named(g.entities@, name, 0) >= 2,
    ensures
        spec_resolve_entity(name, Some(g), detail).confidence == "ambiguous"@,
        spec_resolve_entity(name, Some(g), detail).badges == seq!["ambiguous"@],
        spec_resolve_entity(name, Some(g), detail).confidence != "exact"@,
{
    lemma_min_named_some(g.entities@, name, 0);
    reveal_strlit("ambiguous");
    reveal_strlit("exact");
    assert("ambiguous"@.len() != "exact"@.len());
}

/// Detail level gating: a `core` hover computes no related symbols; at
/// `standard` or `deep`, related symbols appear exactly when the flow
/// scan finds co-occurring flows.
pub proof fn lemma_detail_gating(name: Seq<char>, g: GraphModel, detail: DetailLevel)
    ensures
        spec_resolve_entity(name, Some(g), DetailLevel::Core).related.len() == 0,
        detail != DetailLevel::Core ==> (spec_resolve_entity(name, Some(g), detail).related.len()
            > 0 <==> entity_scan_keys(g, name, scan_bound(g)).len() > 0),
{
    if detail != DetailLevel::Core {
        let keys = entity_scan_keys(g, name, scan_bound(g));
        crate::order::lemma_sort_strs_sorted(keys);
        vstd::seq_lib::lemma_multiset_commutative(spec_sort_strs(keys), Seq::empty());
        assert(spec_sort_strs(keys).len() == keys.len()) by {
            assert(spec_sort_strs(keys).to_multiset() == keys.to_multiset());
            spec_sort_strs(keys).to_multiset_ensures();
            keys.to_multiset_ensures();
        }
        if keys.len() > 0 {
            crate::order::lemma_dedup_strs_nonempty(spec_sort_strs(keys));
        } else {
            assert(spec_sort_strs(keys).len() == 0);
        }
    }
}

/// Flow hover unit fact: when the flow declaration matches the hovered
/// range and its resource resolves in the graph with a unit symbol, the
/// facts close with that unit.
pub proof fn lemma_flow_unit_fact(
    range: crate::symbols::ByteRange,
    flows: Seq<crate::symbols::FlowView>,
    g: GraphModel,
)
    requires
        crate::index::spec_flow_at_from(flows, range, 0) is Some,
        ({
            let res = crate::index::spec_flow_at_from(flows, range, 0)->0.resource;
            first_named(g.resources@, res, 0) is Some && first_named(
                g.resources@,
                res,
                0,
            )->0.unit_symbol is Some
        }),
    ensures
        ({
            let res = crate::index::spec_flow_at_from(flows, range, 0)->0.resource;
            let unit = first_named(g.resources@, res, 0)->0.unit_symbol->0;
            let facts = spec_resolve_flow(range, flows, Some(g)).facts;
            facts.len() >= 4 && facts.last() == ("unit"@, unit@)
        }),
{
}
} // verus!
