//! Plain-value model of the semantic graph: what symbol resolution reads
//! of entities, resources, roles, relations, patterns, policies,
//! instances and flows, with the trusted bridge that fills it from the
//! outside graph.

use vstd::prelude::*;

verus! {

/// One definition the graph holds, as plain values. The optional fields
/// are filled per kind: version, replaces, changes and role names for
/// entities; the unit symbol for resources; modality, kind, priority and
/// expression text for policies.
#[derive(Debug)]
pub struct DefRec {
    pub id: String,
    pub name: String,
    pub namespace: String,
    pub version: Option<String>,
    pub replaces: Option<String>,
    pub changes: Vec<String>,
    pub role_names: Vec<String>,
    pub unit_symbol: Option<String>,
    pub modality: Option<String>,
    pub kind_label: Option<String>,
    pub priority: Option<i32>,
    pub expression: Option<String>,
}

/// One entity instance the graph holds.
#[derive(Debug)]
pub struct InstanceRec {
    pub id: String,
    pub name: String,
    pub namespace: String,
    pub entity_type: String,
    pub field_count: usize,
}

/// One flow the graph holds, by the identifiers of its operands.
#[derive(Debug)]
pub struct FlowRec {
    pub resource_id: String,
    pub from_id: String,
    pub to_id: String,
}

/// The whole graph as plain values, in the graph's own enumeration order.
#[derive(Debug)]
pub struct GraphModel {
    pub entities: Vec<DefRec>,
    pub resources: Vec<DefRec>,
    pub roles: Vec<DefRec>,
    pub relations: Vec<DefRec>,
    pub patterns: Vec<DefRec>,
    pub policies: Vec<DefRec>,
    pub instances: Vec<InstanceRec>,
    pub flows: Vec<FlowRec>,
}

#[verifier::external_type_specification]
#[verifier::external_body]
pub struct ExGraph(sea_core::Graph);

pub uninterp spec fn entities_of(g: sea_core::Graph) -> Seq<DefRec>;

pub uninterp spec fn resources_of(g: sea_core::Graph) -> Seq<DefRec>;

pub uninterp spec fn roles_of(g: sea_core::Graph) -> Seq<DefRec>;

pub uninterp spec fn relations_of(g: sea_core::Graph) -> Seq<DefRec>;

pub uninterp spec fn patterns_of(g: sea_core::Graph) -> Seq<DefRec>;

pub uninterp spec fn policies_of(g: sea_core::Graph) -> Seq<DefRec>;

pub uninterp spec fn instances_of(g: sea_core::Graph) -> Seq<InstanceRec>;

pub uninterp spec fn flows_of(g: sea_core::Graph) -> Seq<FlowRec>;

fn blank_rec(id: String, name: String, namespace: String) -> (r: DefRec)
    ensures
        r.id == id && r.name == name && r.namespace == namespace,
        r.version is None && r.replaces is None && r.unit_symbol is None,
        r.modality is None && r.kind_label is None && r.priority is None,
        r.expression is None,
        r.changes@.len() == 0 && r.role_names@.len() == 0,
{
    DefRec {
        id,
        name,
        namespace,
        version: None,
        replaces: None,
        changes: Vec::new(),
        role_names: Vec::new(),
        unit_symbol: None,
        modality: None,
        kind_label: None,
        priority: None,
        expression: None,
    }
}

/// Relies on `Graph::all_entities` and the entity accessors `id`, `name`,
/// `namespace`, `version`, `replaces` and `changes`, plus
/// `Graph::role_names_for_entity`: one record per entity, fields moved
/// over one for one, in the graph's enumeration order, which is part of
/// the graph value (named `entities_of`).
#[verifier::external_body]
fn graph_entities(g: &sea_core::Graph) -> (r: Vec<DefRec>)
    ensures
        r@ == entities_of(*g),
{
    let mut out = Vec::new();
    for e in g.all_entities() {
        let mut r = blank_rec(e.id().to_string(), e.name().to_string(), e.namespace().to_string());
        r.version = e.version().map(|v| v.to_string());
        r.replaces = e.replaces().map(|x| x.to_string());
        r.changes = e.changes().to_vec();
        r.role_names = g.role_names_for_entity(e.id());
        out.push(r);
    }
    out
}

/// Relies on `Graph::all_resources` and the resource accessors `id`,
/// `name`, `namespace` and `unit_symbol` (named `resources_of`); every
/// record carries a unit symbol, since the accessor is total.
#[verifier::external_body]
fn graph_resources(g: &sea_core::Graph) -> (r: Vec<DefRec>)
    ensures
        r@ == resources_of(*g),
        forall|i: int| 0 <= i < r@.len() ==> (#[trigger] r@[i]).unit_symbol is Some,
{
    let mut out = Vec::new();
    for e in g.all_resources() {
        let mut r = blank_rec(e.id().to_string(), e.name().to_string(), e.namespace().to_string());
        r.unit_symbol = Some(e.unit_symbol().to_string());
        out.push(r);
    }
    out
}

/// Relies on `Graph::all_roles` and the role accessors `id`, `name` and
/// `namespace` (named `roles_of`).
#[verifier::external_body]
fn graph_roles(g: &sea_core::Graph) -> (r: Vec<DefRec>)
    ensures
        r@ == roles_of(*g),
{
    let mut out = Vec::new();
    for e in g.all_roles() {
        out.push(blank_rec(e.id().to_string(), e.name().to_string(), e.namespace().to_string()));
    }
    out
}

/// Relies on `Graph::all_relations` and the relation accessors `id`,
/// `name` and `namespace` (named `relations_of`).
#[verifier::external_body]
fn graph_relations(g: &sea_core::Graph) -> (r: Vec<DefRec>)
    ensures
        r@ == relations_of(*g),
{
    let mut out = Vec::new();
    for e in g.all_relations() {
        out.push(blank_rec(e.id().to_string(), e.name().to_string(), e.namespace().to_string()));
    }
    out
}

/// Relies on `Graph::all_patterns` and the pattern accessors `id`, `name`
/// and `namespace` (named `patterns_of`).
#[verifier::external_body]
fn graph_patterns(g: &sea_core::Graph) -> (r: Vec<DefRec>)
    ensures
        r@ == patterns_of(*g),
{
    let mut out = Vec::new();
    for e in g.all_patterns() {
        out.push(blank_rec(e.id().to_string(), e.name().to_string(), e.namespace().to_string()));
    }
    out
}

/// Relies on `Graph::all_policies` and the public policy fields and
/// `expression` accessor; modality and kind carry their debug names, the
/// expression its display rendering (named `policies_of`). Every record
/// fills the policy fields, since they are total on policies.
#[verifier::external_body]
fn graph_policies(g: &sea_core::Graph) -> (r: Vec<DefRec>)
    ensures
        r@ == policies_of(*g),
        forall|i: int|
            0 <= i < r@.len() ==> (#[trigger] r@[i]).modality is Some && r@[i].kind_label is Some
                && r@[i].priority is Some && r@[i].expression is Some,
{
    let mut out = Vec::new();
    for p in g.all_policies() {
        let mut r = blank_rec(p.id.to_string(), p.name.clone(), p.namespace.clone());
        r.modality = Some(format!("{:?}", p.modality));
        r.kind_label = Some(format!("{:?}", p.kind));
        r.priority = Some(p.priority);
        r.expression = Some(format!("{}", p.expression()));
        out.push(r);
    }
    out
}

/// Relies on `Graph::all_entity_instances` and the instance accessors
/// `id`, `name`, `namespace`, `entity_type` and `fields` (named
/// `instances_of`).
#[verifier::external_body]
fn graph_instances(g: &sea_core::Graph) -> (r: Vec<InstanceRec>)
    ensures
        r@ == instances_of(*g),
{
    let mut out = Vec::new();
    for e in g.all_entity_instances() {
        out.push(InstanceRec {
            id: e.id().to_string(),
            name: e.name().to_string(),
            namespace: e.namespace().to_string(),
            entity_type: e.entity_type().to_string(),
            field_count: e.fields().len(),
        });
    }
    out
}

/// Relies on `Graph::all_flows` and the flow accessors `resource_id`,
/// `from_id` and `to_id` (named `flows_of`).
#[verifier::external_body]
fn graph_flows(g: &sea_core::Graph) -> (r: Vec<FlowRec>)
    ensures
        r@ == flows_of(*g),
{
    let mut out = Vec::new();
    for f in g.all_flows() {
        out.push(FlowRec {
            resource_id: f.resource_id().to_string(),
            from_id: f.from_id().to_string(),
            to_id: f.to_id().to_string(),
        });
    }
    out
}

impl GraphModel {
    /// Reads the whole graph once into plain values: exactly the named
    /// per-kind contents of the graph. Everything the resolver computes
    /// from the model is verified against these records.
    pub fn from_graph(g: &sea_core::Graph) -> (r: GraphModel)
        ensures
            r.entities@ == entities_of(*g),
            r.resources@ == resources_of(*g),
            r.roles@ == roles_of(*g),
            r.relations@ == relations_of(*g),
            r.patterns@ == patterns_of(*g),
            r.policies@ == policies_of(*g),
            r.instances@ == instances_of(*g),
            r.flows@ == flows_of(*g),
            forall|i: int|
                0 <= i < r.resources@.len() ==> (#[trigger] r.resources@[i]).unit_symbol is Some,
    {
        GraphModel {
            entities: graph_entities(g),
            resources: graph_resources(g),
            roles: graph_roles(g),
            relations: graph_relations(g),
            patterns: graph_patterns(g),
            policies: graph_policies(g),
            instances: graph_instances(g),
            flows: graph_flows(g),
        }
    }
}

} // verus!
