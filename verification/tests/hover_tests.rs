//! Tests of hover building, resolution, serialization and rendering.

use domainforge_lsp::graphmodel::DefRec;
use domainforge_lsp::graphmodel::GraphModel;
use domainforge_lsp::hover::HoverBuildInput;
use domainforge_lsp::hover::HoverContext;
use domainforge_lsp::hover::HoverHeader;
use domainforge_lsp::hover::HoverLimits;
use domainforge_lsp::hover::HoverModel;
use domainforge_lsp::hover::HoverPlusResponse;
use domainforge_lsp::hover::HoverPosition;
use domainforge_lsp::hover::HoverPrimary;
use domainforge_lsp::hover::HoverRange;
use domainforge_lsp::hover::HoverScopeSummary;
use domainforge_lsp::hover::HoverSymbol;
use domainforge_lsp::hover::build_hover_model;
use domainforge_lsp::index::SemanticIndex;
use domainforge_lsp::json::hover_model_to_json;
use domainforge_lsp::json::response_to_json;
use domainforge_lsp::markdown::render_markdown;
use domainforge_lsp::position::LineIndex;
use domainforge_lsp::resolve::DetailLevel;

fn snapshot(source: &str) -> (LineIndex, SemanticIndex, GraphModel) {
    let graph = sea_core::parse_to_graph(source).unwrap();
    let index = SemanticIndex::build(source);
    let line_index = LineIndex::new(source);
    (line_index, index, GraphModel::from_graph(&graph))
}

#[test]
fn hover_model_is_deterministic_for_same_snapshot() {
    let source = r#"
Entity "Warehouse" in logistics
Entity "Factory" in logistics
Resource "Cameras" units in inventory
Flow "Cameras" from "Warehouse" to "Factory" quantity 10
"#;
    let (line_index, index, model) = snapshot(source);
    let uri = "file:///test.sea";

    let offset = source.find("\"Warehouse\"").unwrap() + 2;
    let position = line_index.position_of(offset);

    let m1 = build_hover_model(HoverBuildInput {
        uri,
        document_version: 1,
        position,
        config_hash: "cfg",
        detail_level: DetailLevel::Standard,
        line_index: &line_index,
        index: &index,
        graph: Some(&model),
    })
    .expect("hover model");
    let m2 = build_hover_model(HoverBuildInput {
        uri,
        document_version: 1,
        position,
        config_hash: "cfg",
        detail_level: DetailLevel::Standard,
        line_index: &line_index,
        index: &index,
        graph: Some(&model),
    })
    .expect("hover model");

    let j1 = hover_model_to_json(&m1);
    let j2 = hover_model_to_json(&m2);
    assert_eq!(j1, j2);
    assert!(j1.as_bytes().len() <= m1.limits.max_json_bytes);
}

#[test]
fn hover_id_is_a_digest_not_an_echo() {
    let source = "Entity \"Warehouse\"\n";
    let (line_index, index, model) = snapshot(source);
    let offset = source.find("\"Warehouse\"").unwrap() + 2;
    let position = line_index.position_of(offset);
    let m = build_hover_model(HoverBuildInput {
        uri: "file:///test.sea",
        document_version: 1,
        position,
        config_hash: "cfg",
        detail_level: DetailLevel::Standard,
        line_index: &line_index,
        index: &index,
        graph: Some(&model),
    })
    .expect("hover model");
    assert_eq!(m.id.len(), 64);
    assert!(m.id.chars().all(|c| c.is_ascii_hexdigit()));
    assert_ne!(m.id, "file:///test.sea");
}

#[test]
fn hover_markdown_includes_expected_facts_for_entity_resource_and_flow() {
    let source = r#"
Entity "Warehouse"
Entity "Factory"
Resource "Cameras" units
Flow "Cameras" from "Warehouse" to "Factory" quantity 10
"#;
    let (line_index, index, model) = snapshot(source);
    let uri = "file:///test.sea";

    let entity_offset = source.find("Entity \"Warehouse\"").unwrap() + "Entity \"".len() + 1;
    let entity_pos = line_index.position_of(entity_offset);
    let entity_model = build_hover_model(HoverBuildInput {
        uri,
        document_version: 1,
        position: entity_pos,
        config_hash: "cfg",
        detail_level: DetailLevel::Standard,
        line_index: &line_index,
        index: &index,
        graph: Some(&model),
    })
    .unwrap();
    let entity_md = render_markdown(&entity_model).markdown;
    assert!(entity_md.contains("**namespace**"));

    let res_offset = source.find("Resource \"Cameras\"").unwrap() + "Resource \"".len() + 1;
    let res_pos = line_index.position_of(res_offset);
    let res_model = build_hover_model(HoverBuildInput {
        uri,
        document_version: 1,
        position: res_pos,
        config_hash: "cfg",
        detail_level: DetailLevel::Standard,
        line_index: &line_index,
        index: &index,
        graph: Some(&model),
    })
    .unwrap();
    let res_md = render_markdown(&res_model).markdown;
    assert!(res_md.contains("**unit**"));

    let flow_offset = source.find("Flow \"Cameras\"").unwrap() + 1;
    let flow_pos = line_index.position_of(flow_offset);
    let flow_model = build_hover_model(HoverBuildInput {
        uri,
        document_version: 1,
        position: flow_pos,
        config_hash: "cfg",
        detail_level: DetailLevel::Standard,
        line_index: &line_index,
        index: &index,
        graph: Some(&model),
    })
    .unwrap();
    let flow_md = render_markdown(&flow_model).markdown;
    assert!(flow_md.contains("Flow \"Cameras\""));
    assert!(flow_md.contains("**from**"));
    assert!(flow_md.contains("**to**"));
}

#[test]
fn flow_hover_surfaces_operands_and_unit() {
    let source = r#"
Entity "Warehouse"
Entity "Factory"
Resource "Cameras" units
Flow "Cameras" from "Warehouse" to "Factory" quantity 10
"#;
    let (line_index, index, model) = snapshot(source);
    let flow_offset = source.find("Flow \"Cameras\"").unwrap() + 1;
    let flow_pos = line_index.position_of(flow_offset);
    let flow_model = build_hover_model(HoverBuildInput {
        uri: "file:///test.sea",
        document_version: 1,
        position: flow_pos,
        config_hash: "cfg",
        detail_level: DetailLevel::Standard,
        line_index: &line_index,
        index: &index,
        graph: Some(&model),
    })
    .unwrap();
    let facts = &flow_model.primary.facts;
    let has = |k: &str, v: &str| facts.iter().any(|(fk, fv)| fk == k && fv == v);
    assert!(has("resource", "Cameras"));
    assert!(has("from", "Warehouse"));
    assert!(has("to", "Factory"));
    assert!(has("quantity", "10"));
    assert!(facts.iter().any(|(fk, _)| fk == "unit"));
}

#[test]
fn related_symbols_are_sorted_deterministically() {
    let source = r#"
Entity "Warehouse"
Entity "Factory"
Resource "Cameras" units
Resource "Widgets" units
Flow "Cameras" from "Warehouse" to "Factory" quantity 10
Flow "Widgets" from "Warehouse" to "Factory" quantity 5
"#;
    let (line_index, index, model) = snapshot(source);
    let offset = source.find("Entity \"Warehouse\"").unwrap() + "Entity \"".len() + 1;
    let position = line_index.position_of(offset);
    let hover = build_hover_model(HoverBuildInput {
        uri: "file:///test.sea",
        document_version: 1,
        position,
        config_hash: "cfg",
        detail_level: DetailLevel::Standard,
        line_index: &line_index,
        index: &index,
        graph: Some(&model),
    })
    .unwrap();

    assert!(hover.related.len() >= 2);
    let a = &hover.related[0].qualified_name;
    let b = &hover.related[1].qualified_name;
    assert!(a <= b, "expected stable name ordering, got {a} then {b}");
}

#[test]
fn hover_detail_level_core_omits_related() {
    let source = r#"
Entity "Warehouse"
Entity "Factory"
Resource "Cameras" units
Flow "Cameras" from "Warehouse" to "Factory" quantity 10
"#;
    let (line_index, index, model) = snapshot(source);
    let offset = source.find("Entity \"Warehouse\"").unwrap() + "Entity \"".len() + 1;
    let position = line_index.position_of(offset);

    let core = build_hover_model(HoverBuildInput {
        uri: "file:///test.sea",
        document_version: 1,
        position,
        config_hash: "cfg",
        detail_level: DetailLevel::Core,
        line_index: &line_index,
        index: &index,
        graph: Some(&model),
    })
    .unwrap();
    assert!(core.related.is_empty());

    let standard = build_hover_model(HoverBuildInput {
        uri: "file:///test.sea",
        document_version: 1,
        position,
        config_hash: "cfg",
        detail_level: DetailLevel::Standard,
        line_index: &line_index,
        index: &index,
        graph: Some(&model),
    })
    .unwrap();
    assert!(!standard.related.is_empty());
}

#[test]
fn hovering_whitespace_returns_none() {
    let source = r#"
Entity "Warehouse"
"#;
    let (line_index, index, model) = snapshot(source);
    let hover = build_hover_model(HoverBuildInput {
        uri: "file:///test.sea",
        document_version: 1,
        position: domainforge_lsp::position::Position { line: 0, character: 0 },
        config_hash: "cfg",
        detail_level: DetailLevel::Standard,
        line_index: &line_index,
        index: &index,
        graph: Some(&model),
    });
    assert!(hover.is_none());
}

#[test]
fn hover_policy_shows_expected_metadata() {
    let source = r#"
@namespace "logistics"
@version "1.0.0"

Entity "Warehouse"
Policy all_named per Constraint Obligation priority 5 as:
    true
"#;
    let (line_index, index, model) = snapshot(source);
    let offset = source.find("all_named").unwrap() + 2;
    let position = line_index.position_of(offset);

    let hover = build_hover_model(HoverBuildInput {
        uri: "file:///test.sea",
        document_version: 1,
        position,
        config_hash: "cfg",
        detail_level: DetailLevel::Standard,
        line_index: &line_index,
        index: &index,
        graph: Some(&model),
    })
    .unwrap();

    assert_eq!(hover.symbol.kind, "Policy");
    assert_eq!(hover.symbol.name, "all_named");
    assert!(hover.primary.signature_or_shape.contains("Policy all_named"));
    assert!(hover.primary.facts.iter().any(|(k, _)| k == "modality"));
    assert!(hover.primary.facts.iter().any(|(k, _)| k == "kind"));
}

#[test]
fn ambiguous_name_is_flagged_never_exact() {
    let blank = |id: &str, name: &str, ns: &str| DefRec {
        id: id.to_string(),
        name: name.to_string(),
        namespace: ns.to_string(),
        version: None,
        replaces: None,
        changes: Vec::new(),
        role_names: Vec::new(),
        unit_symbol: None,
        modality: None,
        kind_label: None,
        priority: None,
        expression: None,
    };
    let model = GraphModel {
        entities: vec![blank("id-b", "X", "beta"), blank("id-a", "X", "alpha")],
        resources: Vec::new(),
        roles: Vec::new(),
        relations: Vec::new(),
        patterns: Vec::new(),
        policies: Vec::new(),
        instances: Vec::new(),
        flows: Vec::new(),
    };
    let r = domainforge_lsp::resolve::resolve_entity("X", Some(&model), DetailLevel::Standard);
    assert_eq!(r.confidence, "ambiguous");
    assert!(r.badges.iter().any(|b| b == "ambiguous"));
    assert_ne!(r.confidence, "exact");
    // the first candidate in deterministic (namespace, id) order is surfaced,
    // with all facts withheld
    assert_eq!(r.qualified_name, "alpha::X");
    assert!(r.facts.is_empty());
}

fn sample_model(summary: String, max_markdown_bytes: usize) -> HoverModel {
    HoverModel {
        schema_version: "1.0".to_string(),
        id: "id".to_string(),
        symbol: HoverSymbol {
            name: "X".to_string(),
            kind: "Entity".to_string(),
            qualified_name: "default::X".to_string(),
            uri: "file:///test".to_string(),
            range: HoverRange {
                start: HoverPosition { line: 0, character: 0 },
                end: HoverPosition { line: 0, character: 1 },
            },
            resolve_id: "rid".to_string(),
            resolution_confidence: "exact".to_string(),
        },
        context: HoverContext {
            document_version: 1,
            position: HoverPosition { line: 0, character: 0 },
            scope_summary: HoverScopeSummary {
                module: None,
                enclosing_rule: None,
                namespaces_in_scope: vec![],
            },
            config_hash: "cfg".to_string(),
        },
        primary: HoverPrimary {
            header: HoverHeader {
                display_name: "X".to_string(),
                kind_label: "Entity".to_string(),
                qualified_path: "default::X".to_string(),
            },
            signature_or_shape: "Entity \"X\"".to_string(),
            summary,
            badges: vec![],
            facts: vec![("k".to_string(), "v".to_string())],
        },
        related: vec![],
        limits: HoverLimits {
            max_markdown_bytes,
            max_json_bytes: 1024,
            truncated_sections: vec![],
        },
    }
}

#[test]
fn truncates_when_exceeding_max_bytes() {
    let model = sample_model("a".repeat(10_000), 256);
    let rendered = render_markdown(&model);
    assert!(rendered.markdown.as_bytes().len() <= 256 + 64);
    assert!(
        rendered.markdown.contains("\u{2026} truncated"),
        "should include truncation marker"
    );
}

#[test]
fn heading_order_is_stable() {
    let mut model = sample_model("line1\nline2\nline3\nline4".to_string(), 4096);
    model.primary.badges = vec!["ambiguous".to_string()];
    model.primary.facts = vec![("namespace".to_string(), "default".to_string())];
    model.related = vec![domainforge_lsp::resolve::HoverRelated {
        qualified_name: "default::Y".to_string(),
        kind: "Entity".to_string(),
        relevance_score: 1,
    }];
    model.symbol.resolution_confidence = "ambiguous".to_string();

    let rendered = render_markdown(&model).markdown;
    let sig = rendered.find("## Signature").unwrap();
    let sum = rendered.find("## Summary").unwrap();
    let facts = rendered.find("## Facts").unwrap();
    let diag = rendered.find("## Diagnostics").unwrap();
    let res = rendered.find("## Resolution").unwrap();
    let related = rendered.find("## Related").unwrap();
    assert!(sig < sum && sum < facts && facts < diag && diag < res && res < related);
    assert_eq!(rendered.matches("## Signature").count(), 1);
    assert_eq!(rendered.matches("```sea").count(), 1);
}

#[test]
fn hover_plus_response_serializes_with_required_fields() {
    let model = sample_model("summary".to_string(), 1024);
    let resp = HoverPlusResponse {
        model,
        markdown: Some("md".to_string()),
    };
    let json = response_to_json(&resp);
    assert!(json.contains("\"schema_version\""));
    assert!(json.contains("\"symbol\""));
    assert!(json.contains("\"primary\""));
    assert!(json.contains("\"limits\""));
    assert!(json.contains("\"markdown\""));
}

#[test]
fn json_limits_ladder_drops_related_then_facts() {
    let mut model = sample_model("s".to_string(), 1024);
    model.limits.max_json_bytes = 1;
    model.related = vec![domainforge_lsp::resolve::HoverRelated {
        qualified_name: "default::Y".to_string(),
        kind: "Entity".to_string(),
        relevance_score: 1,
    }];
    domainforge_lsp::hover::enforce_json_limits(&mut model);
    assert!(model.related.is_empty());
    assert!(model.primary.facts.is_empty());
    assert!(model
        .limits
        .truncated_sections
        .iter()
        .any(|m| m == "json"));
}

#[test]
fn json_escaping_round_trips_through_serde() {
    let mut model = sample_model("line\nwith \"quotes\" and \\ slashes \u{1F600}".to_string(), 1024);
    model.symbol.name = "tab\there".to_string();
    let json = hover_model_to_json(&model);
    let parsed: serde_json::Value = serde_json::from_str(&json).expect("well-formed JSON");
    assert_eq!(
        parsed["primary"]["summary"].as_str().unwrap(),
        "line\nwith \"quotes\" and \\ slashes \u{1F600}"
    );
    assert_eq!(parsed["symbol"]["name"].as_str().unwrap(), "tab\there");
}

#[test]
fn detail_level_parsing_defaults_to_standard() {
    assert_eq!(DetailLevel::parse(None), DetailLevel::Standard);
    assert_eq!(DetailLevel::parse(Some("core")), DetailLevel::Core);
    assert_eq!(DetailLevel::parse(Some("deep")), DetailLevel::Deep);
    assert_eq!(DetailLevel::parse(Some("anything")), DetailLevel::Standard);
}

#[test]
fn role_hover_carries_namespace_and_pattern_hover_no_facts() {
    let source = "Role \"Approver\"\nPattern \"Email\" matches \"^[a-z]+$\"\n";
    let (line_index, index, model) = snapshot(source);
    let role_offset = source.find("\"Approver\"").unwrap() + 2;
    let role_model = build_hover_model(HoverBuildInput {
        uri: "file:///t.sea",
        document_version: 1,
        position: line_index.position_of(role_offset),
        config_hash: "cfg",
        detail_level: DetailLevel::Standard,
        line_index: &line_index,
        index: &index,
        graph: Some(&model),
    })
    .unwrap();
    assert_eq!(role_model.symbol.kind, "Role");
    assert!(role_model.primary.facts.iter().any(|(k, _)| k == "namespace"));

    let pat_offset = source.find("\"Email\"").unwrap() + 2;
    let pat_model = build_hover_model(HoverBuildInput {
        uri: "file:///t.sea",
        document_version: 1,
        position: line_index.position_of(pat_offset),
        config_hash: "cfg",
        detail_level: DetailLevel::Standard,
        line_index: &line_index,
        index: &index,
        graph: Some(&model),
    })
    .unwrap();
    assert_eq!(pat_model.symbol.kind, "Pattern");
    assert!(pat_model.primary.facts.is_empty());
}

#[test]
fn missing_graph_is_flagged_no_graph() {
    let source = "Entity \"Known\"\n";
    let (line_index, index, _model) = snapshot(source);
    let offset = source.find("\"Known\"").unwrap() + 2;
    let hover = build_hover_model(HoverBuildInput {
        uri: "file:///t.sea",
        document_version: 1,
        position: line_index.position_of(offset),
        config_hash: "cfg",
        detail_level: DetailLevel::Standard,
        line_index: &line_index,
        index: &index,
        graph: None,
    })
    .unwrap();
    assert_eq!(hover.symbol.resolution_confidence, "no-graph");
    assert!(hover.primary.badges.iter().any(|b| b == "unresolved"));
    assert_eq!(hover.symbol.resolve_id, "<no-graph>");
}

#[test]
fn unknown_name_in_graph_is_error_fallback() {
    let source = "Entity \"Known\"\n";
    let (_line_index, _index, model) = snapshot(source);
    let r = domainforge_lsp::resolve::resolve_entity("Missing", Some(&model), DetailLevel::Standard);
    assert_eq!(r.confidence, "error_fallback");
    assert_eq!(r.resolve_id, "<unresolved>");
    assert!(r.badges.iter().any(|b| b == "unresolved"));
}

#[test]
fn summary_is_capped_by_the_last_ladder_rung() {
    let mut model = sample_model("s".repeat(4000), 1024);
    model.limits.max_json_bytes = 1;
    domainforge_lsp::hover::enforce_json_limits(&mut model);
    assert_eq!(model.primary.summary.chars().count(), 512);
}

#[test]
fn instance_hover_relates_its_entity_type() {
    let source = "Entity \"Warehouse\"\nInstance w1 of \"Warehouse\" {}\n";
    let (line_index, index, model) = snapshot(source);
    let offset = source.find("w1").unwrap();
    let hover = build_hover_model(HoverBuildInput {
        uri: "file:///t.sea",
        document_version: 1,
        position: line_index.position_of(offset),
        config_hash: "cfg",
        detail_level: DetailLevel::Standard,
        line_index: &line_index,
        index: &index,
        graph: Some(&model),
    })
    .unwrap();
    assert_eq!(hover.symbol.kind, "Instance");
    assert!(hover.primary.facts.iter().any(|(k, v)| k == "of" && v == "Warehouse"));
    assert!(hover.related.iter().any(|r| r.qualified_name == "Warehouse" && r.kind == "Entity"));
}

#[test]
fn ambiguous_resource_withholds_unit_fact() {
    let rec = |id: &str, ns: &str| DefRec {
        id: id.to_string(),
        name: "R".to_string(),
        namespace: ns.to_string(),
        version: None,
        replaces: None,
        changes: Vec::new(),
        role_names: Vec::new(),
        unit_symbol: Some("kg".to_string()),
        modality: None,
        kind_label: None,
        priority: None,
        expression: None,
    };
    let model = GraphModel {
        entities: Vec::new(),
        resources: vec![rec("id-1", "a"), rec("id-2", "b")],
        roles: Vec::new(),
        relations: Vec::new(),
        patterns: Vec::new(),
        policies: Vec::new(),
        instances: Vec::new(),
        flows: Vec::new(),
    };
    let r = domainforge_lsp::resolve::resolve_resource("R", Some(&model), DetailLevel::Standard);
    assert_eq!(r.confidence, "ambiguous");
    assert!(r.facts.is_empty());

    let one = GraphModel {
        entities: Vec::new(),
        resources: vec![rec("id-1", "a")],
        roles: Vec::new(),
        relations: Vec::new(),
        patterns: Vec::new(),
        policies: Vec::new(),
        instances: Vec::new(),
        flows: Vec::new(),
    };
    let exact = domainforge_lsp::resolve::resolve_resource("R", Some(&one), DetailLevel::Standard);
    assert_eq!(exact.confidence, "exact");
    assert!(exact.facts.iter().any(|(k, v)| k == "unit" && v == "kg"));
}
