//! Tests of the semantic index and the position index.

use domainforge_lsp::index::SemanticIndex;
use domainforge_lsp::position::LineIndex;
use domainforge_lsp::symbols::SymbolKind;

#[test]
fn test_harness_runs() {
    assert!(true);
}

#[test]
fn builds_definitions_and_references() {
    let source = r#"
import * as logistics from "logistics.sea"

Entity "Warehouse" in logistics
Entity "Factory" in logistics
Resource "Cameras" units

Flow "Cameras" from "Warehouse" to "Factory" quantity 10

Instance vendor_123 of "Warehouse" {
  name: "Acme"
}

Policy p as: @vendor_123 = @vendor_123
"#;

    let index = SemanticIndex::build(source);
    assert!(
        index
            .import_prefixes
            .iter()
            .any(|p| p == "logistics"),
        "should capture import prefix"
    );

    let def = index.definition_range(SymbolKind::Entity, "Warehouse");
    assert!(def.is_some(), "should index Entity definition");

    let refs = index.reference_ranges(SymbolKind::Entity, "Warehouse");
    assert!(!refs.is_empty(), "should index Entity references");

    let refs_instances = index.reference_ranges(SymbolKind::Instance, "vendor_123");
    assert_eq!(refs_instances.len(), 2, "should index @instance references");

    let line_index = LineIndex::new(source);
    let offset = source
        .find("\"Warehouse\"")
        .expect("Warehouse literal exists")
        + 2;
    let occ = index
        .symbol_at_offset(offset)
        .expect("should resolve symbol at offset");
    assert_eq!(occ.kind, SymbolKind::Entity);
    assert_eq!(occ.name, "Warehouse");
    assert!(occ.is_definition);

    let pos = line_index.position_of(offset);
    assert!(pos.line > 0);
}

#[test]
fn malformed_document_yields_empty_index() {
    let index = SemanticIndex::build("Entity \"Broken");
    assert!(index.occurrences.is_empty());
    assert!(index.import_prefixes.is_empty());
    assert!(index.flows.is_empty());
}

#[test]
fn flow_statement_gets_synthesized_name_and_record() {
    let source = "Entity \"A\"\nEntity \"B\"\nResource \"R\" units\nFlow \"R\" from \"A\" to \"B\" quantity 10\n";
    let index = SemanticIndex::build(source);
    assert_eq!(index.flows.len(), 1);
    let flow = &index.flows[0];
    assert_eq!(flow.resource, "R");
    assert_eq!(flow.from_entity, "A");
    assert_eq!(flow.to_entity, "B");
    assert_eq!(flow.quantity.as_deref(), Some("10"));

    let expected = format!("flow@{}..{}", flow.range.start, flow.range.end);
    let def = index.definition_range(SymbolKind::Flow, &expected);
    assert_eq!(def, Some(flow.range));

    let got = index.flow_decl_for_range(flow.range).expect("flow by range");
    assert_eq!(got.resource, "R");
}

#[test]
fn escaped_literal_names_are_unescaped() {
    // the recorded name resolves the \n escape, so the raw body does not match
    let source = "Entity \"a\\nb\"\n";
    let index = SemanticIndex::build(source);
    assert!(index.definition_range(SymbolKind::Entity, "a\nb").is_some());
    assert!(index.definition_range(SymbolKind::Entity, "a\\nb").is_none());
}

#[test]
fn instance_lookup_strips_sigils() {
    let source = "Entity \"E\"\nInstance box_1 of \"E\" {}\n";
    let index = SemanticIndex::build(source);
    let direct = index.definition_range(SymbolKind::Instance, "box_1");
    assert!(direct.is_some());
    let with_sigil = index.definition_range(SymbolKind::Instance, "@box_1");
    assert_eq!(direct, with_sigil);
}

#[test]
fn import_prefixes_are_sorted_and_deduplicated() {
    let source = "import { zeta, alpha, zeta } from \"m.sea\"\nEntity \"E\"\n";
    let index = SemanticIndex::build(source);
    assert_eq!(index.import_prefixes, vec!["alpha".to_string(), "zeta".to_string()]);
}

#[test]
fn position_offset_round_trip() {
    let source = "Entity \"A\"\nEntity \"B\"\n\nResource \"R\" units\n";
    let line_index = LineIndex::new(source);
    for offset in 0..source.len() {
        let pos = line_index.position_of(offset);
        assert_eq!(line_index.offset_of(pos), Some(offset));
    }
}

#[test]
fn offset_of_rejects_out_of_range_positions() {
    let source = "Entity \"A\"\n";
    let line_index = LineIndex::new(source);
    let mut beyond = line_index.position_of(0);
    beyond.line = 99;
    assert_eq!(line_index.offset_of(beyond), None);
    let mut past_column = line_index.position_of(0);
    past_column.character = 99;
    assert_eq!(line_index.offset_of(past_column), None);
}

#[test]
fn relation_records_role_and_resource_references() {
    let source = "Role \"Payer\"\nRole \"Payee\"\nResource \"Money\" currency\nRelation \"Payment\"\n  subject: \"Payer\"\n  predicate: \"pays\"\n  object: \"Payee\"\n  via: flow \"Money\"\n";
    let index = SemanticIndex::build(source);
    assert!(index.definition_range(SymbolKind::Relation, "Payment").is_some());
    assert_eq!(index.reference_ranges(SymbolKind::Role, "Payer").len(), 1);
    assert_eq!(index.reference_ranges(SymbolKind::Role, "Payee").len(), 1);
    assert_eq!(index.reference_ranges(SymbolKind::Resource, "Money").len(), 1);
    // the predicate literal is not a symbol reference
    assert!(index.reference_ranges(SymbolKind::Role, "pays").is_empty());
    assert!(index.reference_ranges(SymbolKind::Relation, "pays").is_empty());
}

#[test]
fn triple_quoted_names_lose_their_delimiters() {
    let source = "Entity \"\"\"Big Name\"\"\"\n";
    let index = SemanticIndex::build(source);
    assert!(index.definition_range(SymbolKind::Entity, "Big Name").is_some());
}

#[test]
fn last_definition_wins_for_duplicate_names() {
    let source = "Entity \"Dup\"\nEntity \"Dup\"\n";
    let index = SemanticIndex::build(source);
    let second = source.rfind("\"Dup\"").unwrap();
    let def = index.definition_range(SymbolKind::Entity, "Dup").unwrap();
    assert_eq!(def.start, second);
}
