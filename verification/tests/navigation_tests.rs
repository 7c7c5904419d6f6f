//! Tests of go-to-definition and find-references.

use domainforge_lsp::index::SemanticIndex;
use domainforge_lsp::navigation::find_references;
use domainforge_lsp::navigation::goto_definition;
use domainforge_lsp::position::LineIndex;
use domainforge_lsp::symbols::SymbolKind;

#[test]
fn goto_definition_finds_entity_decl_from_instance_type() {
    let source = r#"
Entity "Vendor" in domain

Instance vendor_123 of "Vendor" {
  name: "Acme"
}
"#;
    let uri = "file:///test.sea";
    let line_index = LineIndex::new(source);
    let index = SemanticIndex::build(source);

    // rfind gives the usage in `of "Vendor"`, not the declaration
    let offset = source.rfind("\"Vendor\"").unwrap() + 2;
    let pos = line_index.position_of(offset);
    let loc = goto_definition(uri, &line_index, pos, &index).expect("definition");

    let def_range = index
        .definition_range(SymbolKind::Entity, "Vendor")
        .expect("entity definition");
    let expected = SemanticIndex::lsp_location(uri, &line_index, def_range);
    assert_eq!(loc.start, expected.start);
    assert_eq!(loc.end, expected.end);
}

#[test]
fn find_references_includes_flow_and_instance_usages() {
    let source = r#"
Entity "Warehouse"
Entity "Factory"
Resource "Cameras" units
Flow "Cameras" from "Warehouse" to "Factory" quantity 10
Instance vendor_123 of "Warehouse" {}
"#;
    let uri = "file:///test.sea";
    let line_index = LineIndex::new(source);
    let index = SemanticIndex::build(source);

    let offset = source.find("\"Warehouse\"").unwrap() + 2;
    let pos = line_index.position_of(offset);
    let refs = find_references(uri, &line_index, pos, &index, true);

    assert!(
        refs.len() >= 3,
        "expected definition + at least two references"
    );

    let def_range = index
        .definition_range(SymbolKind::Entity, "Warehouse")
        .expect("entity definition");
    let def_loc = SemanticIndex::lsp_location(uri, &line_index, def_range);
    assert!(
        refs.iter().any(|l| l.start == def_loc.start && l.end == def_loc.end),
        "should include declaration when requested"
    );
}

#[test]
fn goto_definition_from_flow_endpoint_to_entity_decl() {
    let source = r#"
Entity "Warehouse"
Entity "Factory"
Resource "Cameras" units
Flow "Cameras" from "Warehouse" to "Factory" quantity 10
"#;
    let uri = "file:///test.sea";
    let line_index = LineIndex::new(source);
    let index = SemanticIndex::build(source);

    let offset = source.rfind("from \"Warehouse\"").unwrap() + "from \"".len() + 1;
    let pos = line_index.position_of(offset);
    let loc = goto_definition(uri, &line_index, pos, &index).expect("definition");

    let def_range = index
        .definition_range(SymbolKind::Entity, "Warehouse")
        .expect("entity definition");
    let expected = SemanticIndex::lsp_location(uri, &line_index, def_range);
    assert_eq!(loc.start, expected.start);
    assert_eq!(loc.end, expected.end);
}

#[test]
fn goto_definition_on_declaration_returns_itself() {
    let source = "Entity \"Warehouse\"\nFlow \"R\" from \"Warehouse\" to \"Warehouse\"\nResource \"R\" units\n";
    let uri = "file:///test.sea";
    let line_index = LineIndex::new(source);
    let index = SemanticIndex::build(source);

    let offset = source.find("\"Warehouse\"").unwrap() + 2;
    let pos = line_index.position_of(offset);
    let occ = index.symbol_at_offset(offset).expect("occurrence");
    assert!(occ.is_definition);

    let loc = goto_definition(uri, &line_index, pos, &index).expect("definition");
    let own = SemanticIndex::lsp_location(uri, &line_index, occ.range);
    assert_eq!(loc.start, own.start);
    assert_eq!(loc.end, own.end);
}

#[test]
fn three_locations_for_one_definition_and_two_usages() {
    let source = r#"
Entity "Warehouse"
Entity "Factory"
Resource "Cameras" units
Flow "Cameras" from "Warehouse" to "Factory"
Instance w1 of "Warehouse" {}
"#;
    let uri = "file:///test.sea";
    let line_index = LineIndex::new(source);
    let index = SemanticIndex::build(source);

    let offset = source.find("\"Warehouse\"").unwrap() + 2;
    let pos = line_index.position_of(offset);
    let refs = find_references(uri, &line_index, pos, &index, true);
    assert_eq!(refs.len(), 3, "1 definition + 2 references, deduplicated");

    // sorted by position, no duplicated neighbours
    for w in refs.windows(2) {
        let a = &w[0];
        let b = &w[1];
        let ka = (a.start.line, a.start.character, a.end.line, a.end.character);
        let kb = (b.start.line, b.start.character, b.end.line, b.end.character);
        assert!(ka < kb);
    }

    let without_decl = find_references(uri, &line_index, pos, &index, false);
    assert_eq!(without_decl.len(), 2);
}

#[test]
fn find_references_on_whitespace_is_empty() {
    let source = "Entity \"A\"\n";
    let line_index = LineIndex::new(source);
    let index = SemanticIndex::build(source);
    let pos = domainforge_lsp::position::Position { line: 0, character: 0 };
    let refs = find_references("file:///t.sea", &line_index, pos, &index, true);
    assert!(refs.is_empty());
}
