use igris_memory::codegraph::extractor::{
    ExtractedSymbol, ExtractionResult, LanguageExtractor, LanguageExtractorRegistry,
};
use igris_memory::codegraph::extractors::{
    register_all, CExtractor, CSharpExtractor, JavaExtractor, PhpExtractor, RustExtractor,
    TsxExtractor, TypeScriptExtractor, RUST_QUERY,
};
use igris_memory::codegraph::language::Language;
use igris_memory::codegraph::query_runner::{fold_matches, run_query, QuerySpec, RawCapture};

struct FakeExtractor;

impl LanguageExtractor for FakeExtractor {
    fn handles(&self) -> Language {
        Language::Rust
    }
    fn language(&self) -> Language {
        Language::Rust
    }
    fn extract(&self, _source: &str) -> ExtractionResult {
        ExtractionResult {
            symbols: vec![ExtractedSymbol {
                kind: "function".into(),
                name: "foo".into(),
                qualified_name: "foo".into(),
                start_line: 1,
                end_line: 1,
            }],
            edges: vec![],
        }
    }
}

#[test]
fn registry_returns_registered_extractor_by_language() {
    let mut registry = LanguageExtractorRegistry::empty();
    registry.register(FakeExtractor);

    let extractor = registry
        .get(Language::Rust)
        .expect("rust extractor registered");
    let result = extractor.extract("fn foo() {}");
    assert_eq!(result.symbols.len(), 1);
    assert_eq!(result.symbols[0].name, "foo");
}

#[test]
fn registry_returns_none_for_unregistered_language() {
    let registry = LanguageExtractorRegistry::new();
    assert!(registry.get(Language::Python).is_none());
}

#[test]
fn register_all_covers_the_shipped_languages() {
    let mut registry = LanguageExtractorRegistry::new();
    register_all(&mut registry);
    for lang in [
        Language::Rust,
        Language::TypeScript,
        Language::Tsx,
        Language::C,
        Language::CSharp,
        Language::Java,
        Language::Php,
    ] {
        let e = registry.get(lang).expect("registered");
        assert_eq!(e.language(), lang);
    }
    assert!(registry.get(Language::Python).is_none());
    assert!(registry.get(Language::Go).is_none());
}

#[test]
fn register_replaces_the_extractor_of_the_same_language() {
    let mut registry = LanguageExtractorRegistry::empty();
    registry.register(FakeExtractor);
    registry.register(FakeExtractor);
    assert!(registry.get(Language::Rust).is_some());
    assert!(registry.get(Language::C).is_none());
}

fn names(result: &ExtractionResult) -> Vec<&str> {
    result.symbols.iter().map(|s| s.name.as_str()).collect()
}

fn edges_of<'a>(result: &'a ExtractionResult, relation: &str) -> Vec<&'a str> {
    result
        .edges
        .iter()
        .filter(|e| e.relation == relation)
        .map(|e| e.dst_name.as_str())
        .collect()
}

const RUST_SOURCE: &str = r#"
use std::collections::HashMap;

fn helper() {}

fn main() {
    helper();
}
"#;

#[test]
fn extracts_functions_calls_and_imports() {
    let result = RustExtractor.extract(RUST_SOURCE);

    let fn_names = names(&result);
    assert!(fn_names.contains(&"helper"));
    assert!(fn_names.contains(&"main"));

    let calls = edges_of(&result, "calls");
    assert!(calls.contains(&"helper"));

    let imports = edges_of(&result, "imports");
    assert!(imports.iter().any(|i| i.contains("HashMap")));
}

#[test]
fn multi_line_function_spans_its_whole_definition() {
    let result = RustExtractor.extract(RUST_SOURCE);

    let main = result
        .symbols
        .iter()
        .find(|s| s.name == "main")
        .expect("`main` should be extracted");
    assert_eq!(main.start_line, 6, "unexpected start line: {main:?}");
    assert_eq!(main.end_line, 8, "unexpected end line: {main:?}");
    assert!(main.end_line > main.start_line);

    let helper = result
        .symbols
        .iter()
        .find(|s| s.name == "helper")
        .expect("`helper` should be extracted");
    assert_eq!(helper.start_line, 4);
    assert_eq!(helper.end_line, 4);
}

const TS_SOURCE: &str = r#"
import { readFileSync } from 'fs';

function helper(): void {}

function main(): void {
  helper();
}
"#;

#[test]
fn typescript_extracts_functions_calls_and_imports() {
    let result = TypeScriptExtractor.extract(TS_SOURCE);
    let fn_names = names(&result);
    assert!(fn_names.contains(&"helper"));
    assert!(fn_names.contains(&"main"));

    let calls = edges_of(&result, "calls");
    assert!(calls.contains(&"helper"));

    let imports = edges_of(&result, "imports");
    assert!(imports.iter().any(|i| i.contains("fs")));
}

#[test]
fn tsx_extracts_functions_and_calls_from_the_same_syntax() {
    let result = TsxExtractor.extract(TS_SOURCE);
    let fn_names = names(&result);
    assert!(fn_names.contains(&"helper"));
    assert!(fn_names.contains(&"main"));

    let calls = edges_of(&result, "calls");
    assert!(calls.contains(&"helper"));
}

#[test]
fn extracts_functions_calls_and_includes() {
    let source = "#include <stdio.h>\n\nvoid helper() {}\n\nint main() {\n    helper();\n    return 0;\n}\n";
    let result = CExtractor.extract(source);

    let fn_names = names(&result);
    assert!(fn_names.contains(&"helper"));
    assert!(fn_names.contains(&"main"));

    let calls = edges_of(&result, "calls");
    assert!(calls.contains(&"helper"));

    let imports = edges_of(&result, "imports");
    assert!(imports.iter().any(|i| i.contains("stdio.h")));
}

#[test]
fn extracts_methods_calls_and_usings() {
    let source = "using System.Collections.Generic;\n\nclass Program {\n    static void Helper() {}\n\n    static void Main() {\n        Helper();\n    }\n}\n";
    let result = CSharpExtractor.extract(source);

    let fn_names = names(&result);
    assert!(fn_names.contains(&"Helper"));
    assert!(fn_names.contains(&"Main"));
    assert!(result.symbols.iter().all(|s| s.kind == "method"));

    let calls = edges_of(&result, "calls");
    assert!(calls.contains(&"Helper"));

    let imports = edges_of(&result, "imports");
    assert!(imports.iter().any(|i| i.contains("Collections")));
}

#[test]
fn extracts_methods_calls_and_imports() {
    let source = "import java.util.List;\n\nclass Main {\n    void helper() {}\n\n    void main() {\n        helper();\n    }\n}\n";
    let result = JavaExtractor.extract(source);

    let fn_names = names(&result);
    assert!(fn_names.contains(&"helper"));
    assert!(fn_names.contains(&"main"));
    assert!(result.symbols.iter().all(|s| s.kind == "method"));

    let calls = edges_of(&result, "calls");
    assert!(calls.contains(&"helper"));

    let imports = edges_of(&result, "imports");
    assert!(imports.iter().any(|i| i.contains("List")));
}

#[test]
fn extracts_functions_and_calls() {
    let source = "<?php\nrequire 'helpers.php';\n\nfunction helper() {}\n\nfunction main() {\n    helper();\n}\n";
    let result = PhpExtractor.extract(source);

    let fn_names = names(&result);
    assert!(fn_names.contains(&"helper"));
    assert!(fn_names.contains(&"main"));

    let calls = edges_of(&result, "calls");
    assert!(calls.contains(&"helper"));
}

#[test]
fn definition_range_is_1_indexed_and_exact() {
    let src = "fn a() {}\nfn b() {\n    1\n}\n";
    let spec = QuerySpec {
        ts_language: tree_sitter_rust::LANGUAGE.into(),
        query_src: RUST_QUERY,
        function_symbol_kind: "function",
    };

    let result = run_query(src, &spec);

    let a = result.symbols.iter().find(|s| s.name == "a").expect("`a` should be extracted");
    assert_eq!(a.start_line, 1, "unexpected start line: {a:?}");
    assert_eq!(a.end_line, 1, "unexpected end line: {a:?}");

    let b = result.symbols.iter().find(|s| s.name == "b").expect("`b` should be extracted");
    assert_eq!(b.start_line, 2, "unexpected start line: {b:?}");
    assert_eq!(b.end_line, 4, "unexpected end line: {b:?}");
}

#[test]
fn falls_back_to_name_capture_range_without_definition_wrapper() {
    let src = "fn a() {}\nfn b() {\n    1\n}\n";
    let spec = QuerySpec {
        ts_language: tree_sitter_rust::LANGUAGE.into(),
        query_src: "(function_item name: (identifier) @name.function)",
        function_symbol_kind: "function",
    };

    let result = run_query(src, &spec);

    let b = result.symbols.iter().find(|s| s.name == "b").expect("`b` should be extracted");
    assert_eq!(b.start_line, 2, "unexpected start line: {b:?}");
    assert_eq!(b.end_line, 2, "unexpected end line: {b:?}");
}

#[test]
fn a_query_that_does_not_compile_gives_the_empty_result() {
    let spec = QuerySpec {
        ts_language: tree_sitter_rust::LANGUAGE.into(),
        query_src: "(no_such_node) @name.function",
        function_symbol_kind: "function",
    };
    let result = run_query("fn a() {}", &spec);
    assert!(result.symbols.is_empty());
    assert!(result.edges.is_empty());
}

fn cap(index: u32, text: &str, start_row: usize, end_row: usize) -> RawCapture {
    RawCapture { index, text: text.to_string(), start_row, end_row }
}

#[test]
fn fold_matches_uses_the_definition_range_and_maps_each_capture() {
    let names: Vec<String> = ["definition.function", "name.function", "name.call", "name.import", "other"]
        .iter()
        .map(|s| s.to_string())
        .collect();
    let matches = vec![
        vec![cap(0, "fn go() {\n}", 9, 11), cap(1, "go", 9, 9)],
        vec![cap(1, "solo", 3, 3)],
        vec![cap(2, "helper", 5, 5), cap(4, "ignored", 0, 0), cap(7, "out of range", 0, 0)],
        vec![cap(3, "std::io", 0, 0)],
    ];
    let result = fold_matches(&names, &matches, "method");

    assert_eq!(result.symbols.len(), 2);
    assert_eq!(result.symbols[0].name, "go");
    assert_eq!(result.symbols[0].kind, "method");
    assert_eq!((result.symbols[0].start_line, result.symbols[0].end_line), (10, 12));
    assert_eq!(result.symbols[1].qualified_name, "solo");
    assert_eq!((result.symbols[1].start_line, result.symbols[1].end_line), (4, 4));

    assert_eq!(result.edges.len(), 2);
    assert_eq!(result.edges[0].relation, "calls");
    assert_eq!(result.edges[0].resolution, "heuristic");
    assert_eq!(result.edges[0].dst_name, "helper");
    assert!(result.edges[0].src_qualified_name.is_none());
    assert_eq!(result.edges[1].relation, "imports");
    assert_eq!(result.edges[1].resolution, "static");
    assert_eq!(result.edges[1].dst_name, "std::io");
    assert!(!result.edges[1].external_boundary);
}
