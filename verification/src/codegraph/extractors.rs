//! The language extractors this crate ships: one tree-sitter grammar and
//! one query per language, all folded by `run_query`.

use vstd::prelude::*;
use tree_sitter::Language as Grammar;
use super::extractor::{ExtractedEdge, ExtractedSymbol, ExtractionResult, LanguageExtractor, LanguageExtractorRegistry};
use super::language::Language;
use super::query_runner::{edge_view, query_edges, query_symbols, run_query, symbol_view, QuerySpec};

verus! {

/// Rust: functions, calls by name, path or method, and `use` paths.
pub const RUST_QUERY: &'static str = "
(function_item name: (identifier) @name.function) @definition.function
(call_expression function: (identifier) @name.call)
(call_expression function: (scoped_identifier name: (identifier) @name.call))
(call_expression function: (field_expression field: (field_identifier) @name.call))
(use_declaration argument: (_) @name.import)
";

/// TypeScript and TSX: function declarations, methods, arrow functions
/// bound to a name, calls by name or member, and import sources.
pub const TYPESCRIPT_QUERY: &'static str = "
(function_declaration name: (identifier) @name.function) @definition.function
(method_definition name: (property_identifier) @name.function) @definition.function
(lexical_declaration (variable_declarator name: (identifier) @name.function value: (arrow_function))) @definition.function
(call_expression function: (identifier) @name.call)
(call_expression function: (member_expression property: (property_identifier) @name.call))
(import_statement source: (string) @name.import)
";

/// C: function definitions (also returning a pointer), calls by name and
/// `#include` paths.
pub const C_QUERY: &'static str = "
(function_definition declarator: (function_declarator declarator: (identifier) @name.function)) @definition.function
(function_definition declarator: (pointer_declarator declarator: (function_declarator declarator: (identifier) @name.function))) @definition.function
(call_expression function: (identifier) @name.call)
(preproc_include path: (_) @name.import)
";

/// C#: methods and local functions, calls by name or member, `using`
/// directives.
pub const CSHARP_QUERY: &'static str = "
(method_declaration name: (identifier) @name.function) @definition.function
(local_function_statement name: (identifier) @name.function) @definition.function
(invocation_expression function: (identifier) @name.call)
(invocation_expression function: (member_access_expression name: (identifier) @name.call))
(using_directive (_) @name.import)
";

/// Java: methods and constructors, method invocations, imports.
pub const JAVA_QUERY: &'static str = "
(method_declaration name: (identifier) @name.function) @definition.function
(constructor_declaration name: (identifier) @name.function) @definition.function
(method_invocation name: (identifier) @name.call)
(import_declaration [(scoped_identifier) (identifier)] @name.import)
";

/// PHP: functions and methods, calls by name or member, and the files
/// pulled in by `require`/`include`.
pub const PHP_QUERY: &'static str = "
(function_definition name: (name) @name.function) @definition.function
(method_declaration name: (name) @name.function) @definition.function
(function_call_expression function: (name) @name.call)
(function_call_expression function: (qualified_name) @name.call)
(member_call_expression name: (name) @name.call)
(require_expression (_) @name.import)
(require_once_expression (_) @name.import)
(include_expression (_) @name.import)
(include_once_expression (_) @name.import)
";

/// `tree_sitter_rust::LANGUAGE` as a grammar.
#[verifier::external_body]
fn rust_grammar() -> Grammar {
    tree_sitter_rust::LANGUAGE.into()
}

/// `tree_sitter_typescript::LANGUAGE_TYPESCRIPT` as a grammar.
#[verifier::external_body]
fn typescript_grammar() -> Grammar {
    tree_sitter_typescript::LANGUAGE_TYPESCRIPT.into()
}

/// `tree_sitter_typescript::LANGUAGE_TSX` as a grammar.
#[verifier::external_body]
fn tsx_grammar() -> Grammar {
    tree_sitter_typescript::LANGUAGE_TSX.into()
}

/// `tree_sitter_c::LANGUAGE` as a grammar.
#[verifier::external_body]
fn c_grammar() -> Grammar {
    tree_sitter_c::LANGUAGE.into()
}

/// `tree_sitter_c_sharp::LANGUAGE` as a grammar.
#[verifier::external_body]
fn csharp_grammar() -> Grammar {
    tree_sitter_c_sharp::LANGUAGE.into()
}

/// `tree_sitter_java::LANGUAGE` as a grammar.
#[verifier::external_body]
fn java_grammar() -> Grammar {
    tree_sitter_java::LANGUAGE.into()
}

/// `tree_sitter_php::LANGUAGE_PHP_ONLY` (PHP without the surrounding HTML)
/// as a grammar.
#[verifier::external_body]
fn php_grammar() -> Grammar {
    tree_sitter_php::LANGUAGE_PHP_ONLY.into()
}

/// What an extraction gives: running `query_src` with symbol kind `kind`
/// over `source`, parsed with the extractor's grammar.
pub open spec fn extracted_with(r: ExtractionResult, kind: Seq<char>, query_src: Seq<char>, source: Seq<char>) -> bool {
    exists|g: Grammar|
        r.symbols@.map_values(|s: ExtractedSymbol| symbol_view(s)) == #[trigger] query_symbols(g, query_src, kind, source)
            && r.edges@.map_values(|e: ExtractedEdge| edge_view(e)) == query_edges(g, query_src, source)
}

/// Extracts Rust sources.
pub struct RustExtractor;

/// Extracts TypeScript sources.
pub struct TypeScriptExtractor;

/// Extracts TSX sources.
pub struct TsxExtractor;

/// Extracts C sources.
pub struct CExtractor;

/// Extracts C# sources; definitions are recorded as methods.
pub struct CSharpExtractor;

/// Extracts Java sources; definitions are recorded as methods.
pub struct JavaExtractor;

/// Extracts PHP sources.
pub struct PhpExtractor;

impl LanguageExtractor for RustExtractor {
    open spec fn handles(&self) -> Language {
        Language::Rust
    }

    fn language(&self) -> (r: Language) {
        Language::Rust
    }

    fn extract(&self, source: &str) -> (r: ExtractionResult)
        ensures
            extracted_with(r, "function"@, RUST_QUERY@, source@),
    {
        let r = run_query(source, &QuerySpec { ts_language: rust_grammar(), query_src: RUST_QUERY, function_symbol_kind: "function" });
        r
    }
}

impl LanguageExtractor for TypeScriptExtractor {
    open spec fn handles(&self) -> Language {
        Language::TypeScript
    }

    fn language(&self) -> (r: Language) {
        Language::TypeScript
    }

    fn extract(&self, source: &str) -> (r: ExtractionResult)
        ensures
            extracted_with(r, "function"@, TYPESCRIPT_QUERY@, source@),
    {
        let r = run_query(source, &QuerySpec { ts_language: typescript_grammar(), query_src: TYPESCRIPT_QUERY, function_symbol_kind: "function" });
        r
    }
}

impl LanguageExtractor for TsxExtractor {
    open spec fn handles(&self) -> Language {
        Language::Tsx
    }

    fn language(&self) -> (r: Language) {
        Language::Tsx
    }

    fn extract(&self, source: &str) -> (r: ExtractionResult)
        ensures
            extracted_with(r, "function"@, TYPESCRIPT_QUERY@, source@),
    {
        let r = run_query(source, &QuerySpec { ts_language: tsx_grammar(), query_src: TYPESCRIPT_QUERY, function_symbol_kind: "function" });
        r
    }
}

impl LanguageExtractor for CExtractor {
    open spec fn handles(&self) -> Language {
        Language::C
    }

    fn language(&self) -> (r: Language) {
        Language::C
    }

    fn extract(&self, source: &str) -> (r: ExtractionResult)
        ensures
            extracted_with(r, "function"@, C_QUERY@, source@),
    {
        let r = run_query(source, &QuerySpec { ts_language: c_grammar(), query_src: C_QUERY, function_symbol_kind: "function" });
        r
    }
}

impl LanguageExtractor for CSharpExtractor {
    open spec fn handles(&self) -> Language {
        Language::CSharp
    }

    fn language(&self) -> (r: Language) {
        Language::CSharp
    }

    fn extract(&self, source: &str) -> (r: ExtractionResult)
        ensures
            extracted_with(r, "method"@, CSHARP_QUERY@, source@),
    {
        let r = run_query(source, &QuerySpec { ts_language: csharp_grammar(), query_src: CSHARP_QUERY, function_symbol_kind: "method" });
        r
    }
}

impl LanguageExtractor for JavaExtractor {
    open spec fn handles(&self) -> Language {
        Language::Java
    }

    fn language(&self) -> (r: Language) {
        Language::Java
    }

    fn extract(&self, source: &str) -> (r: ExtractionResult)
        ensures
            extracted_with(r, "method"@, JAVA_QUERY@, source@),
    {
        let r = run_query(source, &QuerySpec { ts_language: java_grammar(), query_src: JAVA_QUERY, function_symbol_kind: "method" });
        r
    }
}

impl LanguageExtractor for PhpExtractor {
    open spec fn handles(&self) -> Language {
        Language::Php
    }

    fn language(&self) -> (r: Language) {
        Language::Php
    }

    fn extract(&self, source: &str) -> (r: ExtractionResult)
        ensures
            extracted_with(r, "function"@, PHP_QUERY@, source@),
    {
        let r = run_query(source, &QuerySpec { ts_language: php_grammar(), query_src: PHP_QUERY, function_symbol_kind: "function" });
        r
    }
}

/// The symbol kind a builtin extractor records for a definition.
pub open spec fn builtin_kind(e: BuiltinExtractor) -> Seq<char> {
    if e is CSharp || e is Java { "method"@ } else { "function"@ }
}

/// The query text a builtin extractor runs.
pub open spec fn builtin_query(e: BuiltinExtractor) -> Seq<char> {
    match e {
        BuiltinExtractor::Rust(_) => RUST_QUERY@,
        BuiltinExtractor::TypeScript(_) => TYPESCRIPT_QUERY@,
        BuiltinExtractor::Tsx(_) => TYPESCRIPT_QUERY@,
        BuiltinExtractor::C(_) => C_QUERY@,
        BuiltinExtractor::CSharp(_) => CSHARP_QUERY@,
        BuiltinExtractor::Java(_) => JAVA_QUERY@,
        BuiltinExtractor::Php(_) => PHP_QUERY@,
    }
}

/// Any of the extractors this crate ships.
pub enum BuiltinExtractor {
    Rust(RustExtractor),
    TypeScript(TypeScriptExtractor),
    Tsx(TsxExtractor),
    C(CExtractor),
    CSharp(CSharpExtractor),
    Java(JavaExtractor),
    Php(PhpExtractor),
}

impl LanguageExtractor for BuiltinExtractor {
    open spec fn handles(&self) -> Language {
        match self {
            BuiltinExtractor::Rust(_) => Language::Rust,
            BuiltinExtractor::TypeScript(_) => Language::TypeScript,
            BuiltinExtractor::Tsx(_) => Language::Tsx,
            BuiltinExtractor::C(_) => Language::C,
            BuiltinExtractor::CSharp(_) => Language::CSharp,
            BuiltinExtractor::Java(_) => Language::Java,
            BuiltinExtractor::Php(_) => Language::Php,
        }
    }

    fn language(&self) -> (r: Language) {
        match self {
            BuiltinExtractor::Rust(e) => e.language(),
            BuiltinExtractor::TypeScript(e) => e.language(),
            BuiltinExtractor::Tsx(e) => e.language(),
            BuiltinExtractor::C(e) => e.language(),
            BuiltinExtractor::CSharp(e) => e.language(),
            BuiltinExtractor::Java(e) => e.language(),
            BuiltinExtractor::Php(e) => e.language(),
        }
    }

    fn extract(&self, source: &str) -> (r: ExtractionResult)
        ensures
            extracted_with(r, builtin_kind(*self), builtin_query(*self), source@),
    {
        match self {
            BuiltinExtractor::Rust(e) => e.extract(source),
            BuiltinExtractor::TypeScript(e) => e.extract(source),
            BuiltinExtractor::Tsx(e) => e.extract(source),
            BuiltinExtractor::C(e) => e.extract(source),
            BuiltinExtractor::CSharp(e) => e.extract(source),
            BuiltinExtractor::Java(e) => e.extract(source),
            BuiltinExtractor::Php(e) => e.extract(source),
        }
    }
}

/// The languages this crate ships an extractor for.
pub open spec fn builtin_languages() -> Seq<Language> {
    seq![
        Language::Rust,
        Language::TypeScript,
        Language::Tsx,
        Language::C,
        Language::CSharp,
        Language::Java,
        Language::Php,
    ]
}

/// Registers every extractor this crate ships; languages registered
/// before keep theirs only where no built-in one replaces it.
pub fn register_all(registry: &mut LanguageExtractorRegistry<BuiltinExtractor>)
    ensures
        forall|l: Language| #[trigger] builtin_languages().contains(l) ==> final(registry).languages().contains(l),
        forall|l: Language| #[trigger] old(registry).languages().contains(l) ==> final(registry).languages().contains(l),
        forall|l: Language| #[trigger] final(registry).languages().contains(l) ==> (old(registry).languages().contains(l)
            || builtin_languages().contains(l)),
{
    registry.register(BuiltinExtractor::Rust(RustExtractor));
    registry.register(BuiltinExtractor::TypeScript(TypeScriptExtractor));
    registry.register(BuiltinExtractor::Tsx(TsxExtractor));
    registry.register(BuiltinExtractor::C(CExtractor));
    registry.register(BuiltinExtractor::CSharp(CSharpExtractor));
    registry.register(BuiltinExtractor::Java(JavaExtractor));
    registry.register(BuiltinExtractor::Php(PhpExtractor));
    proof {
        assert(builtin_languages()[0] == Language::Rust);
        assert(builtin_languages()[1] == Language::TypeScript);
        assert(builtin_languages()[2] == Language::Tsx);
        assert(builtin_languages()[3] == Language::C);
        assert(builtin_languages()[4] == Language::CSharp);
        assert(builtin_languages()[5] == Language::Java);
        assert(builtin_languages()[6] == Language::Php);
    }
}

} // verus!
