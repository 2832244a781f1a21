//! Runs a tree-sitter query over a source file and folds its captures into
//! symbols and edges. The parser and the query engine are tree-sitter's;
//! what the captures mean is decided here.

use vstd::prelude::*;
use tree_sitter::Language as Grammar;
use tree_sitter::StreamingIterator;
use crate::text::{chars_of, matches_at, occurs_at, str_eq};
use super::extractor::{ExtractedEdge, ExtractedSymbol, ExtractionResult};

verus! {

#[verifier::external_type_specification]
#[verifier::external_body]
pub struct ExTsLanguage(Grammar);

#[verifier::external_type_specification]
#[verifier::external_body]
pub struct ExTsTree(tree_sitter::Tree);

#[verifier::external_type_specification]
#[verifier::external_body]
pub struct ExTsQuery(tree_sitter::Query);

/// What a language extractor hands to `run_query`: the grammar, the query
/// text, and the symbol kind recorded for a definition (`"method"` in
/// languages without free functions).
pub struct QuerySpec<'a> {
    pub ts_language: Grammar,
    pub query_src: &'a str,
    pub function_symbol_kind: &'a str,
}

/// One capture of a query match as plain values: its index into the
/// query's capture names, the source text it covers, and the 0-based rows
/// where its node starts and ends.
#[derive(Debug, Clone)]
pub struct RawCapture {
    pub index: u32,
    pub text: String,
    pub start_row: usize,
    pub end_row: usize,
}

/// The syntax tree tree-sitter builds for `source` with `grammar`, or
/// `None` when the grammar cannot be loaded or parsing gives up. A parser
/// with no timeout and no cancellation flag builds the same tree from the
/// same grammar and text every time.
pub uninterp spec fn ts_parsed(grammar: Grammar, source: Seq<char>) -> Option<tree_sitter::Tree>;

/// The query tree-sitter compiles from `query_src` for `grammar`, or `None`
/// when the text does not compile.
pub uninterp spec fn ts_compiled(grammar: Grammar, query_src: Seq<char>) -> Option<tree_sitter::Query>;

/// The capture names of a compiled query, indexed by capture index.
pub uninterp spec fn ts_names(query: tree_sitter::Query) -> Seq<Seq<char>>;

/// The matches of a query over a tree of `source`, in the order the query
/// cursor yields them, each as its captures.
pub uninterp spec fn ts_found(query: tree_sitter::Query, tree: tree_sitter::Tree, source: Seq<char>) -> Seq<Seq<RawCapture>>;

/// `tree_sitter::Parser::new`, `Parser::set_language` and `Parser::parse`
/// (no timeout, no old tree): the syntax tree of `source`, or `None` when
/// the grammar cannot be loaded or parsing gives up. Claimed: the result is
/// `ts_parsed` of the grammar and the text; nothing of the tree itself.
#[verifier::external_body]
fn ts_parse(grammar: &Grammar, source: &str) -> (r: Option<tree_sitter::Tree>)
    ensures
        r == ts_parsed(*grammar, source@),
{
    let mut parser = tree_sitter::Parser::new();
    parser.set_language(grammar).ok()?;
    parser.parse(source, None)
}

/// `tree_sitter::Query::new`: the compiled query, or `None` when the query
/// text does not compile against the grammar. Claimed: the result is
/// `ts_compiled` of the grammar and the query text.
#[verifier::external_body]
fn ts_query(grammar: &Grammar, query_src: &str) -> (r: Option<tree_sitter::Query>)
    ensures
        r == ts_compiled(*grammar, query_src@),
{
    tree_sitter::Query::new(grammar, query_src).ok()
}

/// `tree_sitter::Query::capture_names`: the query's capture names, indexed
/// by capture index. Claimed: their texts are `ts_names` of the query;
/// nothing of what the names are.
#[verifier::external_body]
fn ts_capture_names(query: &tree_sitter::Query) -> (r: Vec<String>)
    ensures
        names_view(r@) == ts_names(*query),
{
    query.capture_names().iter().map(|n| n.to_string()).collect()
}

/// `tree_sitter::QueryCursor::matches` over the whole tree: every match in
/// the order found, each as its captures converted to plain values (a node
/// whose text is not UTF-8 reads as empty). Claimed: they are `ts_found` of
/// the query, the tree and the text; nothing of what they hold.
#[verifier::external_body]
fn ts_matches(query: &tree_sitter::Query, tree: &tree_sitter::Tree, source: &str) -> (r: Vec<Vec<RawCapture>>)
    ensures
        matches_view(r@) == ts_found(*query, *tree, source@),
{
    let mut cursor = tree_sitter::QueryCursor::new();
    let mut found = cursor.matches(query, tree.root_node(), source.as_bytes());
    let mut out = Vec::new();
    while let Some(m) = found.next() {
        out.push(m.captures().iter().map(|c| RawCapture {
            index: c.index,
            text: c.node.utf8_text(source.as_bytes()).unwrap_or_default().to_string(),
            start_row: c.node.start_position().row,
            end_row: c.node.end_position().row,
        }).collect());
    }
    out
}

/// The text of each capture name.
pub open spec fn names_view(names: Seq<String>) -> Seq<Seq<char>> {
    names.map_values(|s: String| s@)
}

/// The name of a capture (empty when its index is out of range).
pub open spec fn capture_name(names: Seq<Seq<char>>, c: RawCapture) -> Seq<char> {
    if (c.index as int) < names.len() {
        names[c.index as int]
    } else {
        Seq::empty()
    }
}

/// The 1-based line of a 0-based row.
pub open spec fn line_of(row: usize) -> i64 {
    if row < i64::MAX {
        (row + 1) as i64
    } else {
        i64::MAX
    }
}

/// A capture that spans a whole definition.
pub open spec fn is_definition(name: Seq<char>) -> bool {
    occurs_at(name, "definition."@, 0)
}

/// The line range of the first definition capture of a match, if any.
pub open spec fn definition_range(names: Seq<Seq<char>>, m: Seq<RawCapture>) -> Option<(i64, i64)>
    decreases m.len(),
{
    if m.len() == 0 {
        None
    } else {
        match definition_range(names, m.drop_last()) {
            Some(r) => Some(r),
            None => if is_definition(capture_name(names, m.last())) {
                Some((line_of(m.last().start_row), line_of(m.last().end_row)))
            } else {
                None
            },
        }
    }
}

/// A symbol as plain values: kind, name, qualified name, first and last line.
pub type SymbolView = (Seq<char>, Seq<char>, Seq<char>, i64, i64);

/// An edge as plain values: relation, source, target name, resolution,
/// external boundary.
pub type EdgeView = (Seq<char>, Option<Seq<char>>, Seq<char>, Seq<char>, bool);

/// The plain values of a symbol.
pub open spec fn symbol_view(s: ExtractedSymbol) -> SymbolView {
    (s.kind@, s.name@, s.qualified_name@, s.start_line, s.end_line)
}

/// The plain values of an edge.
pub open spec fn edge_view(e: ExtractedEdge) -> EdgeView {
    (
        e.relation@,
        match e.src_qualified_name {
            Some(s) => Some(s@),
            None => None,
        },
        e.dst_name@,
        e.resolution@,
        e.external_boundary,
    )
}

/// The symbol a capture yields: a `name.function` capture names a symbol
/// whose lines are those of the match's definition capture, or its own.
pub open spec fn capture_symbol(names: Seq<Seq<char>>, kind: Seq<char>, dr: Option<(i64, i64)>, c: RawCapture) -> Seq<SymbolView> {
    if capture_name(names, c) == "name.function"@ {
        let lines = match dr {
            Some(r) => r,
            None => (line_of(c.start_row), line_of(c.end_row)),
        };
        seq![(kind, c.text@, c.text@, lines.0, lines.1)]
    } else {
        Seq::empty()
    }
}

/// The edge a capture yields: a `name.call` capture a heuristic call, a
/// `name.import` capture a static import.
pub open spec fn capture_edge(names: Seq<Seq<char>>, c: RawCapture) -> Seq<EdgeView> {
    if capture_name(names, c) == "name.call"@ {
        seq![("calls"@, None, c.text@, "heuristic"@, false)]
    } else if capture_name(names, c) == "name.import"@ {
        seq![("imports"@, None, c.text@, "static"@, false)]
    } else {
        Seq::empty()
    }
}

/// The symbols of the captures of a match, in order.
pub open spec fn captures_symbols(names: Seq<Seq<char>>, kind: Seq<char>, dr: Option<(i64, i64)>, m: Seq<RawCapture>) -> Seq<SymbolView>
    decreases m.len(),
{
    if m.len() == 0 {
        Seq::empty()
    } else {
        captures_symbols(names, kind, dr, m.drop_last()) + capture_symbol(names, kind, dr, m.last())
    }
}

/// The edges of the captures of a match, in order.
pub open spec fn captures_edges(names: Seq<Seq<char>>, m: Seq<RawCapture>) -> Seq<EdgeView>
    decreases m.len(),
{
    if m.len() == 0 {
        Seq::empty()
    } else {
        captures_edges(names, m.drop_last()) + capture_edge(names, m.last())
    }
}

/// The captures of each match.
pub open spec fn matches_view(ms: Seq<Vec<RawCapture>>) -> Seq<Seq<RawCapture>> {
    ms.map_values(|m: Vec<RawCapture>| m@)
}

/// The symbols of all matches, in order.
pub open spec fn fold_symbols(names: Seq<Seq<char>>, kind: Seq<char>, ms: Seq<Seq<RawCapture>>) -> Seq<SymbolView>
    decreases ms.len(),
{
    if ms.len() == 0 {
        Seq::empty()
    } else {
        fold_symbols(names, kind, ms.drop_last()) + captures_symbols(
            names,
            kind,
            definition_range(names, ms.last()),
            ms.last(),
        )
    }
}

/// The edges of all matches, in order.
pub open spec fn fold_edges(names: Seq<Seq<char>>, ms: Seq<Seq<RawCapture>>) -> Seq<EdgeView>
    decreases ms.len(),
{
    if ms.len() == 0 {
        Seq::empty()
    } else {
        fold_edges(names, ms.drop_last()) + captures_edges(names, ms.last())
    }
}

/// The name of a capture.
fn name_of<'a>(names: &'a Vec<String>, c: &RawCapture) -> (r: &'a str)
    ensures
        r@ == capture_name(names_view(names@), *c),
{
    let k: usize = c.index as usize;
    if k < names.len() {
        names[k].as_str()
    } else {
        proof {
            reveal_strlit("");
        }
        ""
    }
}

/// The 1-based line of a 0-based row.
pub fn line(row: usize) -> (r: i64)
    ensures
        r == line_of(row),
{
    if (row as u64) < (i64::MAX as u64) {
        (row as i64) + 1
    } else {
        i64::MAX
    }
}

/// The line range of the first definition capture of a match.
fn match_definition_range(names: &Vec<String>, m: &Vec<RawCapture>) -> (r: Option<(i64, i64)>)
    ensures
        r == definition_range(names_view(names@), m@),
{
    let prefix = chars_of("definition.");
    let mut r: Option<(i64, i64)> = None;
    let mut j: usize = 0;
    while j < m.len()
        invariant
            j <= m@.len(),
            prefix@ == "definition."@,
            r == definition_range(names_view(names@), m@.take(j as int)),
        decreases m@.len() - j,
    {
        proof {
            assert(m@.take(j as int + 1).drop_last() =~= m@.take(j as int));
        }
        if r.is_none() {
            let c = &m[j];
            let name = chars_of(name_of(names, c));
            if matches_at(&name, &prefix, 0) {
                r = Some((line(c.start_row), line(c.end_row)));
            }
        }
        j += 1;
    }
    proof {
        assert(m@.take(m@.len() as int) =~= m@);
    }
    r
}

/// Folds the captures of every match, in order, into symbols and edges:
/// a `name.function` capture becomes a symbol of `function_symbol_kind`
/// spanning the match's first `definition.*` capture (or, without one, the
/// name itself); a `name.call` capture a heuristic `calls` edge; a
/// `name.import` capture a static `imports` edge; other captures nothing.
pub fn fold_matches(capture_names: &Vec<String>, matches: &Vec<Vec<RawCapture>>, function_symbol_kind: &str) -> (r: ExtractionResult)
    ensures
        r.symbols@.map_values(|s: ExtractedSymbol| symbol_view(s)) == fold_symbols(
            names_view(capture_names@),
            function_symbol_kind@,
            matches_view(matches@),
        ),
        r.edges@.map_values(|e: ExtractedEdge| edge_view(e)) == fold_edges(names_view(capture_names@), matches_view(matches@)),
{
    let ghost names = names_view(capture_names@);
    let ghost kind = function_symbol_kind@;
    let ghost ms = matches_view(matches@);
    let mut symbols: Vec<ExtractedSymbol> = Vec::new();
    let mut edges: Vec<ExtractedEdge> = Vec::new();
    let mut i: usize = 0;
    while i < matches.len()
        invariant
            i <= matches@.len(),
            names == names_view(capture_names@),
            kind == function_symbol_kind@,
            ms == matches_view(matches@),
            symbols@.map_values(|s: ExtractedSymbol| symbol_view(s)) == fold_symbols(names, kind, ms.take(i as int)),
            edges@.map_values(|e: ExtractedEdge| edge_view(e)) == fold_edges(names, ms.take(i as int)),
        decreases matches@.len() - i,
    {
        let m = &matches[i];
        let dr = match_definition_range(capture_names, m);
        let ghost sym_base = symbols@.map_values(|s: ExtractedSymbol| symbol_view(s));
        let ghost edge_base = edges@.map_values(|e: ExtractedEdge| edge_view(e));
        let mut j: usize = 0;
        while j < m.len()
            invariant
                j <= m@.len(),
                names == names_view(capture_names@),
                kind == function_symbol_kind@,
                symbols@.map_values(|s: ExtractedSymbol| symbol_view(s)) == sym_base + captures_symbols(names, kind, dr, m@.take(j as int)),
                edges@.map_values(|e: ExtractedEdge| edge_view(e)) == edge_base + captures_edges(names, m@.take(j as int)),
            decreases m@.len() - j,
        {
            proof {
                assert(m@.take(j as int + 1).drop_last() =~= m@.take(j as int));
                reveal_strlit("name.function");
                reveal_strlit("name.call");
                reveal_strlit("name.import");
                assert("name.function"@.len() == 13);
                assert("name.call"@.len() == 9);
                assert("name.import"@.len() == 11);
                assert("name.function"@ != "name.call"@);
                assert("name.function"@ != "name.import"@);
            }
            let c = &m[j];
            let name = name_of(capture_names, c);
            let ghost sym_before = symbols@;
            let ghost edge_before = edges@;
            if str_eq(name, "name.function") {
                let (start_line, end_line) = match dr {
                    Some(r) => r,
                    None => (line(c.start_row), line(c.end_row)),
                };
                symbols.push(
                    ExtractedSymbol {
                        kind: String::from_str(function_symbol_kind),
                        name: c.text.clone(),
                        qualified_name: c.text.clone(),
                        start_line,
                        end_line,
                    },
                );
                proof {
                    assert(symbols@ =~= sym_before.push(symbols@.last()));
                    assert(symbols@.map_values(|s: ExtractedSymbol| symbol_view(s)) =~= sym_before.map_values(
                        |s: ExtractedSymbol| symbol_view(s),
                    ).push(symbol_view(symbols@.last())));
                    assert(capture_edge(names, *c) == Seq::<EdgeView>::empty());
                }
            } else if str_eq(name, "name.call") {
                edges.push(
                    ExtractedEdge {
                        relation: String::from_str("calls"),
                        src_qualified_name: None,
                        dst_name: c.text.clone(),
                        resolution: String::from_str("heuristic"),
                        external_boundary: false,
                    },
                );
                proof {
                    assert(edges@.map_values(|e: ExtractedEdge| edge_view(e)) =~= edge_before.map_values(
                        |e: ExtractedEdge| edge_view(e),
                    ).push(edge_view(edges@.last())));
                    assert(capture_edge(names, *c) == seq![edge_view(edges@.last())]);
                }
            } else if str_eq(name, "name.import") {
                edges.push(
                    ExtractedEdge {
                        relation: String::from_str("imports"),
                        src_qualified_name: None,
                        dst_name: c.text.clone(),
                        resolution: String::from_str("static"),
                        external_boundary: false,
                    },
                );
                proof {
                    assert(edges@.map_values(|e: ExtractedEdge| edge_view(e)) =~= edge_before.map_values(
                        |e: ExtractedEdge| edge_view(e),
                    ).push(edge_view(edges@.last())));
                    assert(capture_edge(names, *c) == seq![edge_view(edges@.last())]);
                }
            } else {
                assert(capture_edge(names, *c) == Seq::<EdgeView>::empty());
            }
            proof {
                let cj = m@[j as int];
                assert(m@.take(j as int + 1).last() == cj);
                assert(captures_edges(names, m@.take(j as int + 1)) == captures_edges(names, m@.take(j as int))
                    + capture_edge(names, cj));
                assert(captures_symbols(names, kind, dr, m@.take(j as int + 1)) == captures_symbols(
                    names,
                    kind,
                    dr,
                    m@.take(j as int),
                ) + capture_symbol(names, kind, dr, cj));
                assert(edges@.map_values(|e: ExtractedEdge| edge_view(e)) =~= edge_base + captures_edges(
                    names,
                    m@.take(j as int + 1),
                ));
                assert(symbols@.map_values(|s: ExtractedSymbol| symbol_view(s)) =~= sym_base + captures_symbols(
                    names,
                    kind,
                    dr,
                    m@.take(j as int + 1),
                ));
            }
            j += 1;
        }
        proof {
            assert(m@.take(m@.len() as int) =~= m@);
            assert(ms.take(i as int + 1).drop_last() =~= ms.take(i as int));
            assert(ms.take(i as int + 1).last() == m@);
        }
        i += 1;
    }
    proof {
        assert(ms.take(matches@.len() as int) =~= ms);
    }
    ExtractionResult { symbols, edges }
}

/// The symbols of running `query_src` over `source` parsed with
/// `grammar`: the fold of the query's matches, or none when the grammar,
/// the parse or the query fails.
pub open spec fn query_symbols(grammar: Grammar, query_src: Seq<char>, kind: Seq<char>, source: Seq<char>) -> Seq<SymbolView> {
    match (ts_parsed(grammar, source), ts_compiled(grammar, query_src)) {
        (Some(t), Some(q)) => fold_symbols(ts_names(q), kind, ts_found(q, t, source)),
        _ => Seq::empty(),
    }
}

/// The edges of running `query_src` over `source` parsed with `grammar`.
pub open spec fn query_edges(grammar: Grammar, query_src: Seq<char>, source: Seq<char>) -> Seq<EdgeView> {
    match (ts_parsed(grammar, source), ts_compiled(grammar, query_src)) {
        (Some(t), Some(q)) => fold_edges(ts_names(q), ts_found(q, t, source)),
        _ => Seq::empty(),
    }
}

/// Parses `source` with the spec's grammar, runs the spec's query over the
/// tree and folds the captures (see `fold_matches`). A grammar that cannot
/// be loaded, a parse that gives up or a query that does not compile all
/// give the empty result: one bad file never stops an index run.
pub fn run_query(source: &str, spec: &QuerySpec) -> (r: ExtractionResult)
    ensures
        r.symbols@.map_values(|s: ExtractedSymbol| symbol_view(s)) == query_symbols(
            spec.ts_language,
            spec.query_src@,
            spec.function_symbol_kind@,
            source@,
        ),
        r.edges@.map_values(|e: ExtractedEdge| edge_view(e)) == query_edges(spec.ts_language, spec.query_src@, source@),
{
    let tree = match ts_parse(&spec.ts_language, source) {
        Some(t) => t,
        None => return ExtractionResult::empty(),
    };
    let query = match ts_query(&spec.ts_language, spec.query_src) {
        Some(q) => q,
        None => return ExtractionResult::empty(),
    };
    let names = ts_capture_names(&query);
    let found = ts_matches(&query, &tree, source);
    fold_matches(&names, &found, spec.function_symbol_kind)
}

} // verus!
