//! Indexes the files of a project into the code graph: unchanged files are
//! skipped by content hash, changed ones are extracted and their symbols
//! and edges replaced, and files no longer present are soft-deleted.

use vstd::prelude::*;
use crate::db::{Database, StoreRead};
use crate::db::codegraph::{hash_lookup, spec_stored_hash};
use crate::models::IndexSummary;
use super::extractor::{LanguageExtractor, LanguageExtractorRegistry};
use super::extractors::{builtin_languages, register_all};
use super::language::Language;

verus! {

/// A source file found under a project root: its path relative to the
/// root (with `/` separators), its absolute path, its language and the
/// hash of its content.
#[derive(Debug, Clone)]
pub struct DiscoveredFile {
    pub relative_path: String,
    pub absolute_path: String,
    pub language: Language,
    pub content_hash: String,
}

/// How many of `files` have a language without a built-in extractor.
pub open spec fn unsupported_count(files: Seq<(DiscoveredFile, Option<String>)>) -> nat
    decreases files.len(),
{
    if files.len() == 0 {
        0
    } else {
        unsupported_count(files.drop_last()) + if builtin_languages().contains(files.last().0.language) {
            0nat
        } else {
            1nat
        }
    }
}

/// How many of `files` have a built-in extractor and a readable source.
pub open spec fn extractable_count(files: Seq<(DiscoveredFile, Option<String>)>) -> nat
    decreases files.len(),
{
    if files.len() == 0 {
        0
    } else {
        extractable_count(files.drop_last()) + if builtin_languages().contains(files.last().0.language)
            && files.last().1 is Some {
            1nat
        } else {
            0nat
        }
    }
}

/// A file is unchanged when the store holds a hash for it and that hash
/// equals the hash of its content.
pub open spec fn spec_unchanged(stored: Option<Seq<char>>, content_hash: Seq<char>) -> bool {
    stored == Some(content_hash)
}

/// Decides from the stored hash whether a file is unchanged.
pub fn unchanged_by_hash(stored: &Option<String>, content_hash: &str) -> (r: bool)
    ensures
        r == spec_unchanged(crate::db::opt_view(*stored), content_hash@),
{
    match stored {
        Some(h) => crate::text::str_eq(h.as_str(), content_hash),
        None => false,
    }
}

/// How many of `files` the hash lookups `rs` (one per file, in order)
/// show unchanged: the stored hash equals the file's content hash.
pub open spec fn unchanged_count(files: Seq<(DiscoveredFile, Option<String>)>, rs: Seq<StoreRead>) -> nat
    decreases files.len(),
{
    if files.len() == 0 || rs.len() == 0 {
        0
    } else {
        unchanged_count(files.drop_last(), rs.drop_last()) + if spec_unchanged(
            spec_stored_hash(rs.last().rows),
            files.last().0.content_hash@,
        ) {
            1nat
        } else {
            0nat
        }
    }
}

/// When the store already holds every file with its current hash, every
/// file is counted unchanged.
pub proof fn law_reindex_of_stored_files_is_unchanged(files: Seq<(DiscoveredFile, Option<String>)>, rs: Seq<StoreRead>)
    requires
        rs.len() == files.len(),
        forall|i: int| 0 <= i < files.len() ==> spec_stored_hash((#[trigger] rs[i]).rows) == Some(files[i].0.content_hash@),
    ensures
        unchanged_count(files, rs) == files.len(),
    decreases files.len(),
{
    if files.len() > 0 {
        let n = files.len() - 1;
        assert(rs.last() == rs[n]);
        assert forall|i: int| 0 <= i < files.drop_last().len() implies spec_stored_hash(
            (#[trigger] rs.drop_last()[i]).rows,
        ) == Some(files.drop_last()[i].0.content_hash@) by {
            assert(rs.drop_last()[i] == rs[i]);
        }
        law_reindex_of_stored_files_is_unchanged(files.drop_last(), rs.drop_last());
    }
}

/// Indexes `files` (each with its source, `None` where it could not be
/// read) of `project` under `root_path`. A file whose stored hash equals
/// its content hash is unchanged; one whose language has no extractor is
/// skipped; one whose source is missing or whose store update fails counts
/// as failed; every other file is extracted and its symbols and edges
/// replaced. Finally the project's files not among `files` are
/// soft-deleted. Store errors never abort the run.
pub fn index_files(db: &mut Database, project: &str, root_path: &str, files: &Vec<(DiscoveredFile, Option<String>)>) -> (r: IndexSummary)
    requires
        files@.len() <= i64::MAX,
    ensures
        r.files_indexed >= 0 && r.files_unchanged >= 0 && r.files_skipped_unsupported >= 0 && r.files_failed_parse >= 0,
        r.files_indexed + r.files_unchanged + r.files_skipped_unsupported + r.files_failed_parse == files@.len(),
        r.files_skipped_unsupported <= unsupported_count(files@),
        r.files_indexed <= extractable_count(files@),
        r.files_deleted >= 0,
        final(db).lookups().len() == old(db).lookups().len() + files@.len(),
        final(db).lookups().take(old(db).lookups().len() as int) == old(db).lookups(),
        forall|i: int|
            0 <= i < files@.len() ==> #[trigger] hash_lookup(
                final(db).lookups()[old(db).lookups().len() + i],
                project@,
                root_path@,
                files@[i].0.relative_path@,
            ),
        r.files_unchanged == unchanged_count(files@, final(db).lookups().skip(old(db).lookups().len() as int)),
{
    let ghost start = db.lookups();
    let mut registry = LanguageExtractorRegistry::new();
    register_all(&mut registry);
    let mut summary = IndexSummary::new();
    let mut seen_paths: Vec<String> = Vec::new();
    let mut i: usize = 0;
    while i < files.len()
        invariant
            i <= files@.len() <= i64::MAX,
            forall|l: Language| #[trigger] registry.languages().contains(l) <==> builtin_languages().contains(l),
            summary.files_indexed >= 0 && summary.files_unchanged >= 0 && summary.files_skipped_unsupported >= 0
                && summary.files_failed_parse >= 0,
            summary.files_indexed + summary.files_unchanged + summary.files_skipped_unsupported
                + summary.files_failed_parse == i,
            summary.files_skipped_unsupported <= unsupported_count(files@.take(i as int)),
            summary.files_indexed <= extractable_count(files@.take(i as int)),
            summary.files_deleted == 0,
            db.lookups().len() == start.len() + i,
            db.lookups().take(start.len() as int) == start,
            start == old(db).lookups(),
            forall|j: int|
                0 <= j < i ==> #[trigger] hash_lookup(
                    db.lookups()[start.len() + j],
                    project@,
                    root_path@,
                    files@[j].0.relative_path@,
                ),
            summary.files_unchanged == unchanged_count(files@.take(i as int), db.lookups().skip(start.len() as int)),
        decreases files@.len() - i,
    {
        let ghost before = db.lookups();
        proof {
            assert(files@.take(i as int + 1).drop_last() =~= files@.take(i as int));
        }
        let (file, source) = &files[i];
        seen_paths.push(file.relative_path.clone());
        let existing = match db.get_code_file_hash(project, root_path, file.relative_path.as_str()) {
            Ok(h) => h,
            Err(_) => None,
        };
        let ghost looked = db.lookups();
        proof {
            let rs = looked.skip(start.len() as int);
            assert(rs.drop_last() =~= before.skip(start.len() as int));
            assert(rs.last() == looked.last());
            assert(crate::db::opt_view(existing) == spec_stored_hash(rs.last().rows));
            assert(looked.take(start.len() as int) =~= start);
            assert forall|j: int| 0 <= j < i + 1 implies #[trigger] hash_lookup(
                looked[start.len() + j],
                project@,
                root_path@,
                files@[j].0.relative_path@,
            ) by {
                if j < i {
                    assert(looked[start.len() + j] == before[start.len() + j]);
                }
            }
        }
        let unchanged = unchanged_by_hash(&existing, file.content_hash.as_str());
        if unchanged {
            summary.files_unchanged = summary.files_unchanged + 1;
        } else {
            match registry.get(file.language) {
                None => {
                    summary.files_skipped_unsupported = summary.files_skipped_unsupported + 1;
                },
                Some(extractor) => {
                    match source {
                        None => {
                            summary.files_failed_parse = summary.files_failed_parse + 1;
                        },
                        Some(src) => {
                            let extraction = extractor.extract(src.as_str());
                            match db.upsert_code_file(
                                project,
                                root_path,
                                file.relative_path.as_str(),
                                file.language.as_str(),
                                file.content_hash.as_str(),
                            ) {
                                Err(_) => {
                                    summary.files_failed_parse = summary.files_failed_parse + 1;
                                },
                                Ok(code_file) => {
                                    match db.replace_symbols_and_edges_for_file(
                                        code_file.id,
                                        extraction.symbols.as_slice(),
                                        extraction.edges.as_slice(),
                                    ) {
                                        Err(_) => {
                                            summary.files_failed_parse = summary.files_failed_parse + 1;
                                        },
                                        Ok(()) => {
                                            summary.files_indexed = summary.files_indexed + 1;
                                        },
                                    }
                                },
                            }
                        },
                    }
                },
            }
        }
        i += 1;
    }
    proof {
        assert(files@.take(files@.len() as int) =~= files@);
    }
    let ghost looked = db.lookups();
    summary.files_deleted = match db.soft_delete_missing_code_files(project, root_path, seen_paths.as_slice()) {
        Ok(n) => n,
        Err(_) => 0,
    };
    summary
}

} // verus!
