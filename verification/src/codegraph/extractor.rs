use vstd::prelude::*;
use super::extractors::BuiltinExtractor;
use super::language::Language;

verus! {

/// A function/method/class found in a source file by an extractor.
#[derive(Debug, Clone, PartialEq, Eq)]
pub struct ExtractedSymbol {
    pub kind: String,
    pub name: String,
    pub qualified_name: String,
    pub start_line: i64,
    pub end_line: i64,
}

/// A relation found in a source file — an import or a call. `dst_name` is
/// the raw name as written; the store resolves it to a symbol later.
#[derive(Debug, Clone, PartialEq, Eq)]
pub struct ExtractedEdge {
    pub relation: String,
    pub src_qualified_name: Option<String>,
    pub dst_name: String,
    pub resolution: String,
    pub external_boundary: bool,
}

/// Everything extracted from one source file.
#[derive(Debug, Clone, PartialEq, Eq)]
pub struct ExtractionResult {
    pub symbols: Vec<ExtractedSymbol>,
    pub edges: Vec<ExtractedEdge>,
}

impl ExtractionResult {
    /// The empty extraction.
    pub fn empty() -> (r: Self)
        ensures
            r.symbols@.len() == 0,
            r.edges@.len() == 0,
    {
        ExtractionResult { symbols: Vec::new(), edges: Vec::new() }
    }
}

/// Implemented once per language. `extract` never panics on malformed
/// input: a syntax error only means fewer captures.
pub trait LanguageExtractor {
    /// The language this extractor handles.
    spec fn handles(&self) -> Language;

    /// The language this extractor handles.
    fn language(&self) -> (r: Language)
        ensures
            r == self.handles(),
    ;

    /// Extracts the symbols and edges of one source file.
    fn extract(&self, source: &str) -> ExtractionResult;
}

/// Looks up the extractor registered for a language. The extractors are
/// of one type `E`; `BuiltinExtractor` covers every language this crate
/// ships an extractor for.
pub struct LanguageExtractorRegistry<E = BuiltinExtractor> {
    extractors: Vec<E>,
}

impl LanguageExtractorRegistry<BuiltinExtractor> {
    /// An empty registry of the built-in extractors.
    pub fn new() -> (r: Self)
        ensures
            r.languages().len() == 0,
            forall|l: Language| #[trigger] r.extractor_for(l) is None,
    {
        Self::empty()
    }
}

/// `k` is the first position of `s` whose extractor handles `l`.
pub open spec fn first_for<E: LanguageExtractor>(s: Seq<E>, l: Language, k: int) -> bool {
    &&& 0 <= k < s.len()
    &&& s[k].handles() == l
    &&& forall|j: int| 0 <= j < k ==> (#[trigger] s[j]).handles() != l
}

/// The extractor a list of registrations answers for `l`: the first one
/// that handles it, if any.
pub open spec fn registered_for<E: LanguageExtractor>(s: Seq<E>, l: Language) -> Option<E> {
    if exists|k: int| first_for(s, l, k) {
        Some(s[choose|k: int| first_for(s, l, k)])
    } else {
        None
    }
}

/// The first position for a language is the one `registered_for` answers.
pub proof fn lemma_registered_at<E: LanguageExtractor>(s: Seq<E>, l: Language, k: int)
    requires
        first_for(s, l, k),
    ensures
        registered_for(s, l) == Some(s[k]),
{
    let c = choose|c: int| first_for(s, l, c);
    assert(first_for(s, l, c));
    if c < k {
        assert(s[c].handles() != l);
    } else if k < c {
        assert(s[k].handles() != l);
    }
}

/// Two lists whose extractors handle the same languages, position by
/// position, and agree wherever `l` is handled answer alike for `l`.
pub proof fn lemma_registered_same<E: LanguageExtractor>(s: Seq<E>, t: Seq<E>, l: Language)
    requires
        s.len() == t.len(),
        forall|j: int| 0 <= j < s.len() ==> (#[trigger] s[j]).handles() == t[j].handles(),
        forall|j: int| 0 <= j < s.len() && (#[trigger] s[j]).handles() == l ==> s[j] == t[j],
    ensures
        registered_for(s, l) == registered_for(t, l),
{
    if exists|k: int| first_for(s, l, k) {
        let k = choose|k: int| first_for(s, l, k);
        assert forall|j: int| 0 <= j < k implies (#[trigger] t[j]).handles() != l by {
            assert(s[j].handles() != l);
        }
        assert(first_for(t, l, k));
        lemma_registered_at(s, l, k);
        lemma_registered_at(t, l, k);
    } else if exists|k: int| first_for(t, l, k) {
        let k = choose|k: int| first_for(t, l, k);
        assert forall|j: int| 0 <= j < k implies (#[trigger] s[j]).handles() != l by {
            assert(t[j].handles() != l);
        }
        assert(first_for(s, l, k));
    }
}

impl<E: LanguageExtractor> LanguageExtractorRegistry<E> {
    /// The languages that have an extractor, in registration order.
    pub closed spec fn languages(&self) -> Seq<Language> {
        self.extractors@.map_values(|e: E| e.handles())
    }

    /// The extractor the registry answers for `l`, if any.
    pub closed spec fn extractor_for(&self, l: Language) -> Option<E> {
        registered_for(self.extractors@, l)
    }

    /// An empty registry.
    pub fn empty() -> (r: Self)
        ensures
            r.languages().len() == 0,
            forall|l: Language| #[trigger] r.extractor_for(l) is None,
    {
        LanguageExtractorRegistry { extractors: Vec::new() }
    }

    /// Registers an extractor, replacing the one registered before for its
    /// language: a lookup of that language answers the extractor just
    /// registered, and every other language keeps its extractor.
    pub fn register(&mut self, extractor: E)
        ensures
            final(self).extractor_for(extractor.handles()) == Some(extractor),
            forall|l: Language| l != extractor.handles() ==> #[trigger] final(self).extractor_for(l) == old(self).extractor_for(l),
            final(self).languages().contains(extractor.handles()),
            forall|l: Language| #[trigger] old(self).languages().contains(l) ==> final(self).languages().contains(l),
            forall|l: Language| #[trigger] final(self).languages().contains(l) ==> (old(self).languages().contains(l) || l == extractor.handles()),
    {
        let lang = extractor.language();
        let ghost old_langs = self.languages();
        let ghost old_s = self.extractors@;
        let ghost handled = extractor.handles();
        let mut i: usize = 0;
        while i < self.extractors.len()
            invariant
                i <= self.extractors@.len(),
                self.extractors@ == old_s,
                self.languages() == old_langs,
                old_langs == old(self).languages(),
                old_s == old(self).extractors@,
                lang == handled,
                handled == extractor.handles(),
                forall|k: int| 0 <= k < i ==> (#[trigger] self.extractors@[k]).handles() != lang,
            decreases self.extractors@.len() - i,
        {
            let li = self.extractors[i].language();
            if li == lang {
                let ghost before = self.extractors@;
                self.extractors.set(i, extractor);
                proof {
                    assert forall|k: int| 0 <= k < old_langs.len() implies self.languages()[k] == old_langs[k] by {
                        if k != i {
                            assert(self.extractors@[k] == before[k]);
                        }
                    }
                    assert(self.languages() =~= old_langs);
                    assert(self.languages()[i as int] == lang);
                    assert(first_for(self.extractors@, lang, i as int));
                    lemma_registered_at(self.extractors@, lang, i as int);
                    assert forall|l: Language| l != handled implies #[trigger] registered_for(self.extractors@, l)
                        == registered_for(old_s, l) by {
                        lemma_registered_same(self.extractors@, old_s, l);
                    }
                }
                return;
            }
            i += 1;
        }
        self.extractors.push(extractor);
        proof {
            let s = self.extractors@;
            assert(self.languages() =~= old_langs.push(lang));
            assert(self.languages()[old_langs.len() as int] == lang);
            assert(first_for(s, lang, old_s.len() as int));
            lemma_registered_at(s, lang, old_s.len() as int);
            assert forall|l: Language| l != handled implies #[trigger] registered_for(s, l) == registered_for(old_s, l) by {
                if exists|k: int| first_for(s, l, k) {
                    let k = choose|k: int| first_for(s, l, k);
                    assert(k < old_s.len());
                    assert forall|j: int| 0 <= j < k implies (#[trigger] old_s[j]).handles() != l by {
                        assert(s[j] == old_s[j]);
                    }
                    assert(first_for(old_s, l, k));
                    lemma_registered_at(s, l, k);
                    lemma_registered_at(old_s, l, k);
                } else if exists|k: int| first_for(old_s, l, k) {
                    let k = choose|k: int| first_for(old_s, l, k);
                    assert forall|j: int| 0 <= j < k implies (#[trigger] s[j]).handles() != l by {
                        assert(s[j] == old_s[j]);
                    }
                    assert(first_for(s, l, k));
                }
            }
            assert forall|l: Language| #[trigger] old_langs.contains(l) implies self.languages().contains(l) by {
                let k = choose|k: int| 0 <= k < old_langs.len() && old_langs[k] == l;
                assert(self.languages()[k] == l);
            }
            assert forall|l: Language| #[trigger] self.languages().contains(l) implies (old_langs.contains(l) || l == lang) by {
                let k = choose|k: int| 0 <= k < self.languages().len() && self.languages()[k] == l;
                if k < old_langs.len() {
                    assert(old_langs[k] == l);
                }
            }
        }
    }

    /// The extractor registered for `language`, if any.
    pub fn get(&self, language: Language) -> (r: Option<&E>)
        ensures
            r matches Some(e) ==> self.extractor_for(language) == Some(*e),
            r is None ==> self.extractor_for(language) is None,
            r is Some <==> self.languages().contains(language),
            r matches Some(e) ==> e.handles() == language,
    {
        let mut i: usize = 0;
        while i < self.extractors.len()
            invariant
                i <= self.extractors@.len(),
                forall|k: int| 0 <= k < i ==> (#[trigger] self.extractors@[k]).handles() != language,
            decreases self.extractors@.len() - i,
        {
            if self.extractors[i].language() == language {
                proof {
                    assert(self.languages()[i as int] == language);
                    assert(first_for(self.extractors@, language, i as int));
                    lemma_registered_at(self.extractors@, language, i as int);
                }
                return Some(&self.extractors[i]);
            }
            i += 1;
        }
        proof {
            if self.languages().contains(language) {
                let k = choose|k: int| 0 <= k < self.languages().len() && self.languages()[k] == language;
                assert(self.extractors@[k].handles() == language);
            }
            if exists|k: int| first_for(self.extractors@, language, k) {
                let k = choose|k: int| first_for(self.extractors@, language, k);
                assert(self.extractors@[k].handles() == language);
            }
        }
        None
    }
}

} // verus!
