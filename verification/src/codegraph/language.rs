use vstd::prelude::*;
use crate::text::str_eq;

verus! {

/// A source language the code graph can index.
#[derive(Debug, Clone, Copy, PartialEq, Eq, Hash, Structural)]
pub enum Language {
    Rust,
    JavaScript,
    TypeScript,
    Tsx,
    Python,
    Go,
    Java,
    C,
    Cpp,
    CSharp,
    Ruby,
    Php,
    Swift,
    Kotlin,
}

/// The language a file extension (no leading dot) denotes, if any.
pub open spec fn spec_from_extension(ext: Seq<char>) -> Option<Language> {
    if ext == "rs"@ {
        Some(Language::Rust)
    } else if ext == "js"@ || ext == "jsx"@ || ext == "mjs"@ || ext == "cjs"@ {
        Some(Language::JavaScript)
    } else if ext == "ts"@ {
        Some(Language::TypeScript)
    } else if ext == "tsx"@ {
        Some(Language::Tsx)
    } else if ext == "py"@ {
        Some(Language::Python)
    } else if ext == "go"@ {
        Some(Language::Go)
    } else if ext == "java"@ {
        Some(Language::Java)
    } else if ext == "c"@ || ext == "h"@ {
        Some(Language::C)
    } else if ext == "cpp"@ || ext == "cc"@ || ext == "cxx"@ || ext == "hpp"@ || ext == "hh"@ {
        Some(Language::Cpp)
    } else if ext == "cs"@ {
        Some(Language::CSharp)
    } else if ext == "rb"@ {
        Some(Language::Ruby)
    } else if ext == "php"@ {
        Some(Language::Php)
    } else if ext == "swift"@ {
        Some(Language::Swift)
    } else if ext == "kt"@ || ext == "kts"@ {
        Some(Language::Kotlin)
    } else {
        None
    }
}

/// The stable name stored for a language.
pub open spec fn spec_language_name(l: Language) -> Seq<char> {
    match l {
        Language::Rust => "rust"@,
        Language::JavaScript => "javascript"@,
        Language::TypeScript => "typescript"@,
        Language::Tsx => "tsx"@,
        Language::Python => "python"@,
        Language::Go => "go"@,
        Language::Java => "java"@,
        Language::C => "c"@,
        Language::Cpp => "cpp"@,
        Language::CSharp => "csharp"@,
        Language::Ruby => "ruby"@,
        Language::Php => "php"@,
        Language::Swift => "swift"@,
        Language::Kotlin => "kotlin"@,
    }
}

impl Language {
    /// Maps a file extension (no leading dot) to a `Language`, or `None`
    /// when the extension is not supported. Files with an unsupported
    /// extension are skipped by the indexer, not treated as an error.
    pub fn from_extension(ext: &str) -> (r: Option<Language>)
        ensures
            r == spec_from_extension(ext@),
    {
        if str_eq(ext, "rs") {
            Some(Language::Rust)
        } else if str_eq(ext, "js") || str_eq(ext, "jsx") || str_eq(ext, "mjs") || str_eq(ext, "cjs") {
            Some(Language::JavaScript)
        } else if str_eq(ext, "ts") {
            Some(Language::TypeScript)
        } else if str_eq(ext, "tsx") {
            Some(Language::Tsx)
        } else if str_eq(ext, "py") {
            Some(Language::Python)
        } else if str_eq(ext, "go") {
            Some(Language::Go)
        } else if str_eq(ext, "java") {
            Some(Language::Java)
        } else if str_eq(ext, "c") || str_eq(ext, "h") {
            Some(Language::C)
        } else if str_eq(ext, "cpp") || str_eq(ext, "cc") || str_eq(ext, "cxx") || str_eq(ext, "hpp")
            || str_eq(ext, "hh") {
            Some(Language::Cpp)
        } else if str_eq(ext, "cs") {
            Some(Language::CSharp)
        } else if str_eq(ext, "rb") {
            Some(Language::Ruby)
        } else if str_eq(ext, "php") {
            Some(Language::Php)
        } else if str_eq(ext, "swift") {
            Some(Language::Swift)
        } else if str_eq(ext, "kt") || str_eq(ext, "kts") {
            Some(Language::Kotlin)
        } else {
            None
        }
    }

    /// Stable string form stored in `code_files.language`.
    pub fn as_str(&self) -> (r: &'static str)
        ensures
            r@ == spec_language_name(*self),
    {
        match self {
            Language::Rust => "rust",
            Language::JavaScript => "javascript",
            Language::TypeScript => "typescript",
            Language::Tsx => "tsx",
            Language::Python => "python",
            Language::Go => "go",
            Language::Java => "java",
            Language::C => "c",
            Language::Cpp => "cpp",
            Language::CSharp => "csharp",
            Language::Ruby => "ruby",
            Language::Php => "php",
            Language::Swift => "swift",
            Language::Kotlin => "kotlin",
        }
    }
}

/// Distinct languages have distinct stored names, so a stored name
/// identifies its language.
pub proof fn lemma_language_names_distinct(a: Language, b: Language)
    requires
        a != b,
    ensures
        spec_language_name(a) != spec_language_name(b),
{
    reveal_strlit("rust");
    reveal_strlit("javascript");
    reveal_strlit("typescript");
    reveal_strlit("tsx");
    reveal_strlit("python");
    reveal_strlit("go");
    reveal_strlit("java");
    reveal_strlit("c");
    reveal_strlit("cpp");
    reveal_strlit("csharp");
    reveal_strlit("ruby");
    reveal_strlit("php");
    reveal_strlit("swift");
    reveal_strlit("kotlin");
    let na = spec_language_name(a);
    let nb = spec_language_name(b);
    if na == nb {
        assert(na.len() == nb.len());
        assert(na[0] == nb[0]);
        assert(na[na.len() - 1] == nb[nb.len() - 1]);
    }
}

} // verus!
