use igris_memory::codegraph::language::Language;

#[test]
fn from_extension_maps_known_extensions() {
    assert_eq!(Language::from_extension("rs"), Some(Language::Rust));
    assert_eq!(Language::from_extension("tsx"), Some(Language::Tsx));
    assert_eq!(Language::from_extension("kt"), Some(Language::Kotlin));
}

#[test]
fn from_extension_returns_none_for_unknown() {
    assert_eq!(Language::from_extension("md"), None);
    assert_eq!(Language::from_extension(""), None);
}

#[test]
fn as_str_round_trips_to_a_stable_name() {
    assert_eq!(Language::Rust.as_str(), "rust");
    assert_eq!(Language::CSharp.as_str(), "csharp");
}

#[test]
fn from_extension_covers_every_alias() {
    for ext in ["js", "jsx", "mjs", "cjs"] {
        assert_eq!(Language::from_extension(ext), Some(Language::JavaScript));
    }
    for ext in ["cpp", "cc", "cxx", "hpp", "hh"] {
        assert_eq!(Language::from_extension(ext), Some(Language::Cpp));
    }
    assert_eq!(Language::from_extension("h"), Some(Language::C));
    assert_eq!(Language::from_extension("kts"), Some(Language::Kotlin));
    assert_eq!(Language::from_extension("RS"), None);
}
