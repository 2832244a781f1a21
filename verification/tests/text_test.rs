use igris_memory::errors::{ErrorCode, IgrisError};
use igris_memory::text::{entity_slug, hash_content, normalize_alias, strip_private_tags};
use igris_memory::topic::suggest_topic_key;
use igris_memory::validation::{validate_entity, validate_limit, validate_save};

#[test]
fn strip_private_tags_redacts_each_block() {
    assert_eq!(strip_private_tags("Use <private>sk-1</private> now"), "Use [REDACTED] now");
    assert_eq!(
        strip_private_tags("<private>a</private> and <private>b</private>"),
        "[REDACTED] and [REDACTED]"
    );
    assert_eq!(strip_private_tags("<private>secret</private>"), "[REDACTED]");
}

#[test]
fn strip_private_tags_keeps_text_without_a_block() {
    assert_eq!(strip_private_tags("nothing to hide"), "nothing to hide");
    assert_eq!(strip_private_tags("open <private>never closed"), "open <private>never closed");
    assert_eq!(strip_private_tags(""), "");
}

#[test]
fn hash_content_is_sixteen_hex_digits_and_content_sensitive() {
    let a = hash_content("same content");
    assert_eq!(a.len(), 16);
    assert!(a.chars().all(|c| c.is_ascii_hexdigit() && !c.is_ascii_uppercase()));
    assert_eq!(a, hash_content("same content"));
    assert_ne!(a, hash_content("same content!"));
    // FNV-1a 64 of the empty input is the offset basis
    assert_eq!(hash_content(""), "cbf29ce484222325");
}

#[test]
fn slugs_and_aliases() {
    assert_eq!(entity_slug("Acme Corp, Inc."), "acme-corp-inc");
    assert_eq!(entity_slug("!!!"), "");
    assert_eq!(normalize_alias("\tJane\n DOE"), "jane doe");
}

#[test]
fn suggest_topic_key_slugs_type_and_title() {
    assert_eq!(suggest_topic_key("decision", "Use PostgreSQL", "body"), "decision/use-postgresql");
    assert_eq!(suggest_topic_key("Plan", "!!", "HTTP API"), "plan/http-api");
}

#[test]
fn validation_errors_carry_the_validation_code() {
    let e = validate_save("", "c", "manual", "project").unwrap_err();
    assert_eq!(e.code, ErrorCode::ValidationError);
    assert!(validate_save("t", "c", "manual", "project").is_ok());
    assert!(validate_save("t", "c", "manual", "global").is_err());
    assert!(validate_limit(Some(0)).is_err());
    assert!(validate_limit(Some(5)).is_ok());
    assert!(validate_limit(None).is_ok());
    assert!(validate_entity("company", "Acme", "personal").is_ok());
}

#[test]
fn error_codes_have_wire_names() {
    assert_eq!(ErrorCode::ValidationError.as_str(), "VALIDATION_ERROR");
    assert_eq!(ErrorCode::NotFound.as_str(), "NOT_FOUND");
    assert_eq!(ErrorCode::DatabaseError.as_str(), "DATABASE_ERROR");
    assert_eq!(ErrorCode::LockError.as_str(), "LOCK_ERROR");
    let e = IgrisError::not_found("gone".to_string());
    assert_eq!(e.to_string(), "gone");
    assert_eq!(IgrisError::lock("l".to_string()).code, ErrorCode::LockError);
    assert_eq!(IgrisError::database("d".to_string()).code, ErrorCode::DatabaseError);
    assert_eq!(IgrisError::validation("v".to_string()).code, ErrorCode::ValidationError);
}
