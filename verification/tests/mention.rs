//! Completing mentions.
use cs_tui::mention::{self, query_at, remainder, splice, Query};

fn q(at: usize, prefix: &str) -> Option<Query> {
    Some(Query {
        at,
        prefix: prefix.to_string(),
    })
}

#[test]
fn a_mention_is_found_at_the_start_and_after_a_space() {
    assert_eq!(query_at("@ne", 3), q(0, "ne"));
    assert_eq!(query_at("hey @ne", 7), q(4, "ne"));
    assert_eq!(query_at("hey @", 5), q(4, ""), "a bare @ offers everyone");
}

#[test]
fn an_email_address_is_not_a_mention() {
    // The reason the "start or after whitespace" rule exists at all.
    assert_eq!(query_at("you@example", 11), None);
    assert_eq!(query_at("a@b", 3), None);
}

#[test]
fn a_caret_outside_the_token_finds_nothing() {
    assert_eq!(query_at("hey @neo there", 14), None, "past the token");
    assert_eq!(query_at("hey @neo", 3), None, "before the @");
    assert_eq!(query_at("plain text", 5), None, "no @ at all");
}

#[test]
fn a_caret_inside_the_token_completes_from_what_precedes_it() {
    // Not the whole token: completing from text after the caret would
    // offer names that do not match what the user is looking at.
    assert_eq!(query_at("@neon", 3), q(0, "ne"));
}

#[test]
fn matching_is_case_insensitive_and_keeps_pool_order() {
    let pool = vec![
        "Trinity".to_string(),
        "trace".to_string(),
        "neo".to_string(),
    ];
    assert_eq!(mention::matches(&pool, "tr"), vec!["Trinity", "trace"]);
    assert_eq!(mention::matches(&pool, "TR"), vec!["Trinity", "trace"]);
    assert_eq!(mention::matches(&pool, ""), vec!["Trinity", "trace", "neo"]);
    assert!(mention::matches(&pool, "zz").is_empty());
}

#[test]
fn the_ghost_shows_only_what_is_left_to_type() {
    assert_eq!(remainder("trinity", "tr"), Some("inity".to_string()));
    assert_eq!(
        remainder("neo", "neo"),
        None,
        "a fully typed name draws no ghost rather than an empty one"
    );
}

#[test]
fn the_ghost_respects_characters_not_bytes() {
    // A byte-based skip would slice this one mid-character and panic.
    assert_eq!(remainder("émile", "é"), Some("mile".to_string()));
}

#[test]
fn splicing_replaces_the_token_and_leaves_the_caret_after_it() {
    let query = Query {
        at: 4,
        prefix: "tr".into(),
    };
    let (text, caret) = splice("hey tr", &query, 6, "trinity");
    assert_eq!(text, "hey @trinity");
    assert_eq!(caret, 12, "character index, not a byte offset");
}

#[test]
fn splicing_keeps_whatever_followed_the_token() {
    let query = Query {
        at: 0,
        prefix: "ne".into(),
    };
    let (text, caret) = splice("@ne there", &query, 3, "neo");
    assert_eq!(text, "@neo there");
    assert_eq!(caret, 4, "the caret sits after the name, before the space");
}

#[test]
fn splicing_a_multibyte_name_lands_the_caret_by_character() {
    let query = Query {
        at: 0,
        prefix: "é".into(),
    };
    let (text, caret) = splice("@é", &query, 2, "émile");
    assert_eq!(text, "@émile");
    assert_eq!(caret, 6, "six characters, not the eight bytes they occupy");
}

#[test]
fn a_completed_mention_is_found_again() {
    let query = query_at("hey @tr you", 7).unwrap();
    let (text, caret) = splice("hey @tr you", &query, 7, "trinity");
    assert_eq!(text, "hey @trinity you");
    assert_eq!(query_at(&text, caret), q(4, "trinity"));
    assert_eq!(remainder("trinity", "trinity"), None);
}

#[test]
fn matching_lowers_letters_beyond_ascii() {
    let pool = vec!["Émile".to_string()];
    assert_eq!(mention::matches(&pool, "ém"), vec!["Émile"]);
}
