use mybox::identity::initial_space_id;
use mybox::identity::local_entity_seed;
use mybox::identity::new_stable_entity_id;
use mybox::identity::next_sync_mutation_id;
use mybox::ledger::AcknowledgedStates;
use mybox::ledger::SpaceSet;
use mybox::storage::read_stored_number;
use mybox::text::decimal_of;
use mybox::text::is_blank;
use mybox::text::padded_of;
use mybox::text::parse_unsigned;
use mybox::text::split;
use mybox::text::split_once;
use mybox::text::starts_with;
use mybox::text::strip_prefix;
use mybox::text::take_chars;
use mybox::text::text_before;
use mybox::text::to_ascii_lowercase;
use mybox::text::trim;
use mybox::text::trim_start_matches;

#[test]
fn texts_are_trimmed() {
    for text in ["", "  ", "\t a b \n", "\u{a0}x\u{2003}", "x\u{200b}", "\u{85}y"] {
        assert_eq!(trim(text), text.trim());
        assert_eq!(is_blank(text), text.trim().is_empty());
    }
    assert_eq!(trim_start_matches("??a?", '?'), "a?");
    assert_eq!(take_chars("äöü", 2), "äö");
    assert_eq!(take_chars("ab", 5), "ab");
}

#[test]
fn texts_are_taken_apart() {
    assert_eq!(split("a;b;;c", ';'), vec!["a", "b", "", "c"]);
    assert_eq!(split("", ';'), vec![""]);
    assert_eq!(split("a;b;;c", ';').join(";"), "a;b;;c");
    assert_eq!(split_once("a=b=c", '='), Some(("a".to_owned(), "b=c".to_owned())));
    assert_eq!(split_once("abc", '='), None);
    assert!(starts_with("guest:x", "guest:"));
    assert!(!starts_with("gues", "guest:"));
    assert_eq!(strip_prefix("guest:x", "guest:"), Some("x".to_owned()));
    assert_eq!(strip_prefix("account:x", "guest:"), None);
    assert_eq!(to_ascii_lowercase("TeXtÄ"), "textÄ");
}

#[test]
fn texts_are_put_in_order() {
    assert!(text_before("a", "b"));
    assert!(text_before("a", "ab"));
    assert!(!text_before("b", "ab"));
    assert!(!text_before("a", "a"));
    assert!(text_before("Z", "a"));
    assert!(text_before("z", "ä"));
}

#[test]
fn numbers_are_written_and_read() {
    assert_eq!(decimal_of(0), "0");
    assert_eq!(decimal_of(u64::MAX), "18446744073709551615");
    assert_eq!(padded_of(7, 2), "07");
    assert_eq!(padded_of(2024, 2), "2024");
    assert_eq!(parse_unsigned("18446744073709551615", u64::MAX), Some(u64::MAX));
    assert_eq!(parse_unsigned("18446744073709551616", u64::MAX), None);
    assert_eq!(parse_unsigned("+7", 9), Some(7));
    assert_eq!(parse_unsigned("10", 9), None);
    assert_eq!(parse_unsigned("", 9), None);
    assert_eq!(parse_unsigned("+", 9), None);
    assert_eq!(parse_unsigned("-1", 9), None);
    assert_eq!(read_stored_number(&Some("12".to_owned())), 12);
    assert_eq!(read_stored_number(&Some("x".to_owned())), 0);
    assert_eq!(read_stored_number(&None), 0);
}

#[test]
fn identities_are_made_of_what_there_is() {
    assert_eq!(initial_space_id("guest"), 3861632570669043);
    assert_eq!(local_entity_seed("abc", "device-1", 1000, 77), 6711276583845711);
    assert_eq!(local_entity_seed("", "device-1", 1000, 77), 7218621601295862);
    assert_eq!(new_stable_entity_id(Some("u".to_owned()), 1, 2), "u");
    assert_eq!(
        new_stable_entity_id(None, 1000, 77),
        "00000000-0000-4000-8000-03e80000004d"
    );
    assert_eq!(next_sync_mutation_id(Some("u".to_owned()), "device-1", 5, 6), "u");
    assert_eq!(next_sync_mutation_id(None, "device-1", 5, 6), "device-1-5-6");
}

#[test]
fn networks_are_reserved_once_for_a_space() {
    let mut spaces = SpaceSet::new();
    assert!(spaces.begin_space_network_operation("account:a", 1));
    assert!(!spaces.begin_space_network_operation("account:a", 1));
    assert!(spaces.begin_space_network_operation("account:b", 1));
    assert!(spaces.begin_space_network_operation("account:a", 2));
    spaces.end_space_network_operation("account:a", 1);
    assert!(!spaces.contains("account:a", 1));
    assert!(spaces.contains("account:b", 1));
    assert!(spaces.begin_space_network_operation("account:a", 1));
    spaces.end_space_network_operation("account:c", 1);
    assert_eq!(spaces.spaces.len(), 3);
    let mut registered = SpaceSet::new();
    registered.mark_sync_space_registered("account:a", 1);
    registered.mark_sync_space_registered("account:a", 1);
    assert_eq!(registered.spaces.len(), 1);
}

#[test]
fn acknowledged_states_are_kept_for_each_space() {
    let mut states = AcknowledgedStates::new();
    assert_eq!(states.acknowledged_state_vector("account:a", 1), None);
    states.set_acknowledged_state_vector("account:a", 1, vec![1, 2]);
    assert_eq!(states.acknowledged_state_vector("account:a", 1), Some(vec![1, 2]));
    states.set_acknowledged_state_vector("account:a", 1, vec![3]);
    states.set_acknowledged_state_vector("account:a", 2, vec![4]);
    states.set_acknowledged_state_vector("account:b", 1, vec![5]);
    assert_eq!(states.acknowledged_state_vector("account:a", 1), Some(vec![3]));
    assert_eq!(states.acknowledged_state_vector("account:b", 1), Some(vec![5]));
    assert_eq!(states.acknowledged_state_vector("account:b", 2), None);
}
