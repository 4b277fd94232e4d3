use spark::clock::LocalTime;
use spark::storage::{journal_record, spark_body};

#[test]
fn lone_bullets_and_blank_text_are_not_saved() {
    for s in ["", "   ", "* ", "*", "-", "- ", "\n\t* \n", " - "] {
        assert_eq!(spark_body(s), None, "{:?}", s);
    }
}

#[test]
fn thoughts_are_saved_trimmed() {
    assert_eq!(spark_body("* an idea \n"), Some("* an idea".to_string()));
    assert_eq!(spark_body("  **  "), Some("**".to_string()));
    assert_eq!(spark_body("x"), Some("x".to_string()));
}

#[test]
fn record_for_a_new_journal_has_the_title() {
    let at = LocalTime::new(2024, 3, 5, 14, 7).unwrap();
    assert_eq!(
        journal_record("* idea", &at, true),
        "# \u{26A1} Spark (Ephemeral Thoughts Stream)\n\n---\n### 2024-03-05 02:07 PM\n* idea\n\n"
    );
}

#[test]
fn record_for_an_existing_journal() {
    let at = LocalTime::new(999, 12, 31, 0, 0).unwrap();
    assert_eq!(journal_record("a\nb", &at, false), "---\n### 0999-12-31 12:00 AM\na\nb\n\n");
}
