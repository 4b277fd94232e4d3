use spark::editor::{ListAction, SmartList};

fn enter(text: &str, cursor: usize) -> (String, Option<usize>) {
    let mut t = text.to_string();
    let r = SmartList::handle_enter(&mut t, cursor);
    (t, r)
}

fn enter_at_end(text: &str) -> (String, Option<usize>) {
    enter(text, text.chars().count())
}

#[test]
fn test_bullet_continuation() {
    let mut text = "- first item\n".to_string();
    let cursor = text.chars().count();
    let new_cursor = SmartList::handle_enter(&mut text, cursor);
    assert_eq!(text, "- first item\n- ");
    assert_eq!(new_cursor, Some(cursor + 2));
}

#[test]
fn test_empty_bullet_clearing() {
    let mut text = "- first item\n- \n".to_string();
    let cursor = text.chars().count();
    let new_cursor = SmartList::handle_enter(&mut text, cursor);
    assert_eq!(text, "- first item\n");
    assert_eq!(new_cursor, Some(13));
}

#[test]
fn test_numbered_continuation() {
    let mut text = "1. step one\n".to_string();
    let cursor = text.chars().count();
    let new_cursor = SmartList::handle_enter(&mut text, cursor);
    assert_eq!(text, "1. step one\n2. ");
    assert_eq!(new_cursor, Some(cursor + 3));
}

#[test]
fn test_empty_numbered_clearing() {
    let mut text = "1. step one\n2. \n".to_string();
    let cursor = text.chars().count();
    let new_cursor = SmartList::handle_enter(&mut text, cursor);
    assert_eq!(text, "1. step one\n");
    assert_eq!(new_cursor, Some(12));
}

#[test]
fn star_bullet_continues() {
    assert_eq!(enter_at_end("* idea\n"), ("* idea\n* ".to_string(), Some(9)));
}

#[test]
fn indent_is_kept() {
    assert_eq!(enter_at_end("  - nested\n"), ("  - nested\n  - ".to_string(), Some(15)));
    assert_eq!(enter_at_end("\t3. deep\n"), ("\t3. deep\n\t4. ".to_string(), Some(13)));
}

#[test]
fn unicode_white_space_indent_is_kept() {
    let (t, r) = enter_at_end("\u{3000}- x\n");
    assert_eq!(t, "\u{3000}- x\n\u{3000}- ");
    assert_eq!(r, Some(8));
}

#[test]
fn nothing_happens_without_a_newline_before_the_cursor() {
    assert_eq!(enter("- item", 6), ("- item".to_string(), None));
    assert_eq!(enter("- item\n", 3), ("- item\n".to_string(), None));
}

#[test]
fn cursor_at_start_or_past_end_or_empty_text() {
    assert_eq!(enter("- a\n", 0), ("- a\n".to_string(), None));
    assert_eq!(enter("- a\n", 5), ("- a\n".to_string(), None));
    assert_eq!(enter("", 0), (String::new(), None));
    assert_eq!(enter("", 1), (String::new(), None));
}

#[test]
fn plain_lines_are_left_alone() {
    assert_eq!(enter_at_end("just text\n"), ("just text\n".to_string(), None));
    assert_eq!(enter_at_end("\n"), ("\n".to_string(), None));
    assert_eq!(enter_at_end("-item\n"), ("-item\n".to_string(), None));
    assert_eq!(enter_at_end("a. b\n"), ("a. b\n".to_string(), None));
    assert_eq!(enter_at_end("1.x\n"), ("1.x\n".to_string(), None));
    assert_eq!(enter_at_end("-1. x\n"), ("-1. x\n".to_string(), None));
    assert_eq!(enter_at_end(". x\n"), (". x\n".to_string(), None));
}

#[test]
fn bullet_with_two_spaces_continues() {
    assert_eq!(enter_at_end("-  \n"), ("-  \n- ".to_string(), Some(6)));
}

#[test]
fn lone_bullets_end_the_list() {
    assert_eq!(enter_at_end("a\n-\n"), ("a\n".to_string(), Some(2)));
    assert_eq!(enter_at_end("a\n*\n"), ("a\n".to_string(), Some(2)));
    assert_eq!(enter_at_end("a\n  * \n"), ("a\n".to_string(), Some(2)));
    assert_eq!(enter_at_end("- \n"), (String::new(), Some(0)));
}

#[test]
fn numbered_item_with_only_spaces_ends_the_list() {
    assert_eq!(enter_at_end("x\n7.   \n"), ("x\n".to_string(), Some(2)));
}

#[test]
fn number_parsing_follows_usize_parse() {
    assert_eq!(enter_at_end("+3. x\n"), ("+3. x\n4. ".to_string(), Some(9)));
    assert_eq!(enter_at_end("007. x\n"), ("007. x\n8. ".to_string(), Some(10)));
    assert_eq!(enter_at_end("9. nine\n"), ("9. nine\n10. ".to_string(), Some(12)));
    assert_eq!(enter_at_end("+. x\n"), ("+. x\n".to_string(), None));
    assert_eq!(enter_at_end("1 2. x\n"), ("1 2. x\n".to_string(), None));
}

#[test]
fn only_the_first_dot_space_counts() {
    assert_eq!(enter_at_end("2. a. b\n"), ("2. a. b\n3. ".to_string(), Some(11)));
    assert_eq!(enter_at_end("x. 2. b\n"), ("x. 2. b\n".to_string(), None));
}

#[test]
fn numbers_too_large_for_usize_are_not_a_list() {
    let t = "18446744073709551616. x\n";
    assert_eq!(enter_at_end(t), (t.to_string(), None));
}

#[test]
fn largest_continuable_number() {
    let max = usize::MAX;
    let t = format!("{}. x\n", max - 1);
    let (out, r) = enter_at_end(&t);
    assert_eq!(out, format!("{}{}. ", t, max));
    assert_eq!(r, Some(t.chars().count() + format!("{}. ", max).chars().count()));
    let top = format!("{}. x\n", max);
    assert_eq!(
        SmartList::classify(&top, top.chars().count()),
        ListAction::ContinueNumber(usize::MAX)
    );
}

#[test]
fn text_after_the_cursor_is_kept() {
    assert_eq!(enter("- a\nrest", 4), ("- a\n- rest".to_string(), Some(6)));
    assert_eq!(enter("x\n- \ntail", 5), ("x\ntail".to_string(), Some(2)));
}

#[test]
fn later_lines_and_multibyte_text() {
    let (t, r) = enter_at_end("héllo\n* café\n");
    assert_eq!(t, "héllo\n* café\n* ");
    assert_eq!(r, Some(15));
}

#[test]
fn classify_reports_the_action() {
    assert_eq!(SmartList::classify("- a\n", 4), ListAction::ContinueBullet('-'));
    assert_eq!(SmartList::classify("* a\n", 4), ListAction::ContinueBullet('*'));
    assert_eq!(SmartList::classify("4. a\n", 5), ListAction::ContinueNumber(4));
    assert_eq!(SmartList::classify("4. \n", 4), ListAction::ExitList);
    assert_eq!(SmartList::classify("a\n", 2), ListAction::Plain);
}

#[test]
fn enter_twice_ends_the_list() {
    for original in ["- one\n", "  * two\n", "12. twelve\n", "pre\n\t3. x\n"] {
        let c = original.chars().count();
        let (t1, k) = enter(original, c);
        let k = k.unwrap();
        let mut chars: Vec<char> = t1.chars().collect();
        chars.insert(k, '\n');
        let t2: String = chars.into_iter().collect();
        let (t3, k3) = enter(&t2, k + 1);
        assert_eq!(t3, original);
        assert_eq!(k3, Some(c));
    }
}

#[test]
fn a_change_is_reported_exactly_when_the_text_changes() {
    for (t, c) in [("- a\n", 4), ("a\n", 2), ("- \n", 3), ("1. \n", 4), ("- a", 3)] {
        let (after, r) = enter(t, c);
        assert_eq!(r.is_some(), after != t);
    }
}
