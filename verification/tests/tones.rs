use std::collections::BTreeMap;

use tonemate::tones::{Parser, Tone};

fn tone(index: usize, label: &str, text: &str) -> Tone {
    Tone {
        index,
        label: label.to_string(),
        text: text.to_string(),
    }
}

/// Every update the parser emitted, in order.
fn feed(fragments: &[&str]) -> Vec<Tone> {
    let mut parser = Parser::default();
    let mut updates = Vec::new();
    for fragment in fragments {
        updates.extend(parser.push(fragment));
    }
    updates.extend(parser.finish());
    updates
}

/// What a consumer would be showing once the stream ends: the updates
/// applied as upserts, in index order.
fn rows(fragments: &[&str]) -> Vec<Tone> {
    let mut rows: BTreeMap<usize, Tone> = BTreeMap::new();
    for update in feed(fragments) {
        rows.insert(update.index, update);
    }
    rows.into_values().collect()
}

#[test]
fn splits_rows_on_newlines_and_labels_on_tabs() {
    assert_eq!(
        rows(&["直译\tI can't come tomorrow.\n正式\tI'm afraid I can't.\n"]),
        vec![
            tone(0, "直译", "I can't come tomorrow."),
            tone(1, "正式", "I'm afraid I can't."),
        ]
    );
}

#[test]
fn feeding_one_character_at_a_time_gives_the_same_rows() {
    let whole = "直译\tI can't come tomorrow.\n正式\tI'm afraid I can't.";
    let chars: Vec<String> = whole.chars().map(|c| c.to_string()).collect();
    let fragments: Vec<&str> = chars.iter().map(String::as_str).collect();

    assert_eq!(rows(&fragments), rows(&[whole]));
}

#[test]
fn the_label_is_emitted_before_its_translation_arrives() {
    let mut parser = Parser::default();

    assert_eq!(parser.push("直"), vec![]);
    assert_eq!(parser.push("译\t"), vec![tone(0, "直译", "")]);
    assert_eq!(parser.push("I can"), vec![tone(0, "直译", "I can")]);
}

#[test]
fn padding_around_the_label_and_translation_is_trimmed() {
    assert_eq!(
        rows(&["  直译 \t  I can't come tomorrow.  \n"]),
        vec![tone(0, "直译", "I can't come tomorrow.")]
    );
}

#[test]
fn blank_lines_do_not_consume_an_index() {
    assert_eq!(
        rows(&["直译\tA\n\n   \n正式\tB\n"]),
        vec![tone(0, "直译", "A"), tone(1, "正式", "B")]
    );
}

#[test]
fn the_last_row_survives_a_missing_trailing_newline() {
    assert_eq!(
        rows(&["直译\tA\n正式\tB"]),
        vec![tone(0, "直译", "A"), tone(1, "正式", "B")]
    );
}

#[test]
fn a_row_without_a_tab_becomes_unlabelled() {
    assert_eq!(
        rows(&["直译\tA\nJust a sentence.\n"]),
        vec![tone(0, "直译", "A"), tone(1, "", "Just a sentence.")]
    );
}

#[test]
fn output_ignoring_the_format_entirely_is_still_shown() {
    assert_eq!(
        rows(&["Just a sentence."]),
        vec![tone(0, "", "Just a sentence.")]
    );
}

#[test]
fn only_the_first_tab_splits_a_row() {
    assert_eq!(rows(&["直译\tA\tB\n"]), vec![tone(0, "直译", "A\tB")]);
}

#[test]
fn carriage_returns_are_stripped() {
    assert_eq!(
        rows(&["直译\tA\r\n正式\tB\r\n"]),
        vec![tone(0, "直译", "A"), tone(1, "正式", "B")]
    );
}

#[test]
fn whitespace_only_output_yields_no_rows() {
    assert_eq!(rows(&["\n  \n\n"]), vec![]);
}

#[test]
fn splitting_a_text_anywhere_gives_the_same_rows() {
    let whole = "直译\tA b\r\n\n正式 \t  C\td\nlast";
    let chars: Vec<char> = whole.chars().collect();
    for cut in 0..=chars.len() {
        let head: String = chars[..cut].iter().collect();
        let tail: String = chars[cut..].iter().collect();
        assert_eq!(rows(&[head.as_str(), tail.as_str()]), rows(&[whole]));
    }
}

#[test]
fn the_last_row_is_settled_by_finish_only_once() {
    let mut parser = Parser::default();
    assert_eq!(parser.push("直译\tA"), vec![tone(0, "直译", "A")]);
    assert_eq!(parser.finish(), vec![tone(0, "直译", "A")]);
    assert_eq!(parser.finish(), vec![]);
}

#[test]
fn a_fresh_parser_finishes_with_nothing() {
    let mut parser = Parser::default();
    assert_eq!(parser.finish(), vec![]);
}

#[test]
fn an_ordinary_fragment_fits() {
    let mut parser = Parser::default();
    assert!(parser.fits("直译\tA"));
    parser.push("直译\tA\n");
    assert!(parser.fits(""));
}

#[test]
fn a_shown_label_survives_whatever_arrives_next() {
    let mut parser = Parser::default();
    assert_eq!(parser.push("正式 \t"), vec![tone(0, "正式", "")]);
    assert_eq!(
        parser.push("I'm\tafraid\nnext"),
        vec![tone(0, "正式", "I'm\tafraid")]
    );
    let mut other = Parser::default();
    other.push("  委婉\tA");
    assert_eq!(other.finish(), vec![tone(0, "委婉", "A")]);
}
