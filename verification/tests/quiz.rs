use kanji_quiz::errors::QuizError;
use kanji_quiz::grade::grade_answer;
use kanji_quiz::parse::parse_selection;
use kanji_quiz::pick::pick;
use kanji_quiz::records::{Config, Kanji, Selection};
use kanji_quiz::select::{check_categories, filter_records};
use kanji_quiz::session::{key_action, KeyAction};

fn record(category: &str, character: &str, meaning: &str) -> Kanji {
    Kanji {
        category: category.to_string(),
        character: character.to_string(),
        onyomi: "on".to_string(),
        kunyomi: "kun".to_string(),
        meaning: meaning.to_string(),
    }
}

fn sample_records() -> Vec<Kanji> {
    vec![
        record("jlptn1", "one", "first"),
        record("jlptn2", "two", "second"),
        record("jlptn1", "three", "third"),
        record("jlptn3", "four", "fourth"),
    ]
}

#[test]
fn filter_all_keeps_every_record_in_order() {
    let records = sample_records();
    let kept = filter_records(&records, &Selection::All).unwrap();
    assert_eq!(kept, records);
}

#[test]
fn filter_empty_category_list_keeps_every_record() {
    let records = sample_records();
    let kept = filter_records(&records, &Selection::Categories(Vec::new())).unwrap();
    assert_eq!(kept, records);
}

#[test]
fn filter_keeps_exactly_the_matching_records() {
    let records = sample_records();
    let sel = Selection::Categories(vec!["jlptn1".to_string(), "jlptn2".to_string()]);
    let kept = filter_records(&records, &sel).unwrap();
    assert_eq!(kept.len(), 3);
    assert_eq!(kept[0], records[0]);
    assert_eq!(kept[1], records[1]);
    assert_eq!(kept[2], records[2]);
    for k in &kept {
        assert!(k.category == "jlptn1" || k.category == "jlptn2");
    }
}

#[test]
fn filter_with_no_match_is_an_empty_selection_error() {
    let records = sample_records();
    let sel = Selection::Categories(vec!["jlptn5".to_string()]);
    assert_eq!(filter_records(&records, &sel), Err(QuizError::EmptySelection));
}

#[test]
fn filter_of_no_records_is_an_empty_selection_error() {
    let records: Vec<Kanji> = Vec::new();
    assert_eq!(
        filter_records(&records, &Selection::All),
        Err(QuizError::EmptySelection)
    );
}

#[test]
fn range_expands_to_each_level() {
    let names = parse_selection("1-3").unwrap();
    assert_eq!(names, vec!["jlptn1", "jlptn2", "jlptn3"]);
}

#[test]
fn all_expands_to_every_level() {
    let names = parse_selection("all").unwrap();
    assert_eq!(names, vec!["jlptn1", "jlptn2", "jlptn3", "jlptn4", "jlptn5"]);
}

#[test]
fn comma_list_is_trimmed_and_prefixed() {
    let names = parse_selection("2, 4").unwrap();
    assert_eq!(names, vec!["jlptn2", "jlptn4"]);
}

#[test]
fn free_form_category_passes_through_verbatim() {
    let names = parse_selection("kana").unwrap();
    assert_eq!(names, vec!["kana"]);
}

#[test]
fn numeric_token_keeps_its_written_digits() {
    let names = parse_selection("07").unwrap();
    assert_eq!(names, vec!["jlptn07"]);
}

#[test]
fn range_with_a_letter_is_invalid() {
    assert_eq!(parse_selection("3-a"), Err(QuizError::InvalidRange));
}

#[test]
fn range_with_three_parts_is_invalid() {
    assert_eq!(parse_selection("3-1-2"), Err(QuizError::InvalidRange));
}

#[test]
fn range_too_large_for_a_level_number_is_invalid() {
    assert_eq!(
        parse_selection("1-99999999999"),
        Err(QuizError::InvalidRange)
    );
}

#[test]
fn reversed_range_expands_to_nothing() {
    let names = parse_selection("5-3").unwrap();
    assert!(names.is_empty());
}

#[test]
fn pick_from_one_record_returns_it() {
    let records = vec![record("jlptn1", "one", "first")];
    for _ in 0..16 {
        let chosen = pick(&records).unwrap();
        assert_eq!(*chosen, records[0]);
    }
}

#[test]
fn pick_from_nothing_is_an_empty_input_error() {
    let records: Vec<Kanji> = Vec::new();
    assert_eq!(pick(&records), Err(QuizError::EmptyInput));
}

#[test]
fn pick_returns_a_member_of_the_list() {
    let records = sample_records();
    for _ in 0..32 {
        let chosen = pick(&records).unwrap();
        assert!(records.contains(chosen));
    }
}

#[test]
fn apply_selection_replaces_only_the_selection() {
    let records = sample_records();
    let mut config = Config {
        selected_category: Selection::All,
        kanji: sample_records(),
    };
    let sel = Selection::Categories(vec!["jlptn2".to_string()]);
    config.apply_selection(sel);
    assert_eq!(
        config.selected_category,
        Selection::Categories(vec!["jlptn2".to_string()])
    );
    assert_eq!(config.kanji, records);
}

#[test]
fn grading_accepts_each_listed_meaning() {
    assert!(grade_answer("to eat, to consume", "to eat"));
    assert!(grade_answer("to eat, to consume", "to consume"));
}

#[test]
fn grading_ignores_ascii_case() {
    assert!(grade_answer("to eat, to consume", "TO CONSUME"));
}

#[test]
fn grading_ignores_surrounding_whitespace() {
    assert!(grade_answer("to eat, to consume", " to eat "));
}

#[test]
fn grading_rejects_an_unlisted_meaning() {
    assert!(!grade_answer("to eat, to consume", "to drink"));
}

#[test]
fn grading_rejects_the_empty_answer_against_nonempty_meanings() {
    assert!(!grade_answer("to eat", ""));
}

#[test]
fn known_categories_pass_the_check() {
    let records = sample_records();
    let cats = vec!["jlptn1".to_string(), "jlptn3".to_string()];
    assert_eq!(check_categories(&records, &cats), Ok(()));
}

#[test]
fn an_unknown_category_fails_the_check() {
    let records = sample_records();
    let cats = vec!["jlptn1".to_string(), "jlptn9".to_string()];
    assert_eq!(
        check_categories(&records, &cats),
        Err(QuizError::InvalidCategory)
    );
}

#[test]
fn each_key_asks_for_its_step() {
    assert_eq!(key_action('y'), KeyAction::AnswerYes);
    assert_eq!(key_action('Y'), KeyAction::AnswerYes);
    assert_eq!(key_action('n'), KeyAction::AnswerNo);
    assert_eq!(key_action('N'), KeyAction::AnswerNo);
    assert_eq!(key_action('o'), KeyAction::OpenDisplay);
    assert_eq!(key_action('O'), KeyAction::OpenDisplay);
    assert_eq!(key_action('q'), KeyAction::Quit);
    assert_eq!(key_action('Q'), KeyAction::Quit);
    assert_eq!(key_action('x'), KeyAction::Ignore);
    assert_eq!(key_action(' '), KeyAction::Ignore);
}
