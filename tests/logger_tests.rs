use trssh::geometry::Rgba;
use trssh::logger::Logger;

fn white() -> Rgba {
    Rgba::new(255, 255, 255, 255)
}

#[test]
fn width_budget_of_the_default_logger() {
    let l = Logger::new(682, 50, 1080, 840, 5, 20, white(), String::new());
    assert_eq!(l.get_max_num_chars(), 118);
}

#[test]
fn narrow_logger_has_no_width() {
    let l = Logger::new(0, 0, 10, 100, 5, 20, white(), String::new());
    assert_eq!(l.get_max_num_chars(), 0);
}

#[test]
fn long_line_is_split_to_fit_with_its_tag() {
    // room = 54 - 0 - 9 = 45 pixels, five characters
    let mut l = Logger::new(0, 0, 54, 100, 0, 20, white(), "> ".to_string());
    assert_eq!(l.get_max_num_chars(), 5);
    l.add_line("abcdefgh");
    let lines = l.get_lines();
    assert_eq!(lines, vec!["> abc".to_string(), "defgh".to_string()]);
    for line in &lines {
        assert!(line.chars().count() <= 5);
    }
}

#[test]
fn line_exactly_the_width_is_kept_whole() {
    let mut l = Logger::new(0, 0, 54, 100, 0, 20, white(), String::new());
    l.add_line("abcde");
    assert_eq!(l.get_lines(), vec!["abcde".to_string()]);
}

#[test]
fn text_is_split_at_line_endings() {
    let mut l = Logger::new(0, 0, 1080, 100, 5, 20, white(), String::new());
    l.add_line("one\ntwo\r\nthree\n");
    assert_eq!(
        l.get_lines(),
        vec!["one".to_string(), "two".to_string(), "three".to_string()]
    );
}

#[test]
fn empty_text_without_tag_adds_nothing() {
    let mut l = Logger::new(0, 0, 1080, 100, 5, 20, white(), String::new());
    l.add_line("");
    assert!(l.get_lines().is_empty());
}

#[test]
fn blank_middle_line_is_kept() {
    let mut l = Logger::new(0, 0, 1080, 100, 5, 20, white(), String::new());
    l.add_line("a\n\nb");
    assert_eq!(l.get_lines(), vec!["a".to_string(), String::new(), "b".to_string()]);
}

#[test]
fn only_the_most_recent_lines_are_visible() {
    // 44 / (20 + 2) = 2 lines fit
    let mut l = Logger::new(0, 0, 1080, 44, 5, 20, white(), String::new());
    for s in ["1", "2", "3", "4", "5"] {
        l.add_line(s);
    }
    assert_eq!(
        l.visible_lines(),
        vec!["4".to_string(), "5".to_string()]
    );
}

#[test]
fn clearing_empties_the_scrollback() {
    let mut l = Logger::new(0, 0, 1080, 44, 5, 20, white(), String::new());
    l.add_line("x");
    l.clear_lines();
    assert!(l.get_lines().is_empty());
}

#[test]
fn each_line_of_multi_line_text_is_cut_to_the_width() {
    let mut l = Logger::new(0, 0, 54, 100, 0, 20, white(), String::new());
    l.add_line("abcdefg\nhi\n");
    assert_eq!(l.get_lines(), vec!["abcde".to_string(), "fg".to_string(), "hi".to_string()]);
}
