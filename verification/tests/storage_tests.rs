use rewordle::storage::{read, save, PersistedStats};

fn chars(s: &str) -> Vec<char> {
    s.chars().collect()
}

fn text(v: &Vec<char>) -> String {
    v.iter().collect()
}

#[test]
fn save_renders_three_terminated_lines() {
    let content = save(&vec![1, 2, 3, 4, 5, 6, 7], (8, 9), 10);
    assert_eq!(text(&content), "1:2:3:4:5:6:7\n8:9\n10\n");
}

#[test]
fn save_then_read_round_trips() {
    let results = vec![0, 1, 2, 0, 4, 0, 3];
    let content = save(&results, (5, 9), 42);
    let ps: PersistedStats = read(Some(&content));
    assert_eq!(ps.results, results);
    assert_eq!(ps.streak, (5, 9));
    assert_eq!(ps.word_index, 42);
}

#[test]
fn round_trip_keeps_the_largest_values() {
    let results = vec![u32::MAX; 7];
    let content = save(&results, (u32::MAX, u32::MAX), u32::MAX);
    let ps = read(Some(&content));
    assert_eq!(ps.results, results);
    assert_eq!(ps.streak, (u32::MAX, u32::MAX));
    assert_eq!(ps.word_index, u32::MAX);
}

#[test]
fn missing_file_yields_defaults() {
    let ps = read(None);
    assert_eq!(ps.results, vec![0; 7]);
    assert_eq!(ps.streak, (0, 0));
    assert_eq!(ps.word_index, 0);
}

#[test]
fn garbage_yields_defaults() {
    let ps = read(Some(&chars("not a stats file")));
    assert_eq!(ps.results, vec![0; 7]);
    assert_eq!(ps.streak, (0, 0));
    assert_eq!(ps.word_index, 0);
}

#[test]
fn short_record_line_yields_defaults() {
    let ps = read(Some(&chars("1:2:3\n4:5\n6\n")));
    assert_eq!(ps.results, vec![0; 7]);
}

#[test]
fn negative_or_signed_numbers_yield_defaults() {
    let ps = read(Some(&chars("1:2:3:4:5:6:-7\n0:0\n0\n")));
    assert_eq!(ps.results, vec![0; 7]);
}

#[test]
fn missing_line_yields_defaults() {
    let ps = read(Some(&chars("1:2:3:4:5:6:7\n8:9\n")));
    assert_eq!(ps.results, vec![0; 7]);
    assert_eq!(ps.word_index, 0);
}

#[test]
fn extra_lines_yield_defaults() {
    let ps = read(Some(&chars("1:2:3:4:5:6:7\n8:9\n10\n11\n")));
    assert_eq!(ps.results, vec![0; 7]);
}

#[test]
fn surrounding_whitespace_is_tolerated() {
    let ps = read(Some(&chars(" 1:2:3:4:5:6:7 \r\n8:9\r\n10\r\n")));
    assert_eq!(ps.results, vec![1, 2, 3, 4, 5, 6, 7]);
    assert_eq!(ps.streak, (8, 9));
    assert_eq!(ps.word_index, 10);
}

#[test]
fn an_oversized_counter_parses_to_zero() {
    // a field beyond 32 bits fails to parse and falls back to zero, while
    // the rest of the record survives
    let ps = read(Some(&chars("1:2:3:4:5:6:99999999999\n8:9\n10\n")));
    assert_eq!(ps.results, vec![1, 2, 3, 4, 5, 6, 0]);
    assert_eq!(ps.streak, (8, 9));
}

#[test]
fn missing_trailing_newline_still_reads() {
    let ps = read(Some(&chars("1:2:3:4:5:6:7\n8:9\n10")));
    assert_eq!(ps.results, vec![1, 2, 3, 4, 5, 6, 7]);
    assert_eq!(ps.word_index, 10);
}
