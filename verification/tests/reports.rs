use threei_dispatch_bench::text::{chars_of, contains, parse_number, parse_numbers, push_decimal};
use threei_dispatch_bench::timing::{
    min_and_median, render_csv, render_table, Bench, CsvRow, Phase, TableRow, FIRST_ITERS,
    MAX_ITERS, TRIAL_NS,
};

fn row(group: &str, name: &str, min: &str, median: &str, relative: &str) -> TableRow {
    TableRow {
        group: group.to_string(),
        name: name.to_string(),
        ns_min: min.to_string(),
        ns_median: median.to_string(),
        relative: relative.to_string(),
    }
}

fn number(s: &str, max: u64) -> Option<u64> {
    let chars = chars_of(s);
    parse_number(&chars, 0, chars.len(), max)
}

#[test]
fn a_measurement_goes_through_its_phases() {
    assert_eq!((FIRST_ITERS, MAX_ITERS, TRIAL_NS), (64, 1 << 28, 20_000_000));
    let mut b = Bench::new(2);
    assert_eq!((b.phase, b.iters), (Phase::Sizing, 64));
    b.record(1_000_000, 1280, 99);
    assert_eq!((b.phase, b.iters), (Phase::Sizing, 1280));
    b.record(19_999_999, 2560, 99);
    assert_eq!((b.phase, b.iters), (Phase::Sizing, 2560));
    b.record(20_000_000, 5000, 99);
    assert_eq!((b.phase, b.iters), (Phase::Warmup, 2560));
    b.record(1, 1, 99);
    assert_eq!((b.phase, b.iters, b.samples.len()), (Phase::Trial, 2560, 0));
    b.record(1, 1, 7);
    assert_eq!(b.phase, Phase::Trial);
    b.record(1, 1, 5);
    assert_eq!((b.phase, b.iters), (Phase::Done, 2560));
    assert_eq!(b.samples, vec![7, 5]);
}

#[test]
fn a_loop_that_grows_at_least_doubles() {
    let mut b = Bench::new(1);
    for k in 1..=22u32 {
        b.record(0, 1, 0);
        assert_eq!((b.phase, b.iters), (Phase::Sizing, 64 << k));
    }
    b.record(0, 1, 0);
    assert_eq!((b.phase, b.iters), (Phase::Warmup, 1 << 28));
}

#[test]
fn a_fast_loop_is_not_grown_for_ever() {
    let mut b = Bench::new(0);
    b.record(0, 1 << 28, 0);
    assert_eq!((b.phase, b.iters), (Phase::Sizing, 1 << 28));
    b.record(0, 1 << 30, 0);
    assert_eq!((b.phase, b.iters), (Phase::Warmup, 1 << 28));
    b.record(0, 0, 0);
    assert_eq!(b.phase, Phase::Done);
}

#[test]
fn minimum_and_median() {
    assert_eq!(min_and_median(&[5]), (5, 5));
    assert_eq!(min_and_median(&[9, 3]), (3, 9));
    assert_eq!(min_and_median(&[7, 1, 5, 3, 9]), (1, 5));
    assert_eq!(min_and_median(&[4, 4, 2, 8]), (2, 4));
    assert_eq!(min_and_median(&[8, 6, 2, 4]), (2, 6));
    let bits: Vec<u64> = [1.5f64, 0.25, 1e9, 3.0].iter().map(|x| x.to_bits()).collect();
    let (min, median) = min_and_median(&bits);
    assert_eq!((f64::from_bits(min), f64::from_bits(median)), (0.25, 3.0));
}

#[test]
fn the_table_shows_a_group_once() {
    let rows = [
        row("A", "one", "1.0", "2.0", "-"),
        row("A", "two", "3.0", "4.5", "0.50x"),
        row("B", "three", "9.9", "9.9", "1.00x"),
        row("A", "four", "1.0", "1.0", "-"),
    ];
    assert_eq!(
        render_table(&rows),
        "| group | scenario | ns/op (min) | ns/op (median) | vs baseline |\n\
         |---|---|---:|---:|---:|\n\
         | A | one | 1.0 | 2.0 | - |\n\
         |  | two | 3.0 | 4.5 | 0.50x |\n\
         | B | three | 9.9 | 9.9 | 1.00x |\n\
         | A | four | 1.0 | 1.0 | - |\n"
    );
}

#[test]
fn an_empty_table_and_an_empty_file() {
    assert_eq!(
        render_table(&[]),
        "| group | scenario | ns/op (min) | ns/op (median) | vs baseline |\n|---|---|---:|---:|---:|\n"
    );
    assert_eq!(render_csv(&[]), "group,scenario,ns_min,ns_median,iters,trials\n");
}

#[test]
fn the_file_has_a_line_per_row() {
    let rows = [
        CsvRow {
            group: "A".to_string(),
            name: "one".to_string(),
            ns_min: "1.250".to_string(),
            ns_median: "2.000".to_string(),
            iters: 268435456,
            trials: 9,
        },
        CsvRow {
            group: "A".to_string(),
            name: "two".to_string(),
            ns_min: "3.000".to_string(),
            ns_median: "4.000".to_string(),
            iters: 0,
            trials: 10,
        },
    ];
    assert_eq!(
        render_csv(&rows),
        "group,scenario,ns_min,ns_median,iters,trials\n\
         A,one,1.250,2.000,268435456,9\n\
         A,two,3.000,4.000,0,10\n"
    );
}

#[test]
fn numbers_are_printed_in_decimal() {
    for n in [0u64, 7, 10, 4096, 18446744073709551615] {
        let mut s = String::from("n=");
        push_decimal(&mut s, n);
        assert_eq!(s, format!("n={n}"));
    }
}

#[test]
fn printed_numbers_are_read_back() {
    for n in [0u64, 9, 10, 12345, u64::MAX] {
        let mut s = String::new();
        push_decimal(&mut s, n);
        assert_eq!(number(&s, u64::MAX), Some(n));
    }
}

#[test]
fn numbers_are_read_as_std_reads_them() {
    for s in [
        "", "+", "-", "-0", "+-1", "0", "007", "+7", "++7", "7 ", " 7", "7a", "1_000", "\u{661}",
        "18446744073709551615", "18446744073709551616", "99999999999999999999", "é",
    ] {
        assert_eq!(number(s, u64::MAX), s.parse::<u64>().ok(), "{s}");
    }
    assert_eq!(number("255", 255), Some(255));
    assert_eq!(number("256", 255), None);
    assert_eq!(number("8", 7), None);
}

#[test]
fn lists_of_numbers() {
    assert_eq!(parse_numbers("1,2,3"), Some(vec![1, 2, 3]));
    assert_eq!(parse_numbers("42"), Some(vec![42]));
    assert_eq!(parse_numbers("+4,05"), Some(vec![4, 5]));
    assert_eq!(parse_numbers(""), None);
    assert_eq!(parse_numbers("1,"), None);
    assert_eq!(parse_numbers(",1"), None);
    assert_eq!(parse_numbers("1,,2"), None);
    assert_eq!(parse_numbers("1, 2"), None);
}

#[test]
fn parts_of_texts() {
    assert!(contains("lookup/flat-array", "flat"));
    assert!(contains("lookup/flat-array", ""));
    assert!(contains("", ""));
    assert!(contains("aaab", "aab"));
    assert!(!contains("aab", "aaab"));
    assert!(!contains("lookup", "Look"));
    assert!(contains("naïve", "ïv"));
}
