use bundle_repo::numbering::{add_line_numbers, line_count};
use bundle_repo::text::{decimal_string, split_lines};

#[test]
fn test_add_line_numbers() {
    let content = "First line\nSecond line\nThird line";
    let numbered = add_line_numbers(content);
    assert!(numbered.contains("1  First line"));
    assert!(numbered.contains("2  Second line"));
    assert!(numbered.contains("3  Third line"));
    assert!(numbered.ends_with('\n'));
}

#[test]
fn eleven_lines_use_two_digit_numbers() {
    let content = "one\ntwo\nthree\nfour\nfive\nsix\nseven\neight\nnine\nten\neleven";
    let numbered = add_line_numbers(content);
    assert!(numbered.starts_with(" 1  one"));
    assert!(numbered.contains("11  eleven"));
    assert!(numbered.contains("\n 9  nine\n10  ten\n"));
    assert!(numbered.ends_with("eleven\n"));
}

#[test]
fn numbering_ends_with_exactly_one_newline() {
    assert_eq!(add_line_numbers(""), "\n");
    assert_eq!(add_line_numbers("a\n"), "1  a\n");
    assert_eq!(add_line_numbers("a\n\n"), "1  a\n2  \n");
    assert_eq!(add_line_numbers("a\r\nb"), "1  a\n2  b\n");
}

#[test]
fn numbering_width_follows_line_count() {
    let content: String = (0..100).map(|i| format!("l{}\n", i)).collect();
    let numbered = add_line_numbers(&content);
    assert!(numbered.starts_with("  1  l0\n"));
    assert!(numbered.contains("\n100  l99\n"));
    assert_eq!(line_count(&numbered), 100);
}

#[test]
fn lines_follow_newline_conventions() {
    assert_eq!(split_lines("a\nb\r\nc"), vec!["a", "b", "c"]);
    assert_eq!(split_lines("a\n"), vec!["a"]);
    assert_eq!(split_lines("\n"), vec![""]);
    assert_eq!(split_lines("a\r"), vec!["a\r"]);
    assert!(split_lines("").is_empty());
    assert_eq!(line_count("x\ny\n"), 2);
}

#[test]
fn decimal_numerals() {
    assert_eq!(decimal_string(0), "0");
    assert_eq!(decimal_string(7), "7");
    assert_eq!(decimal_string(1024), "1024");
    assert_eq!(decimal_string(u64::MAX), "18446744073709551615");
}

#[test]
fn numbered_lines_read_back_with_padded_numbers() {
    let content = "a\nb\nc\nd\ne\nf\ng\nh\ni\nj\nk\r\n";
    let numbered = add_line_numbers(content);
    let lines = split_lines(&numbered);
    assert_eq!(lines.len(), 11);
    for (i, line) in lines.iter().enumerate() {
        assert_eq!(&line[..2], format!("{:>2}", i + 1));
        assert_eq!(&line[2..4], "  ");
    }
}
