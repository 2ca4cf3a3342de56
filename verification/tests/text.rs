use dotcli::text::digit_char;
use dotcli::text::find_char;
use dotcli::text::from_chars;
use dotcli::text::has;
use dotcli::text::join_rows;
use dotcli::text::push_all;
use dotcli::text::push_decimal;
use dotcli::text::push_str;
use dotcli::text::same;
use dotcli::text::slice;
use dotcli::text::split_lines;
use dotcli::text::to_chars;

fn lines_of(text: &str) -> Vec<String> {
    split_lines(&to_chars(text)).iter().map(from_chars).collect()
}

fn std_lines_of(text: &str) -> Vec<String> {
    text.lines().map(|line| line.to_string()).collect()
}

fn decimal_of(n: usize) -> String {
    let mut out = Vec::new();
    push_decimal(&mut out, n);
    from_chars(&out)
}

#[test]
fn chars_of_a_string_in_order() {
    assert_eq!(to_chars("a=b"), vec!['a', '=', 'b']);
    assert_eq!(to_chars(""), Vec::<char>::new());
    assert_eq!(to_chars("é\n"), vec!['é', '\n']);
}

#[test]
fn string_from_chars_holds_every_char() {
    assert_eq!(from_chars(&vec!['a', 'b', 'c']), "abc");
    assert_eq!(from_chars(&vec![]), "");
    assert_eq!(from_chars(&to_chars("naïve ☃ text")), "naïve ☃ text");
}

#[test]
fn slice_copies_the_range() {
    let s = to_chars("alias ll=ls");
    assert_eq!(from_chars(&slice(&s, 6, 8)), "ll");
    assert_eq!(from_chars(&slice(&s, 0, 0)), "");
    assert_eq!(from_chars(&slice(&s, 0, s.len())), "alias ll=ls");
    assert_eq!(from_chars(&slice(&s, s.len(), s.len())), "");
}

#[test]
fn push_all_and_push_str_append() {
    let mut out = to_chars("ab");
    push_all(&mut out, &to_chars("cd"));
    push_str(&mut out, "ef");
    push_str(&mut out, "");
    assert_eq!(from_chars(&out), "abcdef");
}

#[test]
fn same_compares_by_content() {
    assert!(same(&to_chars("add"), &to_chars("add")));
    assert!(!same(&to_chars("add"), &to_chars("adds")));
    assert!(!same(&to_chars("add"), &to_chars("ado")));
    assert!(!same(&to_chars("add"), &to_chars("")));
    assert!(same(&to_chars(""), &to_chars("")));
}

#[test]
fn find_char_gives_the_first_position_from_the_start() {
    let s = to_chars("a=b=c");
    assert_eq!(find_char(&s, 0, '='), 1);
    assert_eq!(find_char(&s, 1, '='), 1);
    assert_eq!(find_char(&s, 2, '='), 3);
    assert_eq!(find_char(&s, 4, '='), 5);
    assert_eq!(find_char(&s, 5, '='), 5);
    assert_eq!(find_char(&s, 0, 'x'), 5);
    assert_eq!(find_char(&to_chars(""), 0, 'x'), 0);
}

#[test]
fn has_finds_a_phrase_anywhere() {
    let word = to_chars("alias");
    assert!(has(&to_chars("alias ll=ls"), &word));
    assert!(has(&to_chars("  my aliases"), &word));
    assert!(has(&to_chars("unalias"), &word));
    assert!(has(&to_chars("alias"), &word));
    assert!(!has(&to_chars("alia"), &word));
    assert!(!has(&to_chars("alia s"), &word));
    assert!(!has(&to_chars("aliaalia"), &word));
    assert!(!has(&to_chars(""), &word));
    assert!(has(&to_chars("aalias"), &word));
    assert!(has(&to_chars("abc"), &to_chars("")));
    assert!(has(&to_chars(""), &to_chars("")));
}

#[test]
fn lines_end_at_line_feeds() {
    assert_eq!(lines_of("a\nb\nc"), vec!["a", "b", "c"]);
    assert_eq!(lines_of("a\nb\n"), vec!["a", "b"]);
    assert_eq!(lines_of("a\n\nb"), vec!["a", "", "b"]);
    assert_eq!(lines_of("\n"), vec![""]);
    assert_eq!(lines_of("\n\n"), vec!["", ""]);
    assert_eq!(lines_of(""), Vec::<String>::new());
    assert_eq!(lines_of("single"), vec!["single"]);
}

#[test]
fn lines_lose_a_carriage_return_before_the_line_feed_only() {
    assert_eq!(lines_of("a\r\nb"), vec!["a", "b"]);
    assert_eq!(lines_of("a\r\n"), vec!["a"]);
    assert_eq!(lines_of("a\r"), vec!["a\r"]);
    assert_eq!(lines_of("a\r\r\n"), vec!["a\r"]);
    assert_eq!(lines_of("a\rb\n"), vec!["a\rb"]);
    assert_eq!(lines_of("\r\n"), vec![""]);
    assert_eq!(lines_of("\r"), vec!["\r"]);
}

#[test]
fn lines_agree_with_the_standard_library() {
    let samples = [
        "",
        "\n",
        "\r",
        "\r\n",
        "\n\r",
        "a",
        "a\n",
        "a\r\n",
        "a\n\r\nb\r",
        "alias ll=\"ls -la\"\n# Added by dotcli\nexport PATH=\"$PATH:/x\"\n",
        "\n\n\n",
        "x\r\r\n\r\ny",
        "tab\there\nünïcödé\r\n終わり",
    ];
    for sample in samples {
        assert_eq!(lines_of(sample), std_lines_of(sample), "for {:?}", sample);
    }
}

#[test]
fn join_puts_the_separator_between_rows() {
    let rows = vec![to_chars("a"), to_chars("bc"), to_chars("")];
    assert_eq!(from_chars(&join_rows(&rows, &to_chars(", "))), "a, bc, ");
    assert_eq!(from_chars(&join_rows(&vec![to_chars("only")], &to_chars("\n"))), "only");
    assert_eq!(from_chars(&join_rows(&vec![], &to_chars("\n"))), "");
    assert_eq!(from_chars(&join_rows(&vec![to_chars(""), to_chars("")], &to_chars("-"))), "-");
}

#[test]
fn digits_are_written_as_characters() {
    let expected = ['0', '1', '2', '3', '4', '5', '6', '7', '8', '9'];
    for d in 0..10 {
        assert_eq!(digit_char(d), expected[d]);
    }
}

#[test]
fn numbers_are_written_in_base_ten() {
    assert_eq!(decimal_of(0), "0");
    assert_eq!(decimal_of(1), "1");
    assert_eq!(decimal_of(9), "9");
    assert_eq!(decimal_of(10), "10");
    assert_eq!(decimal_of(11), "11");
    assert_eq!(decimal_of(100), "100");
    assert_eq!(decimal_of(1090), "1090");
    assert_eq!(decimal_of(usize::MAX), usize::MAX.to_string());
    for n in 0..2000 {
        assert_eq!(decimal_of(n), n.to_string());
    }
}

#[test]
fn a_number_is_written_behind_what_is_there() {
    let mut out = to_chars("[");
    push_decimal(&mut out, 42);
    assert_eq!(from_chars(&out), "[42");
}
