use simple_cut::shell::{push_argument, push_arguments, quote_token, render_command};
use simple_cut::text::{join_strings, push_decimal, push_signed_decimal};

fn strings(words: &[&str]) -> Vec<String> {
    words.iter().map(|w| w.to_string()).collect()
}

#[test]
fn plain_words_are_written_as_they_stand() {
    assert_eq!(quote_token("ffmpeg"), "ffmpeg");
    assert_eq!(quote_token("-b:v"), "-b:v");
    assert_eq!(quote_token("/tmp/a_b-c.mp4"), "/tmp/a_b-c.mp4");
    assert_eq!(quote_token("user@host"), "user@host");
    assert_eq!(quote_token("1+2"), "1+2");
}

#[test]
fn other_words_are_quoted() {
    assert_eq!(quote_token(""), "\"\"");
    assert_eq!(quote_token("a b.mp4"), "\"a b.mp4\"");
    assert_eq!(quote_token("[v]"), "\"[v]\"");
    assert_eq!(quote_token("x=1"), "\"x=1\"");
    assert_eq!(quote_token("#tag"), "\"#tag\"");
    assert_eq!(quote_token("it's"), "\"it's\"");
}

#[test]
fn special_characters_are_escaped_between_quotes() {
    assert_eq!(quote_token("say \"hi\""), "\"say \\\"hi\\\"\"");
    assert_eq!(quote_token("C:\\tools\\ffmpeg.exe"), "\"C:\\\\tools\\\\ffmpeg.exe\"");
    assert_eq!(quote_token("$HOME"), "\"\\$HOME\"");
    assert_eq!(quote_token("`id`"), "\"\\`id\\`\"");
}

#[test]
fn arguments_are_appended_after_a_space() {
    let mut line = String::from("ffmpeg");
    push_argument(&mut line, "-i");
    push_argument(&mut line, "my file.mp4");
    assert_eq!(line, "ffmpeg -i \"my file.mp4\"");
    push_arguments(&mut line, &strings(&["-y", "out dir/o.mp4"]));
    assert_eq!(line, "ffmpeg -i \"my file.mp4\" -y \"out dir/o.mp4\"");
}

#[test]
fn a_command_line_is_its_arguments_with_single_spaces() {
    assert_eq!(render_command(&strings(&[])), "");
    assert_eq!(render_command(&strings(&["ffmpeg"])), "ffmpeg");
    assert_eq!(
        render_command(&strings(&["ffmpeg", "-i", "a b.mp4", "", "o.mp4"])),
        "ffmpeg -i \"a b.mp4\" \"\" o.mp4"
    );
}

#[test]
fn a_command_line_splits_back_into_its_arguments() {
    let cases: Vec<Vec<String>> = vec![
        strings(&["ffmpeg", "-y", "-i", "a.mp4", "out.mp4"]),
        strings(&["C:\\Program Files\\ffmpeg.exe", "-i", "my clip.mp4", "out put.mp4"]),
        strings(&["prog", "", " ", "\t", "a\nb"]),
        strings(&["prog", "\"", "\\", "\\\"", "$x", "`y`", "'z'", "#c", "a\\b c"]),
        strings(&["prog", "-filter_complex", "[0:v] [0:a] concat=n=1:v=1:a=1 [v] [a]"]),
        strings(&["prog", "日本語 ファイル.mp4", "é"]),
        strings(&["prog", "a\\", "\\\\", "x\\\ny"]),
    ];
    for args in cases {
        let line = render_command(&args);
        assert_eq!(shlex::split(&line), Some(args));
    }
}

#[test]
fn numbers_are_written_in_decimal() {
    for (number, text) in [
        (0u64, "0"),
        (7, "7"),
        (10, "10"),
        (1234567890, "1234567890"),
        (u64::MAX, "18446744073709551615"),
    ] {
        let mut out = String::from("n=");
        push_decimal(&mut out, number);
        assert_eq!(out, format!("n={}", text));
    }
    for (number, text) in
        [(0i64, "0"), (-1, "-1"), (42, "42"), (i64::MIN, "-9223372036854775808")]
    {
        let mut out = String::new();
        push_signed_decimal(&mut out, number);
        assert_eq!(out, text);
    }
}

#[test]
fn strings_are_joined_with_a_separator() {
    assert_eq!(join_strings(&strings(&[]), ";"), "");
    assert_eq!(join_strings(&strings(&["a"]), ";"), "a");
    assert_eq!(join_strings(&strings(&["a", "b", "c"]), ";"), "a;b;c");
    assert_eq!(join_strings(&strings(&["a", "", "c"]), ", "), "a, , c");
}
