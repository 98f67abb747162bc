use thsw::command_line::split_words;

fn split(line: &str) -> Vec<String> {
    split_words(line.as_bytes())
        .into_iter()
        .map(|w| String::from_utf8(w).unwrap())
        .collect()
}

#[test]
fn splits_command_and_arguments() {
    assert_eq!(
        split("xfconf-query -c xsettings -p /Net/ThemeName -s Adapta-Eta-Maia"),
        vec![
            "xfconf-query",
            "-c",
            "xsettings",
            "-p",
            "/Net/ThemeName",
            "-s",
            "Adapta-Eta-Maia"
        ]
    );
}

#[test]
fn word_without_spaces_stays_whole() {
    assert_eq!(split("notify-send"), vec!["notify-send"]);
}

#[test]
fn empty_line_is_one_empty_word() {
    assert_eq!(split(""), vec![""]);
}

#[test]
fn adjacent_spaces_enclose_an_empty_word() {
    assert_eq!(split("a  b"), vec!["a", "", "b"]);
}

#[test]
fn leading_and_trailing_spaces_give_empty_words() {
    assert_eq!(split(" a "), vec!["", "a", ""]);
}

#[test]
fn multibyte_characters_survive_the_split() {
    assert_eq!(split("écho ün deux"), vec!["écho", "ün", "deux"]);
}
