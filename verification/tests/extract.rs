use cvardump::cvar::Cvar;
use cvardump::extract::{
    absorb_line, attribute_from_groups, extract_cvars, group_string, ExtractError, Grammar, Line,
};
use cvardump::lines::parse_count;

fn cvar(name: &str, default: &str, attributes: &[&str], description: &str) -> Cvar {
    Cvar {
        name: name.to_string(),
        default: default.to_string(),
        attributes: attributes.iter().map(|a| a.to_string()).collect(),
        description: description.to_string(),
    }
}

#[test]
fn the_three_grammars_compile() {
    assert!(Grammar::compile().is_ok());
}

fn parse_attributes(column: &str) -> Vec<String> {
    Grammar::compile().unwrap().parse_attributes(column)
}

fn classify_line(line: &str) -> Line {
    Grammar::compile().unwrap().classify_line(line)
}

#[test]
fn listing_with_banner_and_summary() {
    let text = "sv_cheats : 0 : sv, rep, \"CHEAT\" : Allow cheats\n\
                banner text goes here\n\
                fov_desired : 90 : cl : Field of view\n\
                2 total convars/concommands\n";
    let (cvars, expected) = extract_cvars(text.to_string()).unwrap();
    assert_eq!(
        cvars,
        vec![
            cvar("sv_cheats", "0", &["CHEAT"], "Allow cheats"),
            cvar("fov_desired", "90", &[], "Field of view"),
        ]
    );
    assert_eq!(expected, Some(2));
}

#[test]
fn extraction_is_repeatable() {
    let text = "a : 1 : , \"X\" : first\nnoise\nb : 2 : : second\n7 total convars/concommands";
    let first = extract_cvars(text.to_string());
    let second = extract_cvars(text.to_string());
    assert_eq!(first, second);
    assert!(first.is_ok());
}

#[test]
fn records_keep_line_order() {
    let text = "zeta : 1 : : z\nskip me\nalpha : 2 : : a\n\nmid : 3 : : m\n";
    let (cvars, expected) = extract_cvars(text.to_string()).unwrap();
    let names: Vec<&str> = cvars.iter().map(|c| c.name.as_str()).collect();
    assert_eq!(names, vec!["zeta", "alpha", "mid"]);
    assert_eq!(expected, None);
}

#[test]
fn attributes_keep_their_order() {
    let text = "x : 1 : , \"A\", \"B\", \"C\" : d";
    let (cvars, _) = extract_cvars(text.to_string()).unwrap();
    assert_eq!(cvars, vec![cvar("x", "1", &["A", "B", "C"], "d")]);
}

#[test]
fn duplicate_attributes_are_kept() {
    assert_eq!(parse_attributes(", \"A\", \"B\", \"A\""), vec!["A", "B", "A"]);
}

#[test]
fn attribute_without_space_after_comma() {
    assert_eq!(parse_attributes("sv,\"A\", \"B\""), vec!["A", "B"]);
}

#[test]
fn column_without_quoted_names_has_no_attributes() {
    assert_eq!(parse_attributes("sv, rep, cl"), Vec::<String>::new());
    assert_eq!(parse_attributes(""), Vec::<String>::new());
}

#[test]
fn unterminated_quote_adds_nothing() {
    assert_eq!(parse_attributes(", \"A\", \"B"), vec!["A"]);
}

#[test]
fn missing_description_is_empty() {
    let (cvars, _) = extract_cvars("foo : 1 : cl :".to_string()).unwrap();
    assert_eq!(cvars, vec![cvar("foo", "1", &[], "")]);
}

#[test]
fn empty_default_value() {
    let (cvars, _) = extract_cvars("foo :  : cl : text".to_string()).unwrap();
    assert_eq!(cvars, vec![cvar("foo", "", &[], "text")]);
}

#[test]
fn description_keeps_later_colons() {
    let (cvars, _) = extract_cvars("a : b : c : d : e".to_string()).unwrap();
    assert_eq!(cvars, vec![cvar("a", "b", &[], "d : e")]);
}

#[test]
fn padding_before_colons_is_dropped() {
    let (cvars, _) = extract_cvars("name      : 12    : , \"A\"   : text".to_string()).unwrap();
    assert_eq!(cvars, vec![cvar("name", "12", &["A"], "text")]);
}

#[test]
fn two_summary_lines_are_fatal() {
    let text = "a : 1 : : x\n1 total convars/concommands\n1 total convars/concommands\n";
    assert_eq!(extract_cvars(text.to_string()), Err(ExtractError::DuplicateCount));
}

#[test]
fn two_summary_lines_apart_are_fatal() {
    let text = "3 total convars/concommands\na : 1 : : x\nnoise\n4 total convars/concommands";
    assert_eq!(extract_cvars(text.to_string()), Err(ExtractError::DuplicateCount));
}

#[test]
fn count_too_large_is_rejected() {
    let text = "99999999999999999999999999999999 total convars/concommands";
    assert_eq!(extract_cvars(text.to_string()), Err(ExtractError::CountUnparsable));
}

#[test]
fn count_in_other_digits_is_rejected() {
    let text = "\u{0663} total convars/concommands";
    assert_eq!(extract_cvars(text.to_string()), Err(ExtractError::CountUnparsable));
}

#[test]
fn noise_changes_nothing() {
    let plain = "a : 1 : : x\nb : 2 : , \"F\" : y\n2 total convars/concommands";
    let noisy = "\ncvar list\n--------------\na : 1 : : x\n   \nname  default  flags\n\
                 b : 2 : , \"F\" : y\n====\n2 total convars/concommands\n\n";
    assert_eq!(extract_cvars(noisy.to_string()), extract_cvars(plain.to_string()));
    assert_eq!(extract_cvars(plain.to_string()).unwrap().0.len(), 2);
}

#[test]
fn only_noise_gives_nothing() {
    assert_eq!(extract_cvars("hello\n\nworld".to_string()), Ok((vec![], None)));
    assert_eq!(extract_cvars(String::new()), Ok((vec![], None)));
}

#[test]
fn crlf_line_endings() {
    let text = "a : 1 : : x\r\n5 total convars/concommands\r\n";
    let (cvars, expected) = extract_cvars(text.to_string()).unwrap();
    assert_eq!(cvars, vec![cvar("a", "1", &[], "x")]);
    assert_eq!(expected, Some(5));
}

#[test]
fn summary_must_be_the_whole_line() {
    let text = "12 total convars/concommands found\n total convars/concommands\n";
    assert_eq!(extract_cvars(text.to_string()), Ok((vec![], None)));
}

#[test]
fn classify_each_kind() {
    assert_eq!(
        classify_line("a : 1 : , \"F\" : x"),
        Line::Record(cvar("a", "1", &["F"], "x"))
    );
    assert_eq!(classify_line("42 total convars/concommands"), Line::Count("42".to_string()));
    assert_eq!(classify_line("anything else"), Line::Noise);
    assert_eq!(classify_line(""), Line::Noise);
}

#[test]
fn parse_count_values() {
    assert_eq!(parse_count("0"), Some(0));
    assert_eq!(parse_count("007"), Some(7));
    assert_eq!(parse_count("1234"), Some(1234));
    assert_eq!(parse_count(&usize::MAX.to_string()), Some(usize::MAX));
    assert_eq!(parse_count(&format!("{}0", usize::MAX)), None);
    assert_eq!(parse_count("18446744073709551616"), None);
    assert_eq!(parse_count(""), None);
    assert_eq!(parse_count("12a"), None);
    assert_eq!(parse_count("+1"), None);
    assert_eq!(parse_count("-1"), None);
}

#[test]
fn group_string_of_present_and_missing_groups() {
    let groups = vec![Some("whole".to_string()), Some("one".to_string()), None];
    assert_eq!(group_string(&groups, 1), "one");
    assert_eq!(group_string(&groups, 2), "");
    assert_eq!(group_string(&groups, 3), "");
}

#[test]
fn cvar_from_groups_fills_the_fields() {
    let groups = vec![
        Some("n : d : a : t".to_string()),
        Some("n".to_string()),
        Some("d".to_string()),
        Some("a".to_string()),
        Some("t".to_string()),
    ];
    let built = Cvar::from_groups(&groups, vec!["F".to_string()]);
    assert_eq!(built, cvar("n", "d", &["F"], "t"));
    let short = vec![
        Some("n : d : a :".to_string()),
        Some("n".to_string()),
        Some("d".to_string()),
        Some("a".to_string()),
        None,
    ];
    assert_eq!(Cvar::from_groups(&short, vec![]), cvar("n", "d", &[], ""));
}

#[test]
fn attribute_from_groups_takes_group_one() {
    let found = Some(vec![Some(", \"A\"".to_string()), Some("A".to_string())]);
    assert_eq!(attribute_from_groups(&found), Some("A".to_string()));
    assert_eq!(attribute_from_groups(&Some(vec![Some("x".to_string()), None])), None);
    assert_eq!(attribute_from_groups(&Some(vec![Some("x".to_string())])), None);
    assert_eq!(attribute_from_groups(&None), None);
}

#[test]
fn absorb_line_steps() {
    let mut cvars: Vec<Cvar> = Vec::new();
    let mut expected: Option<usize> = None;
    assert_eq!(absorb_line(&mut cvars, &mut expected, Line::Noise), Ok(()));
    assert_eq!((cvars.len(), expected), (0, None));
    let one = cvar("a", "1", &[], "x");
    assert_eq!(absorb_line(&mut cvars, &mut expected, Line::Record(one.clone())), Ok(()));
    assert_eq!(cvars, vec![one.clone()]);
    assert_eq!(
        absorb_line(&mut cvars, &mut expected, Line::Count("x".to_string())),
        Err(ExtractError::CountUnparsable)
    );
    assert_eq!(expected, None);
    assert_eq!(absorb_line(&mut cvars, &mut expected, Line::Count("3".to_string())), Ok(()));
    assert_eq!(expected, Some(3));
    assert_eq!(
        absorb_line(&mut cvars, &mut expected, Line::Count("4".to_string())),
        Err(ExtractError::DuplicateCount)
    );
    assert_eq!(expected, Some(3));
    assert_eq!(cvars, vec![one]);
}

#[test]
fn bare_carriage_return_stays_in_the_line() {
    let (cvars, _) = extract_cvars("a : 1 : : x\r".to_string()).unwrap();
    assert_eq!(cvars, vec![cvar("a", "1", &[], "x\r")]);
    let (cvars, _) = extract_cvars("a : 1 : : x\r\r\nb : 2 : : y".to_string()).unwrap();
    assert_eq!(cvars, vec![cvar("a", "1", &[], "x\r"), cvar("b", "2", &[], "y")]);
}

#[test]
fn description_after_single_space_keeps_further_spaces() {
    let (cvars, _) = extract_cvars("a : 1 : :   x  ".to_string()).unwrap();
    assert_eq!(cvars, vec![cvar("a", "1", &[], "  x  ")]);
}
