use cvardump::cvar::Cvar;
use cvardump::extract::extract_cvars;
use cvardump::serialize::{
    append_record, cvar_row, header_row, join_attributes, write_cvar_csv, WriteError,
};

fn cvar(name: &str, default: &str, attributes: &[&str], description: &str) -> Cvar {
    Cvar {
        name: name.to_string(),
        default: default.to_string(),
        attributes: attributes.iter().map(|a| a.to_string()).collect(),
        description: description.to_string(),
    }
}

fn text_of(bytes: Vec<u8>) -> String {
    String::from_utf8(bytes).unwrap()
}

#[test]
fn no_records_gives_only_the_header() {
    let out = write_cvar_csv(&Vec::new()).unwrap();
    assert_eq!(text_of(out), "name,default,attributes,description\n");
}

#[test]
fn header_row_labels() {
    assert_eq!(header_row(), vec!["name", "default", "attributes", "description"]);
}

#[test]
fn row_puts_attributes_second() {
    let row = cvar_row(&cvar("sv_cheats", "0", &["CHEAT", "REP"], "Allow cheats"));
    assert_eq!(row, vec!["sv_cheats", "CHEAT,REP", "0", "Allow cheats"]);
}

#[test]
fn join_attributes_values() {
    assert_eq!(join_attributes(&vec![]), "");
    assert_eq!(join_attributes(&vec!["A".to_string()]), "A");
    assert_eq!(join_attributes(&vec!["A".to_string(), "B".to_string(), "C".to_string()]), "A,B,C");
    assert_eq!(join_attributes(&vec!["".to_string(), "".to_string()]), ",");
}

#[test]
fn listing_to_csv() {
    let text = "sv_cheats : 0 : sv, rep, \"CHEAT\" : Allow cheats\n\
                banner text goes here\n\
                fov_desired : 90 : cl : Field of view\n\
                2 total convars/concommands\n";
    let (cvars, _) = extract_cvars(text.to_string()).unwrap();
    let out = write_cvar_csv(&cvars).unwrap();
    assert_eq!(
        text_of(out),
        "name,default,attributes,description\n\
         sv_cheats,CHEAT,0,Allow cheats\n\
         fov_desired,,90,Field of view\n"
    );
}

#[test]
fn fields_are_quoted_where_needed() {
    let cvars = vec![cvar("a", "x,y", &["F", "G"], "say \"hi\"\nthere")];
    let out = write_cvar_csv(&cvars).unwrap();
    assert_eq!(
        text_of(out),
        "name,default,attributes,description\na,\"F,G\",\"x,y\",\"say \"\"hi\"\"\nthere\"\n"
    );
}

#[test]
fn rows_follow_record_order() {
    let cvars = vec![cvar("b", "2", &[], ""), cvar("a", "1", &[], ""), cvar("b", "2", &[], "")];
    let out = write_cvar_csv(&cvars).unwrap();
    assert_eq!(text_of(out), "name,default,attributes,description\nb,,2,\na,,1,\nb,,2,\n");
}

#[test]
fn append_record_appends_or_reports_the_row() {
    let mut out = vec![1u8, 2];
    assert_eq!(append_record(&mut out, Ok(vec![3, 4]), 5), Ok(()));
    assert_eq!(out, vec![1, 2, 3, 4]);
    let failure = csv::Error::from(std::io::Error::new(std::io::ErrorKind::Other, "full"));
    assert_eq!(append_record(&mut out, Err(failure), 7), Err(WriteError { row: 7 }));
    assert_eq!(out, vec![1, 2, 3, 4]);
}
