use rostr::configuration::{
    Configuration, Destination, Operation, ParseError, Process, Source, Transfer,
};
use rostr::json::Json;

const PROCESS_TEXT: &str = r#"
{
    "id": 2308,
    "parallel": true,
    "transfer": [
        {
            "id": 2432,
            "operation": "overwrite",
            "src": {
                "path": "my/path/",
                "option": ["TRUNCATE=1", "option3"]
            },
            "dst": {
                "path": "my/destination",
                "option": ["option2", "option3"]
            }
        }
    ]
}"#;

const TRANSFER_TEXT: &str = r#"{
        "id": 1,
        "operation": "overwrite",
        "src": {
            "path": "my/path/",
            "option": ["TRUNCATE=1", "option3"]
        },
        "dst": {
            "path": "my/destination",
            "option": ["option2", "option3"]
        }
    }"#;

fn strings(items: &[&str]) -> Vec<String> {
    items.iter().map(|s| s.to_string()).collect()
}

fn the_transfer(id: u32) -> Transfer {
    Transfer {
        id,
        operation: Operation::Overwrite,
        src: Source { path: "my/path/".to_string(), option: strings(&["TRUNCATE=1", "option3"]) },
        dst: Destination {
            path: "my/destination".to_string(),
            option: strings(&["option2", "option3"]),
        },
    }
}

fn process_text(id: u32) -> String {
    format!(
        r#"{{"id": {}, "parallel": false, "transfer": [{{"id": 1, "operation": "update",
            "src": {{"path": "s", "option": []}}, "dst": {{"path": "d", "option": ["K=V"]}}}}]}}"#,
        id
    )
}

fn configuration_text(ids: &[u32]) -> String {
    let parts: Vec<String> = ids.iter().map(|id| process_text(*id)).collect();
    format!("[{}]", parts.join(","))
}

#[test]
fn a_process_is_read_from_its_text() {
    let p = Process::new(PROCESS_TEXT).unwrap();
    assert_eq!(p, Process { id: 2308, parallel: true, transfer: vec![the_transfer(2432)] });
}

#[test]
fn a_transfer_is_read_from_its_text() {
    assert_eq!(Transfer::from_str(TRANSFER_TEXT), Ok(the_transfer(1)));
}

#[test]
fn a_transfer_of_a_read_process_is_found_by_its_id() {
    let p = Process::new(PROCESS_TEXT).unwrap();
    let t = p.get_transfer(2432).unwrap();
    assert_eq!(t.id, 2432);
}

#[test]
fn a_read_transfer_is_pushed_onto_a_read_process() {
    let mut p = Process::new(PROCESS_TEXT).unwrap();
    let t = Transfer::from_str(TRANSFER_TEXT).unwrap();
    p.push_transfer(t).unwrap();
    assert_eq!(p.transfer.len(), 2);
    assert_eq!(p.transfer[1], the_transfer(1));
}

#[test]
fn a_configuration_is_read_from_its_text() {
    let c = Configuration::new(&configuration_text(&[4, 5, 6, 7, 8, 9])).unwrap();
    let ids: Vec<u32> = c.process.iter().map(|p| p.id).collect();
    assert_eq!(ids, vec![4, 5, 6, 7, 8, 9]);
    assert_eq!(c.process[0].transfer[0].operation, Operation::Update);
    assert_eq!(c.process[0].transfer[0].dst.option, strings(&["K=V"]));
    assert!(!c.process[0].parallel);
    assert_eq!(Configuration::load_str(&configuration_text(&[4, 5])).unwrap(), c.process[..2]);
}

#[test]
fn an_empty_array_is_the_empty_configuration() {
    assert_eq!(Configuration::new("[]"), Ok(Configuration { process: vec![] }));
    assert_eq!(Configuration::new(" [ ] \n"), Ok(Configuration { process: vec![] }));
}

#[test]
fn scenario_read_remove_nine_and_look_up_by_list() {
    let mut c = Configuration::new(&configuration_text(&[4, 5, 6, 7, 8, 9])).unwrap();
    assert_eq!(c.remove_process(9).unwrap().id, 9);
    assert_eq!(c.process.len(), 5);
    let found = c.get_process_by_list(vec![4, 5, 6, 7, 8, 9]).unwrap();
    let ids: Vec<u32> = found.iter().map(|p| p.id).collect();
    assert_eq!(ids, vec![4, 5, 6, 7, 8]);
}

#[test]
fn the_three_operations_are_read_by_name() {
    assert_eq!(Operation::from_name("overwrite"), Some(Operation::Overwrite));
    assert_eq!(Operation::from_name("update"), Some(Operation::Update));
    assert_eq!(Operation::from_name("upsert"), Some(Operation::Upsert));
    assert_eq!(Operation::Overwrite.name(), "overwrite");
    assert_eq!(Operation::Update.name(), "update");
    assert_eq!(Operation::Upsert.name(), "upsert");
}

#[test]
fn an_operation_of_another_name_is_rejected() {
    assert_eq!(Operation::from_name("Overwrite"), None);
    assert_eq!(Operation::from_name("UPDATE"), None);
    assert_eq!(Operation::from_name("upser"), None);
    assert_eq!(Operation::from_name("upsert "), None);
    assert_eq!(Operation::from_name(""), None);
    let text = TRANSFER_TEXT.replace("\"overwrite\"", "\"Overwrite\"");
    assert_eq!(Transfer::from_str(&text), Err(ParseError::UnknownOperation));
    let text = TRANSFER_TEXT.replace("\"overwrite\"", "\"delete\"");
    assert_eq!(Transfer::from_str(&text), Err(ParseError::UnknownOperation));
    let text = PROCESS_TEXT.replace("\"overwrite\"", "\"append\"");
    assert_eq!(Process::new(&text), Err(ParseError::UnknownOperation));
}

#[test]
fn an_operation_that_is_no_string_is_a_mismatch() {
    let text = TRANSFER_TEXT.replace("\"overwrite\"", "1");
    assert_eq!(Transfer::from_str(&text), Err(ParseError::Mismatch));
    let text = TRANSFER_TEXT.replace("\"overwrite\"", "{\"overwrite\": null}");
    assert_eq!(Transfer::from_str(&text), Err(ParseError::Mismatch));
}

#[test]
fn text_that_is_no_json_is_a_syntax_fault() {
    assert_eq!(Configuration::new(""), Err(ParseError::Syntax));
    assert_eq!(Configuration::new("["), Err(ParseError::Syntax));
    assert_eq!(Configuration::new("[] []"), Err(ParseError::Syntax));
    assert_eq!(Configuration::new("[{\"id\": 1,}]"), Err(ParseError::Syntax));
    assert_eq!(Process::new("{id: 1}"), Err(ParseError::Syntax));
    assert_eq!(Transfer::from_str("not json"), Err(ParseError::Syntax));
    assert_eq!(Configuration::load_str("nul"), Err(ParseError::Syntax));
    assert_eq!(Json::parse("{\"a\" 1}"), Err(ParseError::Syntax));
}

#[test]
fn transfer_text_without_a_comma_is_rejected() {
    let input = r#"
            {
                "id": 0,
                "operation": "update",
                "src": "PG:dbname=osm_suisse table=planet_osm_line"
                "dst": "localhost::dst_dataset"
            }"#;
    assert_eq!(Transfer::from_str(input), Err(ParseError::Syntax));
}

#[test]
#[should_panic]
fn transfer_err_on_missing_field() {
    // Missing src_dataset
    let input = "
            {
                \"operation\": \"update\",
                \"dst_dataset\": \"localhost::dst_dataset\"
            }";
    Transfer::from_str(&input).unwrap();
}

#[test]
fn each_missing_field_is_reported() {
    for name in ["id", "operation", "src", "dst"] {
        let text = TRANSFER_TEXT.replacen(&format!("\"{}\"", name), "\"other\"", 1);
        assert_eq!(Transfer::from_str(&text), Err(ParseError::MissingField), "{}", name);
    }
    for name in ["path", "option"] {
        let text = TRANSFER_TEXT.replacen(&format!("\"{}\"", name), "\"other\"", 1);
        assert_eq!(Transfer::from_str(&text), Err(ParseError::MissingField), "{}", name);
    }
    for name in ["parallel", "transfer"] {
        let text = PROCESS_TEXT.replacen(&format!("\"{}\"", name), "\"other\"", 1);
        assert_eq!(Process::new(&text), Err(ParseError::MissingField), "{}", name);
    }
    assert_eq!(Process::new("{}"), Err(ParseError::MissingField));
    assert_eq!(Configuration::new("[{}]"), Err(ParseError::MissingField));
}

#[test]
fn field_names_are_case_sensitive() {
    let text = PROCESS_TEXT.replace("\"parallel\"", "\"Parallel\"");
    assert_eq!(Process::new(&text), Err(ParseError::MissingField));
}

#[test]
fn a_value_of_another_kind_is_a_mismatch() {
    assert_eq!(Configuration::new("{}"), Err(ParseError::Mismatch));
    assert_eq!(Configuration::new("null"), Err(ParseError::Mismatch));
    assert_eq!(Configuration::new("[1]"), Err(ParseError::Mismatch));
    assert_eq!(Process::new("[]"), Err(ParseError::Mismatch));
    assert_eq!(Transfer::from_str("\"x\""), Err(ParseError::Mismatch));
    let text = PROCESS_TEXT.replace("true", "\"true\"");
    assert_eq!(Process::new(&text), Err(ParseError::Mismatch));
    let text = PROCESS_TEXT.replace("\"my/path/\"", "7");
    assert_eq!(Process::new(&text), Err(ParseError::Mismatch));
    let text = PROCESS_TEXT.replace("[\"option2\", \"option3\"]", "[\"option2\", 3]");
    assert_eq!(Process::new(&text), Err(ParseError::Mismatch));
    let text = PROCESS_TEXT.replace("[\"option2\", \"option3\"]", "\"option2\"");
    assert_eq!(Process::new(&text), Err(ParseError::Mismatch));
}

#[test]
fn an_id_is_an_unsigned_32_bit_integer() {
    let with_id = |id: &str| PROCESS_TEXT.replace("2308", id);
    assert_eq!(Process::new(&with_id("0")).unwrap().id, 0);
    assert_eq!(Process::new(&with_id("4294967295")).unwrap().id, 4294967295);
    assert_eq!(Process::new(&with_id("4294967296")), Err(ParseError::Mismatch));
    assert_eq!(Process::new(&with_id("-1")), Err(ParseError::Mismatch));
    assert_eq!(Process::new(&with_id("1.5")), Err(ParseError::Mismatch));
    assert_eq!(Process::new(&with_id("1.0")), Err(ParseError::Mismatch));
    assert_eq!(Process::new(&with_id("\"1\"")), Err(ParseError::Mismatch));
    assert_eq!(Process::new(&with_id("99999999999999999999999")), Err(ParseError::Mismatch));
}

#[test]
fn the_first_fault_in_the_order_of_the_grammar_is_reported() {
    // the id is no number and the operation is not known: the id comes first
    let text = TRANSFER_TEXT.replace("\"id\": 1", "\"id\": true").replace("overwrite", "x");
    assert_eq!(Transfer::from_str(&text), Err(ParseError::Mismatch));
    // the operation is not known and the destination is missing
    let text = TRANSFER_TEXT.replace("overwrite", "x").replace("\"dst\"", "\"to\"");
    assert_eq!(Transfer::from_str(&text), Err(ParseError::UnknownOperation));
    // the second process lacks its id; the third is no object
    let text = format!("[{}, {{}}, 3]", process_text(1));
    assert_eq!(Configuration::new(&text), Err(ParseError::MissingField));
    let text = format!("[{}, 3, {{}}]", process_text(1));
    assert_eq!(Configuration::new(&text), Err(ParseError::Mismatch));
}

#[test]
fn fields_of_other_names_are_passed_over() {
    let text = PROCESS_TEXT.replace("\"parallel\": true,", "\"parallel\": true, \"note\": [1.5, null],");
    assert_eq!(Process::new(&text), Process::new(PROCESS_TEXT));
}

#[test]
fn a_faulty_process_rejects_the_whole_configuration() {
    let good = process_text(1);
    let bad = process_text(2).replace("update", "Update");
    assert_eq!(
        Configuration::new(&format!("[{},{}]", good, bad)),
        Err(ParseError::UnknownOperation)
    );
    assert_eq!(
        Configuration::new(&format!("[{},{}]", bad, good)),
        Err(ParseError::UnknownOperation)
    );
}

#[test]
fn a_configuration_is_written_as_indented_text() {
    let c = Configuration {
        process: vec![Process {
            id: 1,
            parallel: true,
            transfer: vec![Transfer {
                id: 1,
                operation: Operation::Overwrite,
                src: Source { path: "a".to_string(), option: strings(&["X"]) },
                dst: Destination { path: "b".to_string(), option: vec![] },
            }],
        }],
    };
    let expected = r#"[
  {
    "id": 1,
    "parallel": true,
    "transfer": [
      {
        "id": 1,
        "operation": "overwrite",
        "src": {
          "path": "a",
          "option": [
            "X"
          ]
        },
        "dst": {
          "path": "b",
          "option": []
        }
      }
    ]
  }
]"#;
    assert_eq!(c.save(), Ok(expected.to_string()));
    assert_eq!(Configuration { process: vec![] }.save(), Ok("[]".to_string()));
}

#[test]
fn a_written_configuration_is_read_back_unchanged() {
    let mut c = Configuration::new(&configuration_text(&[4, 5, 6])).unwrap();
    c.process[1].transfer[0].src.option = strings(&["b", "a", "b", "", "\"q\"\n\\", "é"]);
    c.process[1].transfer[0].dst.path = "path with \u{1F600} and \t tab".to_string();
    c.process[2].transfer.clear();
    c.process[0].id = u32::MAX;
    let text = c.save().unwrap();
    assert_eq!(Configuration::new(&text), Ok(c.clone()));
    // a second cycle, after a change
    let mut d = Configuration::new(&text).unwrap();
    d.remove_process(4294967295).unwrap();
    let again = Configuration::new(&d.save().unwrap()).unwrap();
    assert_eq!(again, d);
    assert_eq!(again.process.len(), 2);
}

#[test]
fn a_document_is_read_as_a_tree() {
    let tree = Json::parse(r#"{"b": [1, -2, 2.5, "s", null, true], "a": {}}"#).unwrap();
    assert_eq!(
        tree,
        Json::Object(vec![
            (
                "b".to_string(),
                Json::Array(vec![
                    Json::Number(Some(1)),
                    Json::Number(None),
                    Json::Number(None),
                    Json::String("s".to_string()),
                    Json::Null,
                    Json::Bool(true),
                ])
            ),
            ("a".to_string(), Json::Object(vec![])),
        ])
    );
}

#[test]
fn a_tree_is_written_as_text() {
    let tree = Json::Object(vec![
        ("b".to_string(), Json::Array(vec![Json::Number(Some(18446744073709551615)), Json::Null])),
        ("a".to_string(), Json::Bool(false)),
    ]);
    let expected = "{\n  \"b\": [\n    18446744073709551615,\n    null\n  ],\n  \"a\": false\n}";
    assert_eq!(tree.to_text(), Some(expected.to_string()));
    assert_eq!(Json::parse(expected), Ok(tree));
}

#[test]
fn the_parts_are_read_from_and_written_to_trees() {
    let t = the_transfer(3);
    let tree = t.to_json();
    assert_eq!(
        tree,
        Json::Object(vec![
            ("id".to_string(), Json::Number(Some(3))),
            ("operation".to_string(), Json::String("overwrite".to_string())),
            (
                "src".to_string(),
                Json::Object(vec![
                    ("path".to_string(), Json::String("my/path/".to_string())),
                    (
                        "option".to_string(),
                        Json::Array(vec![
                            Json::String("TRUNCATE=1".to_string()),
                            Json::String("option3".to_string()),
                        ])
                    ),
                ])
            ),
            ("dst".to_string(), t.dst.to_json()),
        ])
    );
    assert_eq!(Transfer::from_json(&tree), Ok(t.clone()));
    assert_eq!(Source::from_json(&t.src.to_json()), Ok(t.src.clone()));
    assert_eq!(Destination::from_json(&t.dst.to_json()), Ok(t.dst.clone()));
    assert_eq!(Operation::from_json(&Operation::Upsert.to_json()), Ok(Operation::Upsert));
    let p = Process { id: 9, parallel: false, transfer: vec![t.clone(), the_transfer(4)] };
    assert_eq!(Process::from_json(&p.to_json()), Ok(p.clone()));
    let c = Configuration { process: vec![p.clone(), p] };
    assert_eq!(Configuration::from_json(&c.to_json()), Ok(c));
}

#[test]
fn the_first_of_two_fields_with_one_name_counts_in_a_tree() {
    let tree = Json::Object(vec![
        ("path".to_string(), Json::String("first".to_string())),
        ("option".to_string(), Json::Array(vec![])),
        ("path".to_string(), Json::Number(Some(1))),
    ]);
    assert_eq!(Source::from_json(&tree).unwrap().path, "first");
}

#[test]
fn a_text_is_turned_into_a_transfer_or_a_process() {
    let t: Transfer = TRANSFER_TEXT.try_into().unwrap();
    assert_eq!(t, the_transfer(1));
    let p: Process = PROCESS_TEXT.try_into().unwrap();
    assert_eq!(p.id, 2308);
    let fault: Result<Process, ParseError> = TRANSFER_TEXT.try_into();
    assert_eq!(fault, Err(ParseError::MissingField));
    assert_eq!(Transfer::try_from("{"), Err(ParseError::Syntax));
}

#[test]
fn a_name_written_twice_in_a_text_has_its_last_value() {
    let text = PROCESS_TEXT.replace("\"id\": 2308,", "\"id\": 2308, \"id\": 7,");
    assert_eq!(Process::new(&text).unwrap().id, 7);
    let tree = Json::parse(r#"{"a": 1, "b": 2, "a": 3}"#).unwrap();
    assert_eq!(
        tree,
        Json::Object(vec![
            ("a".to_string(), Json::Number(Some(3))),
            ("b".to_string(), Json::Number(Some(2))),
        ])
    );
}

#[test]
fn a_tree_that_holds_a_name_twice_is_written_with_the_last_value() {
    let tree = Json::Object(vec![
        ("a".to_string(), Json::Number(None)),
        ("a".to_string(), Json::Bool(true)),
    ]);
    assert_eq!(tree.to_text(), Some("{\n  \"a\": true\n}".to_string()));
    assert_eq!(Json::Number(None).to_text(), Some("null".to_string()));
}

#[test]
fn a_text_nested_too_deep_is_a_syntax_fault() {
    let deep = format!("{}{}", "[".repeat(200), "]".repeat(200));
    assert_eq!(Json::parse(&deep), Err(ParseError::Syntax));
    let fine = format!("{}{}", "[".repeat(100), "]".repeat(100));
    assert!(Json::parse(&fine).is_ok());
}
