use rostr::command;
use rostr::configuration::{Configuration, ParseError, Process};
use rostr::uri::driver::DriverList;
use rostr::uri::{DestinationURI, SourceURI, UriError};

fn configuration(ids: &[u32]) -> Configuration {
    Configuration {
        process: ids.iter().map(|id| Process { id: *id, parallel: false, transfer: vec![] }).collect(),
    }
}

#[test]
fn list_gives_the_ids_in_order() {
    assert_eq!(command::list(&configuration(&[3, 1, 2])), vec![3, 1, 2]);
    assert_eq!(command::list(&configuration(&[])), Vec::<u32>::new());
}

#[test]
fn add_reads_a_process_and_appends_it() {
    let mut c = configuration(&[3, 1]);
    let text = r#"{"id": 2308947234, "parallel": true, "transfer": []}"#;
    assert_eq!(command::add(&mut c, text), Ok(()));
    assert_eq!(command::list(&c), vec![3, 1, 2308947234]);
    assert!(c.process[2].parallel);
}

#[test]
fn add_of_a_faulty_text_changes_nothing() {
    let mut c = configuration(&[3, 1]);
    assert_eq!(command::add(&mut c, "{\"id\": 4}"), Err(ParseError::MissingField));
    assert_eq!(command::add(&mut c, "{"), Err(ParseError::Syntax));
    assert_eq!(c, configuration(&[3, 1]));
}

#[test]
fn remove_counts_what_it_removed() {
    let mut c = configuration(&[3, 1, 2, 1, 5]);
    assert_eq!(command::remove(&mut c, vec![1, 5, 9]), 3);
    assert_eq!(command::list(&c), vec![3, 2]);
    assert_eq!(command::remove(&mut c, vec![1, 5, 9]), 0);
    assert_eq!(command::list(&c), vec![3, 2]);
}

#[test]
fn validate_looks_for_repeated_ids() {
    assert!(command::validate(&configuration(&[3, 1, 2])));
    assert!(!command::validate(&configuration(&[3, 1, 3])));
}

#[test]
fn uri_test_connection() {
    let path = "PG:dbname=osm_suisse tables=planet_osm_line";
    let uri = SourceURI::from_str(&path, true).unwrap();
    assert_eq!(uri.path, path);
}

#[test]
fn uri_test_connection_error() {
    let path = "PG:dbname=osm_susse tables=planet_osm_line";
    let error = SourceURI::from_str(&path, false).unwrap_err();
    assert_eq!(error, UriError::ConnectionError);
}

#[test]
fn test_connection() {
    let path = "PG:dbname=osm_suisse tables=planet_osm_line";
    let uri = SourceURI::from_str(&path, true).unwrap();
    assert_eq!(uri.path, path);
}

#[test]
fn a_destination_is_accepted_where_it_was_reached() {
    assert_eq!(
        DestinationURI::from_str("localhost::dst_dataset", true),
        Ok(DestinationURI { path: "localhost::dst_dataset".to_string() })
    );
    assert_eq!(DestinationURI::from_str("nowhere", false), Err(UriError::ConnectionError));
}

#[test]
fn a_driver_list_counts_its_names() {
    let drivers = DriverList::new(vec!["GTiff".to_string(), "PostgreSQL".to_string()]);
    assert_eq!(drivers.count(), 2);
    assert_eq!(drivers.list(), &vec!["GTiff".to_string(), "PostgreSQL".to_string()]);
    assert!(drivers.contains("PostgreSQL"));
    assert!(!drivers.contains("postgresql"));
    assert_eq!(DriverList::new(vec![]).count(), 0);
}
