use rostr::configuration::{
    Destination, Operation, Process, ProcessError, Source, Transfer,
};

fn transfer(id: u32) -> Transfer {
    Transfer {
        id,
        operation: Operation::Upsert,
        src: Source { path: format!("in{}", id), option: vec!["A".to_string(), "B".to_string()] },
        dst: Destination { path: format!("out{}", id), option: vec![] },
    }
}

fn process(transfers: &[u32]) -> Process {
    Process { id: 1, parallel: true, transfer: transfers.iter().map(|t| transfer(*t)).collect() }
}

fn ids_of(process: &Process) -> Vec<u32> {
    process.transfer.iter().map(|t| t.id).collect()
}

#[test]
fn scenario_push_a_transfer_and_get_it_back() {
    let mut p = Process { id: 7, parallel: false, transfer: vec![] };
    let t = Transfer {
        id: 1,
        operation: Operation::Overwrite,
        src: Source { path: "a".to_string(), option: vec!["X".to_string()] },
        dst: Destination { path: "b".to_string(), option: vec!["Y".to_string()] },
    };
    assert_eq!(p.push_transfer(t), Ok(()));
    let found = p.get_transfer(1).unwrap();
    assert_eq!(found.id, 1);
    assert_eq!(found.operation, Operation::Overwrite);
    assert_eq!(found.src.path, "a");
    assert_eq!(found.src.option, vec!["X".to_string()]);
    assert_eq!(found.dst.path, "b");
    assert_eq!(found.dst.option, vec!["Y".to_string()]);
    assert_eq!(p.id, 7);
    assert!(!p.parallel);
}

#[test]
fn push_transfer_appends_and_checks_nothing() {
    let mut p = process(&[1, 2]);
    assert!(p.push_transfer(transfer(2)).is_ok());
    assert_eq!(ids_of(&p), vec![1, 2, 2]);
}

#[test]
fn get_transfer_of_an_absent_id_is_none() {
    assert_eq!(process(&[1, 2, 3]).get_transfer(4), None);
}

#[test]
fn get_transfer_as_mut_changes_the_transfer_in_place() {
    let mut p = process(&[2432, 5]);
    {
        let t = p.get_transfer_as_mut(2432).unwrap();
        assert_eq!(t.id, 2432);
        t.id = 1;
        assert_eq!(t.id, 1);
    }
    assert_eq!(ids_of(&p), vec![1, 5]);
    assert_eq!(p.transfer[1], transfer(5));
    assert!(p.get_transfer_as_mut(2432).is_none());
}

#[test]
fn get_transfer_by_list_follows_the_process_order() {
    let p = process(&[5, 3, 8, 1]);
    let found = p.get_transfer_by_list(vec![1, 8, 5, 9]).unwrap();
    let ids: Vec<u32> = found.iter().map(|t| t.id).collect();
    assert_eq!(ids, vec![5, 8, 1]);
    assert_eq!(found[0], &transfer(5));
}

#[test]
fn get_transfer_by_list_as_mut_hands_out_disjoint_transfers() {
    let mut p = process(&[5, 3, 8, 1]);
    {
        let mut found = p.get_transfer_by_list_as_mut(vec![1, 3]).unwrap();
        assert_eq!(found.len(), 2);
        assert_eq!(found[0].id, 3);
        assert_eq!(found[1].id, 1);
        found[0].operation = Operation::Update;
        found[1].src.option.push("C".to_string());
    }
    assert_eq!(p.transfer[0], transfer(5));
    assert_eq!(p.transfer[1].operation, Operation::Update);
    assert_eq!(p.transfer[2], transfer(8));
    assert_eq!(p.transfer[3].src.option, vec!["A".to_string(), "B".to_string(), "C".to_string()]);
}

#[test]
fn remove_transfer_moves_the_last_into_the_gap() {
    let mut p = process(&[5, 3, 8, 1]);
    assert_eq!(p.remove_transfer(5), Some(transfer(5)));
    assert_eq!(ids_of(&p), vec![1, 3, 8]);
    assert_eq!(p.remove_transfer(5), None);
    assert_eq!(ids_of(&p), vec![1, 3, 8]);
}

#[test]
fn remove_transfer_by_list_keeps_the_order_of_the_rest() {
    let mut p = process(&[5, 3, 8, 1, 3]);
    assert_eq!(p.remove_transfer_by_list(vec![3, 7]), Some(()));
    assert_eq!(ids_of(&p), vec![5, 8, 1]);
    assert_eq!(p.remove_transfer_by_list(vec![3, 7]), Some(()));
    assert_eq!(ids_of(&p), vec![5, 8, 1]);
    assert_eq!(p.id, 1);
    assert!(p.parallel);
}

#[test]
fn a_process_is_valid_where_ids_differ_and_paths_are_named() {
    assert!(process(&[1, 2, 3]).is_valid());
    assert!(!process(&[1, 2, 1]).is_valid());
    let mut p = process(&[1, 2]);
    p.transfer[1].src.path.clear();
    assert!(!p.is_valid());
    assert!(!p.transfer[1].is_valid());
    assert!(p.transfer[0].is_valid());
    assert!(!p.transfer[1].src.is_valid());
    assert!(p.transfer[1].dst.is_valid());
}

#[test]
fn the_error_of_a_process_holds_the_transfer() {
    let e = ProcessError::PushError(transfer(3));
    assert_eq!(e, ProcessError::PushError(transfer(3)));
    assert_ne!(e, ProcessError::PushError(transfer(4)));
}
