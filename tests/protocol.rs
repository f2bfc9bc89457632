use machine_probe::fingerprint::{fingerprint_from_records, HardwareRecords, MachineIdError, MachineIdFactor};
use machine_probe::query::{
    query_failure, worker_step, MachineIdSession, QueryRequest, QueryResponse, WorkerAction,
    WorkerEvent, WorkerState,
};
use machine_probe::records::{BaseBoard, DiskDrive, DiskPartition, Processor};

fn s(v: &str) -> Option<String> {
    Some(v.to_string())
}

#[test]
fn worker_answers_requests_in_order() {
    let (st, act) = worker_step(WorkerState::Connecting, WorkerEvent::Connected(Ok(())));
    assert_eq!(st, WorkerState::Ready);
    assert!(matches!(act, WorkerAction::Wait));
    let (st, act) = worker_step(st, WorkerEvent::Received(Some(QueryRequest::GetProcessor)));
    assert!(matches!(act, WorkerAction::RunQuery(QueryRequest::GetProcessor)));
    let (st, act) = worker_step(st, WorkerEvent::QueryDone(Ok(QueryResponse::Processor(None))));
    assert!(matches!(act, WorkerAction::Send(QueryResponse::Processor(None))));
    let (st, _) = worker_step(st, WorkerEvent::Sent(true));
    let (st, act) = worker_step(st, WorkerEvent::Received(Some(QueryRequest::GetBaseboard)));
    assert!(matches!(act, WorkerAction::RunQuery(QueryRequest::GetBaseboard)));
    let (st, act) = worker_step(st, WorkerEvent::QueryDone(Err("timeout".to_string())));
    match act {
        WorkerAction::Send(QueryResponse::Error(MachineIdError::QueryError(m))) => {
            assert_eq!(m, "Baseboard query failed: timeout")
        }
        other => panic!("unexpected action {:?}", other),
    }
    assert_eq!(st, WorkerState::Sending);
}

#[test]
fn worker_shutdown_sends_nothing() {
    let (st, act) = worker_step(WorkerState::Ready, WorkerEvent::Received(Some(QueryRequest::Shutdown)));
    assert_eq!(st, WorkerState::Terminated);
    assert!(matches!(act, WorkerAction::Exit));
    let (st, act) = worker_step(st, WorkerEvent::Received(Some(QueryRequest::GetBaseboard)));
    assert_eq!(st, WorkerState::Terminated);
    assert!(matches!(act, WorkerAction::Exit));
    let (st, act) = worker_step(WorkerState::Ready, WorkerEvent::Received(None));
    assert_eq!(st, WorkerState::Terminated);
    assert!(matches!(act, WorkerAction::Exit));
    let (st, act) = worker_step(WorkerState::Sending, WorkerEvent::Sent(false));
    assert_eq!(st, WorkerState::Terminated);
    assert!(matches!(act, WorkerAction::Exit));
}

#[test]
fn worker_init_failure_reports_once() {
    let (st, act) = worker_step(WorkerState::Connecting, WorkerEvent::Connected(Err("0x80004005".to_string())));
    assert_eq!(st, WorkerState::Terminated);
    match act {
        WorkerAction::Send(QueryResponse::Error(MachineIdError::WMIInitialization(m))) => {
            assert_eq!(m, "WMI worker failed to initialize: 0x80004005")
        }
        other => panic!("unexpected action {:?}", other),
    }
}

#[test]
fn query_failure_names_the_query() {
    match query_failure(QueryRequest::GetDiskPartitions, "x") {
        QueryResponse::Error(MachineIdError::QueryError(m)) => assert_eq!(m, "DiskPartitions query failed: x"),
        other => panic!("unexpected response {:?}", other),
    }
}

#[test]
fn session_drives_the_queries() {
    let sel = vec![MachineIdFactor::Baseboard, MachineIdFactor::Processor, MachineIdFactor::DiskDrivers];
    let mut session = MachineIdSession::new(sel.clone());
    assert_eq!(session.next_request(), QueryRequest::GetBaseboard);
    session.accept(QueryResponse::Baseboard(Some(BaseBoard {
        manufacturer: s("Dell Inc."),
        product: s("0X8DXD"),
        serial_number: s("CN1234"),
    })));
    assert_eq!(session.next_request(), QueryRequest::GetProcessor);
    session.accept(QueryResponse::Processor(Some(Processor { name: s("Intel"), processor_id: None })));
    assert_eq!(session.next_request(), QueryRequest::GetDiskPartitions);
    session.accept(QueryResponse::DiskPartitions(vec![DiskPartition { disk_index: 3 }]));
    assert_eq!(session.next_request(), QueryRequest::GetDiskDrives);
    session.accept(QueryResponse::DiskDrives(vec![DiskDrive { serial_number: s("ZZ"), model: None, index: 3 }]));
    assert_eq!(session.next_request(), QueryRequest::Shutdown);
    let records = HardwareRecords {
        board: Some(BaseBoard { manufacturer: s("Dell Inc."), product: s("0X8DXD"), serial_number: s("CN1234") }),
        processor: Some(Processor { name: s("Intel"), processor_id: None }),
        partitions: vec![DiskPartition { disk_index: 3 }],
        drives: vec![DiskDrive { serial_number: s("ZZ"), model: None, index: 3 }],
        video_controllers: vec![],
    };
    let expected = fingerprint_from_records(&sel, &records);
    let got = session.finish(Ok(()));
    assert_eq!(got, expected);
    assert_eq!(got.unwrap().1.len(), 5);
}

#[test]
fn session_skips_drives_without_boot_partition() {
    let mut session = MachineIdSession::new(vec![MachineIdFactor::DiskDrivers]);
    assert_eq!(session.next_request(), QueryRequest::GetDiskPartitions);
    session.accept(QueryResponse::DiskPartitions(vec![]));
    assert_eq!(session.next_request(), QueryRequest::Shutdown);
    assert_eq!(session.finish(Ok(())), Err(MachineIdError::NoFactorsFound));
}

#[test]
fn session_stops_on_query_error() {
    let mut session = MachineIdSession::new(vec![MachineIdFactor::Baseboard, MachineIdFactor::Processor]);
    session.accept(QueryResponse::Error(MachineIdError::QueryError("bad".to_string())));
    assert_eq!(session.next_request(), QueryRequest::Shutdown);
    assert_eq!(session.finish(Ok(())), Err(MachineIdError::QueryError("bad".to_string())));
}

#[test]
fn failed_send_prefers_the_waiting_worker_error() {
    let mut session = MachineIdSession::new(vec![MachineIdFactor::Baseboard]);
    session.send_failed(
        Some(QueryResponse::Error(MachineIdError::WMIInitialization("no COM".to_string()))),
        "sending on a closed channel".to_string(),
    );
    assert_eq!(session.next_request(), QueryRequest::Shutdown);
    assert_eq!(session.finish(Ok(())), Err(MachineIdError::WMIInitialization("no COM".to_string())));
    let mut session = MachineIdSession::new(vec![MachineIdFactor::Baseboard]);
    session.send_failed(None, "sending on a closed channel".to_string());
    assert_eq!(
        session.finish(Ok(())),
        Err(MachineIdError::ChannelSend("sending on a closed channel".to_string()))
    );
}

#[test]
fn first_record_answers() {
    let rows = vec![
        Processor { name: s("first"), processor_id: None },
        Processor { name: s("second"), processor_id: None },
    ];
    match QueryResponse::processor_from(rows) {
        QueryResponse::Processor(Some(p)) => assert_eq!(p.name, s("first")),
        other => panic!("unexpected response {:?}", other),
    }
    assert!(matches!(QueryResponse::baseboard_from(vec![]), QueryResponse::Baseboard(None)));
    let boards = vec![BaseBoard { manufacturer: s("m"), product: None, serial_number: None }];
    match QueryResponse::baseboard_from(boards) {
        QueryResponse::Baseboard(Some(b)) => assert_eq!(b.manufacturer, s("m")),
        other => panic!("unexpected response {:?}", other),
    }
}

#[test]
fn session_reports_worker_failure() {
    let mut session = MachineIdSession::new(vec![MachineIdFactor::Processor]);
    session.accept(QueryResponse::Processor(Some(Processor { name: s("Intel"), processor_id: None })));
    assert_eq!(
        session.finish(Err("worker panicked".to_string())),
        Err(MachineIdError::WorkerThreadPanicked("worker panicked".to_string()))
    );
    let mut session = MachineIdSession::new(vec![MachineIdFactor::Processor]);
    session.fail(MachineIdError::ChannelRecv("closed".to_string()));
    session.fail(MachineIdError::ChannelSend("later".to_string()));
    assert_eq!(session.finish(Err("x".to_string())), Err(MachineIdError::ChannelRecv("closed".to_string())));
}
