use gesture_ease::process::PROCESS_COUNT;
use gesture_ease::proxy::WorkerProxy;
use gesture_ease::registry::{ProcessTable, SlotEvent, WorkerSlot};
use gesture_ease::{GError, Process};

#[test]
fn addresses_of_roles() {
    assert_eq!(Process::Camera.addr(), "/tmp/picam.sock");
    assert_eq!(Process::HPE.addr(), "/tmp/hpe.sock");
    assert_eq!(Process::HeadDetection.addr(), "/tmp/head.sock");
    assert_eq!(Process::GestureRecognition.addr(), "/tmp/gesture.sock");
}

#[test]
fn names_of_roles() {
    assert_eq!(Process::HPE.name(), "hpe");
    assert_eq!(Process::HeadDetection.name(), "head");
    assert_eq!(Process::GestureRecognition.name(), "gesture");
    assert_eq!(Process::Camera.name(), "cam");
}

#[test]
fn tokens_name_roles() {
    assert_eq!(Process::from_token("hpe"), Ok(Process::HPE));
    assert_eq!(Process::from_token("directmhp"), Ok(Process::HPE));
    assert_eq!(Process::from_token("ge"), Ok(Process::GestureRecognition));
    assert_eq!(Process::from_token("gesture"), Ok(Process::GestureRecognition));
    assert_eq!(Process::from_token("head"), Ok(Process::HeadDetection));
    assert_eq!(Process::from_token("cam"), Ok(Process::Camera));
}

#[test]
fn unknown_token_is_config_error() {
    assert_eq!(Process::from_token("camera"), Err(GError::ConfigError));
    assert_eq!(Process::from_token(""), Err(GError::ConfigError));
    assert_eq!(Process::from_token("HPE"), Err(GError::ConfigError));
}

#[test]
fn role_indices_are_a_table() {
    for i in 0..PROCESS_COUNT {
        assert_eq!(Process::at_index(i).index(), i);
    }
}

#[test]
fn slot_transitions() {
    assert_eq!(WorkerSlot::Disconnected.step(SlotEvent::Connected), Ok(WorkerSlot::Handshaking));
    assert_eq!(WorkerSlot::Handshaking.step(SlotEvent::HandshakeSent), Ok(WorkerSlot::Ready));
    assert_eq!(WorkerSlot::Ready.step(SlotEvent::RequestSent), Ok(WorkerSlot::Busy));
    assert_eq!(WorkerSlot::Busy.step(SlotEvent::ResponseReceived), Ok(WorkerSlot::Ready));
    assert_eq!(WorkerSlot::Busy.step(SlotEvent::IoFailed), Ok(WorkerSlot::Disconnected));
    assert_eq!(WorkerSlot::Ready.step(SlotEvent::Connected), Err(GError::CommError));
    assert_eq!(WorkerSlot::Disconnected.step(SlotEvent::RequestSent), Err(GError::CommError));
}

#[test]
fn registry_waits_until_all_roles_ready() {
    let all = [
        Process::HPE,
        Process::GestureRecognition,
        Process::HeadDetection,
        Process::Camera,
    ];
    let mut t = ProcessTable::new();
    assert!(!t.is_complete(&all));
    assert_eq!(t.get(Process::Camera), Err(GError::ModelUninit));
    assert_eq!(t.missing().len(), 4);
    for p in all {
        assert_eq!(t.apply(p, SlotEvent::Connected), Ok(WorkerSlot::Handshaking));
        assert_eq!(t.get(p), Err(GError::ModelUninit));
        assert_eq!(t.apply(p, SlotEvent::HandshakeSent), Ok(WorkerSlot::Ready));
    }
    assert!(t.is_complete(&all));
    assert!(t.missing().is_empty());
    assert_eq!(t.get(Process::HPE), Ok(WorkerSlot::Ready));
    assert_eq!(t.apply(Process::HPE, SlotEvent::IoFailed), Ok(WorkerSlot::Disconnected));
    assert!(!t.is_complete(&all));
    assert!(t.is_complete(&[Process::Camera, Process::HeadDetection]));
    assert_eq!(t.missing(), vec![Process::HPE]);
    assert_eq!(t.apply(Process::HPE, SlotEvent::HandshakeSent), Err(GError::CommError));
    assert_eq!(t.slot(Process::HPE), WorkerSlot::Disconnected);
}

fn ready_proxy() -> WorkerProxy<u32, String> {
    let mut p = WorkerProxy::new();
    p.connect().unwrap();
    p.handshake_done().unwrap();
    p
}

#[test]
fn proxy_three_requests_answered_in_order() {
    let mut p = ready_proxy();
    assert_eq!(p.submit(10), Ok(0));
    assert_eq!(p.submit(20), Ok(1));
    assert_eq!(p.submit(30), Ok(2));
    let mut got = Vec::new();
    while let Some((ticket, req)) = p.start() {
        assert_eq!(p.slot(), WorkerSlot::Busy);
        assert_eq!(p.start(), None);
        p.complete(format!("answer {ticket} to {req}")).unwrap();
    }
    while let Some(r) = p.take_result() {
        got.push(r);
    }
    assert_eq!(
        got,
        vec![
            (0, "answer 0 to 10".to_string()),
            (1, "answer 1 to 20".to_string()),
            (2, "answer 2 to 30".to_string()),
        ]
    );
}

#[test]
fn proxy_rejects_when_disconnected() {
    let mut p: WorkerProxy<u32, u32> = WorkerProxy::new();
    assert_eq!(p.submit(1), Err(GError::CommError));
    assert_eq!(p.handshake_done(), Err(GError::CommError));
    assert_eq!(p.complete(5), Err(GError::CommError));
    p.connect().unwrap();
    assert_eq!(p.connect(), Err(GError::CommError));
    assert_eq!(p.start(), None);
}

#[test]
fn proxy_failure_drops_queue_keeps_answers() {
    let mut p = ready_proxy();
    p.submit(1).unwrap();
    p.submit(2).unwrap();
    p.submit(3).unwrap();
    let (t, _) = p.start().unwrap();
    p.complete(format!("r{t}")).unwrap();
    p.start().unwrap();
    p.fail();
    assert_eq!(p.slot(), WorkerSlot::Disconnected);
    assert_eq!(p.submit(4), Err(GError::CommError));
    assert_eq!(p.take_result(), Some((0, "r0".to_string())));
    assert_eq!(p.take_result(), None);
    p.connect().unwrap();
    p.handshake_done().unwrap();
    assert_eq!(p.submit(5), Ok(1));
}

#[test]
fn only_camera_gets_dimensions_in_handshake() {
    assert_eq!(Process::Camera.handshake_words(1280, 720, 640, 480), vec![1280, 720, 640, 480]);
    assert!(Process::HPE.handshake_words(1280, 720, 640, 480).is_empty());
    assert!(Process::HeadDetection.handshake_words(1, 2, 3, 4).is_empty());
    assert!(Process::GestureRecognition.handshake_words(1, 2, 3, 4).is_empty());
}

#[test]
fn proxy_hands_out_requests_in_submission_order() {
    let mut p = ready_proxy();
    assert_eq!(p.tickets_issued(), 0);
    p.submit(7).unwrap();
    p.submit(8).unwrap();
    assert_eq!(p.tickets_issued(), 2);
    assert_eq!(p.start(), Some((0, 7)));
    assert_eq!(p.complete("x".to_string()), Ok(()));
    assert_eq!(p.start(), Some((1, 8)));
    assert_eq!(p.take_result(), Some((0, "x".to_string())));
    assert_eq!(p.complete("y".to_string()), Ok(()));
    assert_eq!(p.take_result(), Some((1, "y".to_string())));
    assert_eq!(p.start(), None);
}
