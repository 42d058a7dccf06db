use portunusd::descriptor::{
    descriptors_to_raw, raw_to_descriptors, response_buffer_size, Descriptor, DoorDescriptor,
};
use portunusd::door::{Client, InstallError, InstallStage, Namespace, rollback_steps, Server, TeardownStep};
use portunusd::server_procedure::{ascii_uppercase, echo, uppercase};

#[test]
fn retain_door_desc_t() {
    let dd = DoorDescriptor::new(-1, false);
    assert!(!dd.will_release());
}

#[test]
fn release_door_desc_t() {
    let dd = DoorDescriptor::new(-1, true);
    assert!(dd.will_release());
}

#[test]
fn raw_fd_to_door_desc_and_back() {
    let raw: i32 = 6;
    let dd = DoorDescriptor::new(raw, true);
    assert_eq!(dd.as_raw_fd(), raw);
}

#[test]
fn descriptor_wraps_a_raw_fd() {
    let d = Descriptor::from(5);
    assert_eq!(d.as_c_int(), 5);
}

#[test]
fn echo_round_trips_bytes_and_descriptors() {
    // send a payload and a descriptor set through the marshalling pipeline
    // and a procedure that echoes its input
    let sent_descriptors: Vec<i32> = vec![3, 7, 9];
    let sent_bytes = b"any payload at all".to_vec();

    let outbound = raw_to_descriptors(&sent_descriptors, true);
    let at_server = descriptors_to_raw(&outbound);
    let (reply_descriptors, reply_bytes) = echo(at_server, &sent_bytes);
    let inbound = raw_to_descriptors(&reply_descriptors, true);
    let received = descriptors_to_raw(&inbound);

    assert_eq!(received, sent_descriptors);
    assert_eq!(reply_bytes, sent_bytes);
}

#[test]
fn uppercase_procedure_shouts() {
    let (descriptors, response) = uppercase(vec![], b"hello world");
    assert_eq!(descriptors.len(), 0);
    assert_eq!(response, b"HELLO WORLD".to_vec());
}

#[test]
fn uppercase_leaves_non_letters_alone() {
    assert_eq!(ascii_uppercase(b"abc XYZ 123!"), b"ABC XYZ 123!".to_vec());
    assert_eq!(ascii_uppercase(b""), Vec::<u8>::new());
}

#[test]
fn install_succeeds_exactly_once() {
    let mut ns = Namespace::new();
    assert_eq!(ns.install("/var/run/app.door"), Ok(()));
    assert_eq!(ns.install("/var/run/app.door"), Err(InstallError::PathTaken));
    assert!(ns.contains("/var/run/app.door"));

    ns.remove("/var/run/app.door");
    assert!(!ns.contains("/var/run/app.door"));
    assert_eq!(ns.install("/var/run/app.door"), Ok(()));
}

#[test]
fn install_leaves_other_paths_alone() {
    let mut ns = Namespace::new();
    assert_eq!(ns.install("/one.door"), Ok(()));
    assert_eq!(ns.install("/two.door"), Ok(()));
    ns.remove("/one.door");
    assert!(!ns.contains("/one.door"));
    assert!(ns.contains("/two.door"));
}

#[test]
fn client_refs_share_the_door() {
    let client = Client::from_descriptor(42);
    let first = client.borrow();
    let second = client.borrow();
    assert_eq!(first.door_descriptor, 42);
    assert_eq!(second.door_descriptor, 42);
    assert_eq!(first, second);
}

#[test]
fn concurrent_callers_get_their_own_answers() {
    // two callers holding refs borrowed from one client send distinct
    // requests; each answer is a function of its own request alone
    let client = Client::from_descriptor(7);
    let ref_a = client.borrow();
    let ref_b = client.borrow();
    assert_eq!(ref_a, ref_b);

    let (_, answer_a) = echo(vec![], b"first caller");
    let (_, answer_b) = echo(vec![], b"second caller");
    assert_eq!(answer_a, b"first caller".to_vec());
    assert_eq!(answer_b, b"second caller".to_vec());
}

#[test]
fn teardown_unbinds_before_closing() {
    let server = Server { jamb_path: "/var/run/app.door".to_string(), door_descriptor: 9 };
    assert_eq!(
        server.teardown_steps(),
        vec![TeardownStep::DetachPath, TeardownStep::UnlinkPath, TeardownStep::CloseDoor]
    );
}

#[test]
fn rollback_cleans_up_partial_installs() {
    assert_eq!(rollback_steps(InstallStage::PathFailed), vec![TeardownStep::CloseDoor]);
    assert_eq!(
        rollback_steps(InstallStage::AttachFailed),
        vec![TeardownStep::CloseDoor, TeardownStep::UnlinkPath]
    );
}

#[test]
fn response_buffers_start_generous_and_grow_exactly() {
    assert_eq!(response_buffer_size(0), 4096);
    assert_eq!(response_buffer_size(4096), 4096);
    assert_eq!(response_buffer_size(5000), 5000);
}
