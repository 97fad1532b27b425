use radon_core::bootstrap::client::{
    get_service_outcome, ping_outcome, register_provider_outcome, request_message, BootstrapError,
};
use radon_core::bootstrap::protocol::{
    BootstrapRequest, BootstrapResponse, RequestType, ResponseStatus, BOOTSTRAP_MAGIC, MAX_SERVICE_NAME,
};
use radon_core::bootstrap::registry::{BootstrapCommand, BootstrapRegistry, ServiceLookup};
use radon_core::bootstrap::services::{BLOCKSERVER, FSSERVER, NAMESERVER};

fn header(magic: u32, kind: u32, name_len: u32) -> Vec<u8> {
    let mut v = Vec::new();
    v.extend_from_slice(&magic.to_le_bytes());
    v.extend_from_slice(&kind.to_le_bytes());
    v.extend_from_slice(&name_len.to_le_bytes());
    v.extend_from_slice(&0u32.to_le_bytes());
    v
}

fn request(kind: u32, name: &[u8]) -> Vec<u8> {
    let mut v = header(BOOTSTRAP_MAGIC, kind, name.len() as u32);
    v.extend_from_slice(name);
    v
}

#[test]
fn request_type_codes() {
    assert_eq!(RequestType::from(1), RequestType::GetService);
    assert_eq!(RequestType::from(2), RequestType::RegisterProvider);
    assert_eq!(RequestType::from(3), RequestType::ListServices);
    assert_eq!(RequestType::from(4), RequestType::Ping);
    assert_eq!(RequestType::from(99), RequestType::GetService);
    for t in [RequestType::GetService, RequestType::RegisterProvider, RequestType::ListServices, RequestType::Ping] {
        assert_eq!(RequestType::from(t.code()), t);
    }
}

#[test]
fn response_status_codes() {
    assert_eq!(ResponseStatus::from(0), ResponseStatus::Success);
    assert_eq!(ResponseStatus::from(-1), ResponseStatus::NotFound);
    assert_eq!(ResponseStatus::from(-2), ResponseStatus::AlreadyExists);
    assert_eq!(ResponseStatus::from(-3), ResponseStatus::PermissionDenied);
    assert_eq!(ResponseStatus::from(-4), ResponseStatus::InvalidRequest);
    assert_eq!(ResponseStatus::from(-5), ResponseStatus::ServiceUnavailable);
    assert_eq!(ResponseStatus::from(7), ResponseStatus::InvalidRequest);
    assert_eq!(ResponseStatus::ServiceUnavailable.code(), -5);
}

#[test]
fn request_header_roundtrip() {
    let r = BootstrapRequest::new(RequestType::ListServices, 7);
    assert!(r.is_valid());
    assert_eq!(r.request_type(), RequestType::ListServices);
    let bytes = r.to_bytes();
    assert_eq!(bytes, header(BOOTSTRAP_MAGIC, 3, 7));
    assert_eq!(BootstrapRequest::from_bytes(&bytes), Some(r));
    assert_eq!(BootstrapRequest::from_bytes(&bytes[..15]), None);
    assert_eq!(BootstrapRequest::from_bytes(&header(0x1234, 1, 0)), None);
}

#[test]
fn response_header_roundtrip() {
    let r = BootstrapResponse::error(ResponseStatus::NotFound).with_handle();
    assert_eq!(r.handle_count, 1);
    assert!(!r.is_success());
    assert_eq!(r.status(), ResponseStatus::NotFound);
    let bytes = r.to_bytes();
    assert_eq!(bytes.len(), BootstrapResponse::SIZE);
    assert_eq!(BootstrapResponse::from_bytes(&bytes), Some(r));
    assert!(BootstrapResponse::success().is_success());
    assert_eq!(BootstrapResponse::from_bytes(&[0u8; 3]), None);
}

#[test]
fn client_request_message() {
    let msg = request_message(RequestType::GetService, NAMESERVER.as_bytes()).unwrap();
    assert_eq!(msg, request(1, b"NAMESERVER"));
    let long = vec![b'a'; MAX_SERVICE_NAME + 1];
    assert_eq!(request_message(RequestType::GetService, &long), Err(BootstrapError::InvalidResponse));
    assert_eq!(request_message(RequestType::Ping, &[]).unwrap(), header(BOOTSTRAP_MAGIC, 4, 0));
    assert_eq!(BLOCKSERVER, "BLOCKSERVER");
    assert_eq!(FSSERVER, "FSSERVER");
}

#[test]
fn client_reads_answers() {
    let ok = BootstrapResponse::success().with_handle().to_bytes();
    assert_eq!(get_service_outcome(&ok, 1, true), Ok(()));
    assert_eq!(get_service_outcome(&ok, 0, true), Err(BootstrapError::InvalidResponse));
    let not_found = BootstrapResponse::error(ResponseStatus::NotFound).to_bytes();
    assert_eq!(get_service_outcome(&not_found, 0, false), Err(BootstrapError::ServiceNotFound));
    let denied = BootstrapResponse::error(ResponseStatus::PermissionDenied).to_bytes();
    assert_eq!(get_service_outcome(&denied, 0, false), Err(BootstrapError::PermissionDenied));
    let unavailable = BootstrapResponse::error(ResponseStatus::ServiceUnavailable).to_bytes();
    assert_eq!(get_service_outcome(&unavailable, 0, false), Err(BootstrapError::ServiceUnavailable));
    assert_eq!(get_service_outcome(&[1, 2], 1, true), Err(BootstrapError::InvalidResponse));

    let exists = BootstrapResponse::error(ResponseStatus::AlreadyExists).to_bytes();
    assert_eq!(register_provider_outcome(&exists), Err(BootstrapError::InvalidResponse));
    assert_eq!(register_provider_outcome(&denied), Err(BootstrapError::PermissionDenied));
    assert_eq!(register_provider_outcome(&BootstrapResponse::success().to_bytes()), Ok(()));

    assert_eq!(ping_outcome(&BootstrapResponse::success().to_bytes()), Ok(()));
    assert_eq!(ping_outcome(&not_found), Err(BootstrapError::CommunicationError));
    assert_eq!(ping_outcome(&[]), Err(BootstrapError::InvalidResponse));
}

#[test]
fn registry_requests() {
    let mut reg: BootstrapRegistry<u32> = BootstrapRegistry::new();
    reg.register_service(b"NAMESERVER".to_vec(), 10, true);
    let user = reg.add_child(100, false);
    let admin = reg.add_child(200, true);
    assert_eq!(user, 1);
    assert_eq!(admin, 2);

    let msg = request(1, b"NAMESERVER");
    match reg.handle_request(user, &msg, msg.len(), 0, false) {
        BootstrapCommand::GetService(name) => assert_eq!(name, b"NAMESERVER".to_vec()),
        _ => panic!("expected a service request"),
    }
    assert!(matches!(reg.handle_request(99, &msg, msg.len(), 0, false), BootstrapCommand::Ignore));
    assert!(matches!(reg.handle_request(user, &msg, 10, 0, false), BootstrapCommand::Ignore));
    assert!(matches!(reg.handle_request(user, &msg, 20, 0, false), BootstrapCommand::Reject(ResponseStatus::InvalidRequest)));
    let bad_magic = header(0, 1, 0);
    assert!(matches!(reg.handle_request(user, &bad_magic, 16, 0, false), BootstrapCommand::Reject(ResponseStatus::InvalidRequest)));
    let bad_utf8 = request(1, &[0xff, 0xfe]);
    assert!(matches!(reg.handle_request(user, &bad_utf8, bad_utf8.len(), 0, false), BootstrapCommand::Reject(ResponseStatus::InvalidRequest)));

    let reg_msg = request(2, b"FSSERVER");
    assert!(matches!(reg.handle_request(user, &reg_msg, reg_msg.len(), 1, true), BootstrapCommand::Reject(ResponseStatus::PermissionDenied)));
    assert!(matches!(reg.handle_request(admin, &reg_msg, reg_msg.len(), 0, true), BootstrapCommand::Reject(ResponseStatus::InvalidRequest)));
    assert!(matches!(reg.handle_request(admin, &reg_msg, reg_msg.len(), 1, true), BootstrapCommand::RegisterProvider(_)));
    let list = request(3, b"");
    assert!(matches!(reg.handle_request(user, &list, list.len(), 0, false), BootstrapCommand::ListServices));
    let ping = request(4, b"");
    assert!(matches!(reg.handle_request(user, &ping, ping.len(), 0, false), BootstrapCommand::Ping));
}

#[test]
fn registry_services() {
    let mut reg: BootstrapRegistry<u32> = BootstrapRegistry::new();
    reg.register_service(b"NAMESERVER".to_vec(), 10, true);
    let user = reg.add_child(100, false);
    let admin = reg.add_child(200, true);

    assert_eq!(reg.handle_get_service(user, b"NAMESERVER"), ServiceLookup::Reject(ResponseStatus::PermissionDenied));
    assert_eq!(reg.handle_get_service(admin, b"NAMESERVER"), ServiceLookup::Connect(0));
    assert_eq!(reg.handle_get_service(admin, b"OTHER"), ServiceLookup::Reject(ResponseStatus::NotFound));
    assert_eq!(reg.handle_get_service(77, b"NAMESERVER"), ServiceLookup::Ignore);

    assert_eq!(reg.handle_register_provider(b"BLOCKSERVER".to_vec(), 11), ResponseStatus::Success);
    assert_eq!(reg.handle_register_provider(b"BLOCKSERVER".to_vec(), 12), ResponseStatus::AlreadyExists);
    assert_eq!(reg.handle_register_provider(b"AAA".to_vec(), 13), ResponseStatus::Success);
    // Kept in the order of their names.
    assert_eq!(reg.handle_get_service(user, b"AAA"), ServiceLookup::Connect(0));
    assert_eq!(reg.handle_get_service(user, b"BLOCKSERVER"), ServiceLookup::Connect(1));
    assert_eq!(*reg.service_channel(1), 11);

    let listing = reg.handle_list_services(user).unwrap();
    let mut payload = Vec::new();
    payload.extend_from_slice(&3u32.to_le_bytes());
    for name in [&b"AAA"[..], b"BLOCKSERVER", b"NAMESERVER"] {
        payload.extend_from_slice(&(name.len() as u32).to_le_bytes());
        payload.extend_from_slice(name);
    }
    let mut head = BootstrapResponse::success();
    head.data_len = payload.len() as u32;
    let mut expected = head.to_bytes();
    expected.extend_from_slice(&payload);
    assert_eq!(listing, expected);
    assert!(reg.handle_list_services(55).is_none());

    assert_eq!(reg.child_channel(user), Some(&100));
    assert_eq!(reg.remove_child(user), Some(user));
    assert_eq!(reg.remove_child(user), None);
    assert!(reg.child_channel(user).is_none());

    // A pre-registered service replaces one of the same name.
    reg.register_service(b"AAA".to_vec(), 14, false);
    assert_eq!(*reg.service_channel(0), 14);
}
