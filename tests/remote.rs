use sample_ic_web3_macros_backend::{resolve_target, settle_reply, CallError, RejectKind};

#[test]
fn management_canister_id_resolves_to_no_bytes() {
    let id = resolve_target("aaaaa-aa").unwrap();
    assert_eq!(id.as_bytes(), &Vec::<u8>::new());
}

#[test]
fn canister_id_resolves_to_its_bytes() {
    let id = resolve_target("ryjl3-tyaaa-aaaaa-aaaba-cai").unwrap();
    assert_eq!(id.as_bytes(), &vec![0, 0, 0, 0, 0, 0, 0, 2, 1, 1]);
}

#[test]
fn malformed_canister_id_is_a_typed_error() {
    for text in ["", "not a principal", "ryjl3-tyaaa-aaaaa-aaaba-caa", "ryjl3tyaaaaaaaaaaabacai"] {
        match resolve_target(text) {
            Err(CallError::InvalidTarget(m)) => assert!(!m.is_empty()),
            _ => panic!("expected an invalid target for {:?}", text),
        }
    }
}

#[test]
fn invalid_target_settles_to_described_err() {
    let e = match resolve_target("") {
        Err(e) => e,
        Ok(_) => panic!("empty text resolved"),
    };
    let r = settle_reply(Err(e)).unwrap_err();
    assert!(r.starts_with("InvalidTarget: "));
    assert!(r.len() > "InvalidTarget: ".len());
}

#[test]
fn remote_reply_passes_through() {
    assert_eq!(
        settle_reply(Ok(Ok(String::from("Hello, a! b")))),
        Ok(String::from("Hello, a! b"))
    );
    assert_eq!(
        settle_reply(Ok(Err(String::from("remote said no")))),
        Err(String::from("remote said no"))
    );
}

#[test]
fn rejection_settles_to_kind_and_cause() {
    let e = CallError::Rejected {
        kind: RejectKind::DestinationInvalid,
        message: String::from("canister not found"),
    };
    assert_eq!(e.description(), "DestinationInvalid: canister not found");
    assert_eq!(
        settle_reply(Err(e)),
        Err(String::from("DestinationInvalid: canister not found"))
    );
    let e = CallError::Rejected { kind: RejectKind::SysTransient, message: String::new() };
    assert_eq!(settle_reply(Err(e)), Err(String::from("SysTransient: ")));
    let e = CallError::InvalidTarget(String::from("Text is too short."));
    assert_eq!(e.description(), "InvalidTarget: Text is too short.");
}
