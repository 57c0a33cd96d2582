use chook::example::example_hook;
use chook::gate::{check_peer, PeerCredentials};
use chook::serve::{Connection, Phase};
use chook::wire::{decode_frame, encode_frame};
use chook::Arg;

fn peer(pid: i32) -> PeerCredentials {
    PeerCredentials { pid, uid: 1000, gid: 1000 }
}

#[test]
fn gate_admits_only_the_authorized_identity() {
    assert!(check_peer(&peer(4242), 4242).is_ok());
    assert!(check_peer(&peer(4243), 4242).is_err());
    assert!(check_peer(&PeerCredentials { pid: 1, uid: 4242, gid: 4242 }, 4242).is_err());
}

#[test]
fn mismatched_peer_is_closed_before_reading() {
    let mut c = Connection::new(100);
    let err = c.on_peer(&peer(101)).unwrap_err();
    assert!(err.message().contains("access denied"));
    assert_eq!(c.phase, Phase::Closed);
}

#[test]
fn short_body_abandons_connection() {
    let mut c = Connection::new(100);
    c.on_peer(&peer(100)).unwrap();
    let n = c.on_header(&[4, 0, 0, 0, 0, 0, 0, 0]).unwrap();
    assert_eq!(n, 4);
    assert_eq!(c.phase, Phase::Body(4));
    assert!(c.on_body(vec![1, 2, 3]).is_err());
    assert_eq!(c.phase, Phase::Closed);
}

#[test]
fn short_header_abandons_connection() {
    let mut c = Connection::new(100);
    c.on_peer(&peer(100)).unwrap();
    assert!(c.on_header(&[4, 0]).is_err());
    assert_eq!(c.phase, Phase::Closed);
}

/// One call through the connection phases, with `f` standing for the
/// injected function on serialized values.
fn serve_one(allowed: i32, caller: i32, request: &[u8], f: impl Fn(&[u8]) -> Vec<u8>) -> Option<Vec<u8>> {
    let mut c = Connection::new(allowed);
    c.on_peer(&peer(caller)).ok()?;
    let frame = encode_frame(request);
    let n = c.on_header(&frame[..8]).ok()?;
    let payload = c.on_body(frame[8..8 + n].to_vec()).ok()?;
    let response = c.on_result(&f(&payload));
    assert_eq!(c.phase, Phase::Closed);
    Some(decode_frame(&response).unwrap())
}

#[test]
fn call_returns_function_result() {
    let own = nix::unistd::getpid().as_raw();
    let request = bincode::serialize(&(String::from("hello"), 5i64)).unwrap();
    let f = |bytes: &[u8]| {
        let (text, n): (String, i64) = bincode::deserialize(bytes).unwrap();
        bincode::serialize(&(text.len() as u64, n * 2)).unwrap()
    };
    let response = serve_one(own, own, &request, f).unwrap();
    let ret: (u64, i64) = bincode::deserialize(&response).unwrap();
    assert_eq!(ret, (5, 10));
}

#[test]
fn mismatched_caller_gets_no_response() {
    let request = bincode::serialize(&(String::from("hello"), 5i64)).unwrap();
    let called = std::cell::Cell::new(false);
    let f = |_: &[u8]| {
        called.set(true);
        Vec::new()
    };
    assert!(serve_one(10, 11, &request, f).is_none());
    assert!(!called.get());
}

#[test]
fn serial_calls_pair_requests_with_responses() {
    for n in 0..5i64 {
        let request = bincode::serialize(&n).unwrap();
        let f = |bytes: &[u8]| {
            let v: i64 = bincode::deserialize(bytes).unwrap();
            bincode::serialize(&(v * 100)).unwrap()
        };
        let response = serve_one(1, 1, &request, f).unwrap();
        let v: i64 = bincode::deserialize(&response).unwrap();
        assert_eq!(v, n * 100);
    }
}

#[test]
fn example_hook_trims_and_doubles() {
    let arg = Arg {
        print_this_string: String::from("print me from the hook"),
        trim_this_string: String::from("    oh no, whitespace     "),
        print_this_int: 42,
        double_this_int: 5,
    };
    let ret = example_hook(&arg);
    assert_eq!(ret.trimmed_string, "oh no, whitespace");
    assert_eq!(ret.doubled_int, 10);
    let ret = example_hook(&Arg {
        print_this_string: String::new(),
        trim_this_string: String::from("\t x \n"),
        print_this_int: 0,
        double_this_int: -21,
    });
    assert_eq!(ret.trimmed_string, "x");
    assert_eq!(ret.doubled_int, -42);
}

#[test]
fn error_message_is_kept() {
    let e = chook::ChookError::new("dialing control socket");
    assert_eq!(e.message(), "dialing control socket");
}
