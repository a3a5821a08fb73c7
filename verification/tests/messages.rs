use super_orchestrator::duration::Duration;
use super_orchestrator::error::{Error, ErrorKind};
use super_orchestrator::misc::{type_hash, wait_for_ok, Retry};
use super_orchestrator::net_message::{
    encode_frame, recv_error, send_error, send_step, Receiver, SendStep, Serialized,
};
use super_orchestrator::uuid::{name_with_uuid, Uuid};

fn receive(receiver: &mut Receiver, stream: &[u8]) -> Result<Vec<u8>, Error> {
    let mut at = 0;
    loop {
        let n = receiver.wanted();
        let part = stream[at..at + n].to_vec();
        at += n;
        if let Some(data) = receiver.receive(part)? {
            assert_eq!(at, stream.len());
            return Ok(data);
        }
    }
}

#[test]
fn type_hashes_are_the_start_of_a_digest() {
    assert_eq!(
        type_hash(""),
        [
            0xa7, 0xff, 0xc6, 0xf8, 0xbf, 0x1e, 0xd7, 0x66, 0x51, 0xc1, 0x47, 0x56, 0xa0, 0x61,
            0xd6, 0x62
        ]
    );
    assert_eq!(
        type_hash("abc"),
        [
            0x3a, 0x98, 0x5d, 0xa7, 0x4f, 0xe2, 0x25, 0xb2, 0x04, 0x5c, 0x17, 0x2d, 0x6b, 0xd3,
            0x90, 0xbd
        ]
    );
}

#[test]
fn frames_are_an_id_a_length_and_the_data() {
    let id = [7u8; 16];
    let data = vec![9u8; 300];
    let frame = encode_frame(&id, &data);
    assert_eq!(&frame[..16], &id);
    assert_eq!(&frame[16..24], &[44, 1, 0, 0, 0, 0, 0, 0]);
    assert_eq!(&frame[24..], &data[..]);
    assert_eq!(encode_frame(&id, &[]).len(), 24);
}

#[test]
fn sent_data_is_received() {
    let id = type_hash("alloc::string::String");
    for data in [&b""[..], &b"x"[..], &[0u8; 1000][..]] {
        let mut receiver = Receiver::new(id, "alloc::string::String");
        assert_eq!(receiver.wanted(), 16);
        let frame = encode_frame(&id, data);
        assert_eq!(receive(&mut receiver, &frame).ok().unwrap(), data);
    }
}

#[test]
fn another_type_is_refused() {
    let frame = encode_frame(&type_hash("u64"), b"12345678");
    let mut receiver = Receiver::new(type_hash("u32"), "u32");
    let e = receive(&mut receiver, &frame).err().unwrap();
    match &e.error_stack[..] {
        [ErrorKind::StringError(s)] => assert_eq!(
            s,
            "NetMessenger::recv() -> incoming type did not match expected type (u32)"
        ),
        _ => unreachable!(),
    }
}

#[test]
fn buffers_grow_until_the_message_fits() {
    assert!(matches!(send_step(Serialized::Done, 5), SendStep::Send));
    assert!(matches!(send_step(Serialized::BufferFull, 0), SendStep::Reserve(2)));
    assert!(matches!(send_step(Serialized::BufferFull, 64), SendStep::Reserve(128)));
    match send_step(Serialized::Failed("WontImplement".to_owned()), 64) {
        SendStep::Fail(e) => assert!(matches!(
            &e.error_stack[..],
            [ErrorKind::BoxedError(_), ErrorKind::StrError("failed to serialize message")]
        )),
        _ => unreachable!(),
    }
}

#[test]
fn broken_transfers_point_to_the_other_side() {
    for e in [send_error("u8", "x".to_owned()), recv_error("u8", "x".to_owned())] {
        assert!(e.is_probably_not_root_cause());
        assert_eq!(e.error_stack.len(), 3);
        assert!(!e.is_timeout());
    }
}

#[test]
fn retries_come_to_an_end() {
    let delay = Duration::from_millis(1500);
    let mut left = 2;
    for expected in [1, 0] {
        let attempt: Result<(), Error> = Err(Error::from_text("no".to_owned()));
        assert!(matches!(wait_for_ok(2, delay, &mut left, attempt), Retry::Wait));
        assert_eq!(left, expected);
    }
    let attempt: Result<(), Error> = Err(Error::from_text("no".to_owned()));
    match wait_for_ok(2, delay, &mut left, attempt) {
        Retry::Done(Err(e)) => {
            assert!(e.is_timeout());
            match &e.error_stack[2] {
                ErrorKind::StringError(s) => assert_eq!(
                    s,
                    "wait_for_ok(num_retries: 2, delay: 1.5s) timeout, last error stack was"
                ),
                _ => unreachable!(),
            }
        }
        _ => unreachable!(),
    }
    // 0 retries can still pass
    let mut left = 0;
    assert!(matches!(wait_for_ok(0, delay, &mut left, Ok(5)), Retry::Done(Ok(5))));
}

#[test]
fn uuids_are_hyphenated() {
    let uuid = Uuid { bits: 0x0123456789abcdef_fedcba9876543210 };
    assert_eq!(uuid.to_text(), "01234567-89ab-cdef-fedc-ba9876543210");
    assert_eq!(name_with_uuid("test", &uuid), "test_01234567-89ab-cdef-fedc-ba9876543210");
    let uuid = Uuid::new_v4();
    let text = uuid.to_text();
    assert_eq!(text.len(), 36);
    assert_eq!(&text[14..15], "4");
    assert!(["8", "9", "a", "b"].contains(&&text[19..20]));
    assert_ne!(uuid, Uuid::new_v4());
}

#[test]
fn durations_add_up() {
    let a = Duration::from_millis(1999);
    assert_eq!((a.secs, a.nanos), (1, 999_000_000));
    let b = a.checked_add(Duration::from_millis(1)).unwrap();
    assert_eq!(b, Duration::from_secs(2));
    assert!(b.exceeds(&a) && !a.exceeds(&b) && !a.exceeds(&a));
    assert!(Duration::from_secs(u64::MAX).checked_add(Duration::from_secs(1)).is_none());
    assert!(Duration::zero().is_zero() && !a.is_zero());
}
