use super_orchestrator::rw_stream::{
    rw_stream, rw_stream_with_capacity, Buf, BufInner, RwStream,
};

#[test]
fn test() {
    let num_readers = 10;
    let (writer, mut readers) = rw_stream(num_readers);
    let mut targets = vec![Vec::<u8>::new(); num_readers];
    for target in &mut targets {
        let mut reader = readers.pop().unwrap();
        if let Some(bytes) = reader.poll_read(writer.lock0.as_ref().unwrap(), 64) {
            target.extend(bytes);
        }
    }
    assert!(readers.is_empty());
    let to_write: Vec<u8> = vec![];
    for target in targets {
        assert_eq!(to_write, target);
    }
}

#[test]
fn capacities_are_kept() {
    let (writer, readers) = rw_stream(3);
    assert_eq!(writer.lock0.as_ref().unwrap().buf.len(), 8192);
    assert!(writer.lock1.is_none());
    assert_eq!(readers.len(), 3);
    let (writer, readers) = rw_stream_with_capacity(0, 5);
    assert_eq!(writer.lock0.as_ref().unwrap().buf.len(), 5);
    assert!(readers.is_empty());
}

#[test]
fn writes_follow_each_other() {
    let (mut writer, _) = rw_stream_with_capacity(1, 5);
    assert_eq!(writer.poll_write(b"abc"), Some(3));
    assert_eq!(writer.poll_write(b"defg"), Some(2));
    assert_eq!(writer.poll_write(b"h"), Some(0));
    let buf = writer.lock0.as_ref().unwrap();
    assert_eq!(buf.buf, b"abcde");
    assert_eq!(buf.fill, 5);
}

#[test]
fn a_writer_without_a_buffer_has_to_wait() {
    let (mut writer, _) = rw_stream_with_capacity(1, 5);
    writer.lock0 = None;
    assert_eq!(writer.poll_write(b"abc"), None);
}

#[test]
fn readers_see_the_same_data() {
    let mut buf = BufInner::new(8);
    assert_eq!(buf.write(b"abcdef"), 6);
    let (_, readers) = rw_stream_with_capacity(2, 8);
    let mut seen: Vec<Vec<u8>> = vec![];
    for (mut reader, limit) in readers.into_iter().zip([4usize, 1]) {
        reader.lock = Some(0);
        let mut all = vec![];
        while let Some(bytes) = reader.poll_read(&buf, limit) {
            assert!(bytes.len() <= limit);
            all.extend(bytes);
        }
        seen.push(all);
    }
    assert_eq!(seen, vec![b"abcdef".to_vec(), b"abcdef".to_vec()]);
}

#[test]
fn writer_and_readers_take_opposite_buffers() {
    let mut stream = RwStream { current_buf: false, buf0: Buf::new(4), buf1: Buf::new(4) };
    stream.buf1.reads_left = 2;
    assert_eq!(stream.get_readers_left(), 2);
    assert_eq!(stream.write_owned().write(b"abc"), 3);
    assert_eq!(stream.buf0.inner_buf.buf, b"abc\0");
    assert_eq!(stream.read_owned().read(0, 8), (b"abc".to_vec(), true));
    assert_eq!(stream.current_buf().inner_buf.fill, 0);
    assert!(!stream.read_finished());
    assert!(stream.read_finished());
    stream.current_buf = true;
    assert_eq!(stream.write_owned().write(b"abcdef"), 4);
    assert_eq!(stream.buf1.inner_buf.buf, b"abcd");
    assert_eq!(stream.current_buf().inner_buf.fill, 3);
    assert!(!stream.read_finished());
    assert_eq!(stream.get_readers_left(), usize::MAX);
}
