use bytes::{BufMut, Bytes, BytesMut};
use p2p_file_sync::frame::Cursor;
use p2p_file_sync::Frame;

#[test]
fn test_check_db_sync() {
    let mut buf = BytesMut::with_capacity(1024);
    buf.put_u8(b'.');
    buf.put(&b"\xFF\xFF\xFF\xFF"[..]);

    let mut buf = Cursor::new(&buf[..]);

    Frame::check(&mut buf).unwrap();
}

#[test]
fn test_parse_db_sync() {
    let mut buf = BytesMut::with_capacity(1024);
    buf.put_u8(b'.');
    buf.put(&b"\xFF\xFF\xFF\xFF"[..]);

    let mut buf = Cursor::new(&buf[..]);

    let frame = Frame::parse(&mut buf).unwrap();

    match frame {
        Frame::DbSync { folder_id } => assert_eq!(folder_id, 0xFFFFFFFF),
        _ => assert!(false),
    }
}

#[test]
#[should_panic]
fn test_short_fails() {
    let mut buf = BytesMut::with_capacity(1024);
    buf.put_u8(b'.');
    buf.put(&b"\xFF\xFF\xFF"[..]);

    let mut buf = Cursor::new(&buf[..]);
    Frame::check(&mut buf).unwrap();
}

#[test]
fn test_yes() {
    let mut buf = BytesMut::with_capacity(1024);
    buf.put_u8(b'+');

    let mut buf = Cursor::new(&buf[..]);

    Frame::check(&mut buf).unwrap();
    buf.set_position(0);
    assert!(matches!(Frame::parse(&mut buf).unwrap(), Frame::Yes));
}

#[test]
fn test_no() {
    let mut buf = BytesMut::with_capacity(1024);
    buf.put_u8(b'-');

    let mut buf = Cursor::new(&buf[..]);

    Frame::check(&mut buf).unwrap();
    buf.set_position(0);
    assert!(matches!(Frame::parse(&mut buf).unwrap(), Frame::No));
}

#[test]
fn test_done() {
    let mut buf = BytesMut::with_capacity(1024);
    buf.put_u8(b'*');

    let mut buf = Cursor::new(&buf[..]);

    Frame::check(&mut buf).unwrap();
    buf.set_position(0);
    assert!(matches!(Frame::parse(&mut buf).unwrap(), Frame::Done));
}

#[test]
fn test_initiator_global() {
    let mut buf = BytesMut::with_capacity(1024);
    buf.put_u8(b'!');
    // 32 Bytes Sha256
    buf.extend(std::iter::repeat(b'\x42').take(32));
    // 8 bytes global last modified
    buf.extend(std::iter::repeat(b'\x12').take(8));
    // And the IP of the global peer as String
    buf.put("127.0.0.1".as_bytes());
    // and terminate
    buf.put(&b"\r\n"[..]);
    // And the path as String
    buf.put("folder/file".as_bytes());
    // and terminate
    buf.put(&b"\r\n"[..]);

    let mut buf = Cursor::new(&buf[..]);

    Frame::check(&mut buf).unwrap();
    buf.set_position(0);
    match Frame::parse(&mut buf).unwrap() {
        Frame::InitiatorGlobal {
            global_hash,
            global_last_modified,
            global_peer,
            path,
        } => {
            let bytes = Bytes::from(vec![0x42; 32]);
            assert_eq!(global_hash, bytes);
            assert_eq!(global_last_modified, 0x1212121212121212);
            assert_eq!(global_peer, "127.0.0.1");
            assert_eq!(path, "folder/file");
        }
        _ => assert!(false),
    }
}

#[test]
fn test_request_file() {
    let mut buf = BytesMut::with_capacity(1024);
    buf.put_u8(b'?');
    // Folder_id
    buf.put(&b"\xFF\xFF\xFF\xFF"[..]);
    // Path
    buf.put("folder/file".as_bytes());
    // and terminate
    buf.put(&b"\r\n"[..]);

    let mut buf = Cursor::new(&buf[..]);

    Frame::check(&mut buf).unwrap();
    buf.set_position(0);
    match Frame::parse(&mut buf).unwrap() {
        Frame::RequestFile { folder_id, path } => {
            assert_eq!(folder_id, 0xFFFFFFFF);
            assert_eq!(path, "folder/file");
        }
        _ => assert!(false),
    }
}

#[test]
fn test_file() {
    let mut buf = BytesMut::with_capacity(1024);
    buf.put_u8(b'=');
    // 8 bytes size of 16
    buf.put(&b"\x10\x00\x00\x00\x00\x00\x00\x00"[..]);
    // 16 byte file
    buf.extend(std::iter::repeat(b'\x42').take(16));

    let mut buf = Cursor::new(&buf[..]);

    Frame::check(&mut buf).unwrap();
    buf.set_position(0);
    match Frame::parse(&mut buf).unwrap() {
        Frame::File { size, data } => {
            let bytes = Bytes::from(vec![0x42; 16]);
            assert_eq!(size, 16);
            assert_eq!(data, bytes);
        }
        _ => assert!(false),
    }
}

#[test]
#[should_panic]
fn test_short_file() {
    let mut buf = BytesMut::with_capacity(1024);
    buf.put_u8(b'=');
    // 8 bytes size of 32
    buf.put(&b"\x20\x00\x00\x00\x00\x00\x00\x00"[..]);
    // 16 byte file
    buf.extend(std::iter::repeat(b'\x42').take(16));

    let mut buf = Cursor::new(&buf[..]);

    Frame::check(&mut buf).unwrap();
}
