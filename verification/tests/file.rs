use actix_web_rsvp::file::FileBuf;

#[test]
fn a_new_file_is_empty() {
    let mut file = FileBuf::new();
    assert_eq!(file.len(), 0);
    assert_eq!(file.position(), 0);
    assert_eq!(file.read_to_end(), Vec::<u8>::new());
    assert_eq!(file.position(), 0);
    assert_eq!(file.into_bytes(), Vec::<u8>::new());
}

#[test]
fn a_file_from_bytes_starts_at_its_first_byte() {
    let mut file = FileBuf::from_bytes(b"hello".to_vec());
    assert_eq!(file.len(), 5);
    assert_eq!(file.position(), 0);
    assert_eq!(file.as_bytes(), b"hello");
    assert_eq!(file.read_to_end(), b"hello");
    assert_eq!(file.position(), 5);
    assert_eq!(file.read_to_end(), b"");
    assert_eq!(file.position(), 5);
}

#[test]
fn a_write_at_the_end_appends() {
    let mut file = FileBuf::from_bytes(b"abc".to_vec());
    file.seek_end();
    assert_eq!(file.position(), 3);
    file.write_all(b"de");
    assert_eq!(file.as_bytes(), b"abcde");
    assert_eq!(file.position(), 5);
    file.write_all(b"");
    assert_eq!(file.as_bytes(), b"abcde");
    assert_eq!(file.position(), 5);
}

#[test]
fn a_write_inside_the_file_overwrites() {
    let mut file = FileBuf::from_bytes(b"abcdef".to_vec());
    file.write_all(b"XY");
    assert_eq!(file.as_bytes(), b"XYcdef");
    assert_eq!(file.position(), 2);
    assert_eq!(file.read_to_end(), b"cdef");
    file.seek_start();
    file.write_all(b"123456789");
    assert_eq!(file.as_bytes(), b"123456789");
    assert_eq!(file.position(), 9);
    assert_eq!(file.len(), 9);
}

#[test]
fn truncate_leaves_the_cursor_and_a_later_write_fills_with_zeros() {
    let mut file = FileBuf::from_bytes(b"abcdef".to_vec());
    file.seek_end();
    file.truncate();
    assert_eq!(file.len(), 0);
    assert_eq!(file.position(), 6);
    assert_eq!(file.read_to_end(), b"");
    assert_eq!(file.position(), 6);
    file.write_all(b"gh");
    assert_eq!(file.as_bytes(), b"\0\0\0\0\0\0gh");
    assert_eq!(file.position(), 8);
    file.truncate();
    file.seek_start();
    file.write_all(b"new");
    assert_eq!(file.into_bytes(), b"new");
}
