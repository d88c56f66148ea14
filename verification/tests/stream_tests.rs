use kaitai::error::ParseError;
use kaitai::stream::ByteStream;
use kaitai::stream::TerminatorFlags;

fn new_buf() -> ByteStream {
    ByteStream::new(vec![0, 1, 2, 3, 4, 5, 6, 7, 8, 9])
}

#[test]
fn is_eof() {
    let mut buf = new_buf();

    buf.seek_end(0).unwrap();
    assert!(buf.is_eof());

    buf.seek_current(-3).unwrap();
    assert!(!buf.is_eof());
}

#[test]
fn pos() {
    let mut buf = new_buf();

    assert_eq!(buf.pos(), 0);

    buf.seek_current(4).unwrap();
    assert_eq!(buf.pos(), 4);

    buf.seek_end(0).unwrap();
    assert_eq!(buf.pos(), 10);
}

#[test]
fn size() {
    let buf = new_buf();

    assert_eq!(buf.size(), 10)
}

#[test]
fn read_bytes() {
    let mut buf = new_buf();

    assert_eq!(vec![0, 1], buf.read_bytes(2).unwrap());
    assert_eq!(vec![2, 3, 4], buf.read_bytes(3).unwrap());
}

#[test]
fn read_bytes_past_end_is_eof_and_keeps_cursor() {
    let mut buf = new_buf();
    buf.read_bytes(8).unwrap();
    assert_eq!(buf.read_bytes(3), Err(ParseError::Eof));
    assert_eq!(buf.pos(), 8);
    assert_eq!(vec![8, 9], buf.read_bytes(2).unwrap());
}

#[test]
fn read_bytes_full() {
    let mut buf = new_buf();

    assert_eq!(
        vec![0, 1, 2, 3, 4, 5, 6, 7, 8, 9],
        buf.read_bytes_full().unwrap()
    );
}

#[test]
fn read_bytes_term() {
    let mut buf = ByteStream::new(vec![0, 1, 2, 3, 4, 5, 6, 7, 8, 9]);

    assert_eq!(
        vec![0, 1, 2],
        buf.read_bytes_term('\u{3}', TerminatorFlags::consume()).unwrap()
    );
    assert_eq!(
        vec![4, 5],
        buf.read_bytes_term('\u{6}', TerminatorFlags::new()).unwrap()
    );
    assert_eq!(
        vec![6, 7],
        buf.read_bytes_term('\u{7}', TerminatorFlags::all()).unwrap()
    );
    assert_eq!(
        vec![8],
        buf.read_bytes_term('\u{8}', TerminatorFlags::append()).unwrap()
    );
    assert!(buf.read_bytes_term('\u{15}', TerminatorFlags::new()).is_err());
}

#[test]
fn read_bytes_term_cursor_positions() {
    // consume only: cursor ends past the terminator
    let mut buf = new_buf();
    assert_eq!(vec![0, 1, 2], buf.read_bytes_term('\u{3}', TerminatorFlags::consume()).unwrap());
    assert_eq!(buf.pos(), 4);
    // neither: cursor ends on the terminator
    let mut buf = new_buf();
    assert_eq!(vec![0, 1, 2], buf.read_bytes_term('\u{3}', TerminatorFlags::new()).unwrap());
    assert_eq!(buf.pos(), 3);
    // append and consume: terminator in the result, cursor past it
    let mut buf = new_buf();
    assert_eq!(vec![0, 1, 2, 3], buf.read_bytes_term('\u{3}', TerminatorFlags::all()).unwrap());
    assert_eq!(buf.pos(), 4);
    // append only: terminator in the result, cursor resting on it
    let mut buf = new_buf();
    assert_eq!(vec![0, 1, 2, 3], buf.read_bytes_term('\u{3}', TerminatorFlags::append()).unwrap());
    assert_eq!(buf.pos(), 3);
    // missing terminator: the error names it
    let mut buf = new_buf();
    match buf.read_bytes_term('\u{42}', TerminatorFlags::new()) {
        Err(ParseError::EofBeforeTerminator { term }) => assert_eq!(term, '\u{42}'),
        other => panic!("expected a missing-terminator error, got {:?}", other),
    }
}

#[test]
fn ensure_fixed_contents() {
    let mut buf = new_buf();

    assert!(buf.ensure_fixed_contents(&[0, 1, 2]).is_ok());
    assert!(buf.ensure_fixed_contents(&[3, 4]).is_ok());
    buf.seek_current(1).unwrap();
    assert!(buf.ensure_fixed_contents(&[6, 7, 8]).is_ok());
    assert!(buf.ensure_fixed_contents(&[8, 9, 10]).is_err());
}

#[test]
fn ensure_fixed_contents_reports_actual_and_expected() {
    let mut buf = new_buf();
    match buf.ensure_fixed_contents(&[9, 9]) {
        Err(ParseError::UnexpectedContents { actual, expected }) => {
            assert_eq!(actual, vec![0, 1]);
            assert_eq!(expected, vec![9, 9]);
        }
        other => panic!("expected a contents mismatch, got {:?}", other),
    }
    // the cursor stands past the compared bytes after a mismatch
    assert_eq!(buf.pos(), 2);
}

#[test]
fn read_u1() {
    let mut buf = ByteStream::new(vec![1, 2, 3, 4, 5, 6, 7, 8]);
    assert_eq!(buf.read_u1().unwrap(), 1);
}

#[test]
fn read_s1() {
    let mut buf = ByteStream::new(vec![1, 2, 3, 4, 5, 6, 7, 8]);
    assert_eq!(buf.read_s1().unwrap(), 1);
}

#[test]
fn read_s2le() {
    let mut buf = ByteStream::new(vec![1, 2, 3, 4, 5, 6, 7, 8]);
    assert_eq!(buf.read_s2le().unwrap(), 513);
}

#[test]
fn read_s2be() {
    let mut buf = ByteStream::new(vec![1, 2, 3, 4, 5, 6, 7, 8]);
    assert_eq!(buf.read_s2be().unwrap(), 258);
}

#[test]
fn read_u2le() {
    let mut buf = ByteStream::new(vec![1, 2, 3, 4, 5, 6, 7, 8]);
    assert_eq!(buf.read_u2le().unwrap(), 513);
}

#[test]
fn read_u2be() {
    let mut buf = ByteStream::new(vec![1, 2, 3, 4, 5, 6, 7, 8]);
    assert_eq!(buf.read_u2be().unwrap(), 258);
}

#[test]
fn read_s4le() {
    let mut buf = ByteStream::new(vec![1, 2, 3, 4, 5, 6, 7, 8]);
    assert_eq!(buf.read_s4le().unwrap(), 67305985);
}

#[test]
fn read_s4be() {
    let mut buf = ByteStream::new(vec![1, 2, 3, 4, 5, 6, 7, 8]);
    assert_eq!(buf.read_s4be().unwrap(), 16909060);
}

#[test]
fn read_u4le() {
    let mut buf = ByteStream::new(vec![1, 2, 3, 4, 5, 6, 7, 8]);
    assert_eq!(buf.read_u4le().unwrap(), 67305985);
}

#[test]
fn read_u4be() {
    let mut buf = ByteStream::new(vec![1, 2, 3, 4, 5, 6, 7, 8]);
    assert_eq!(buf.read_u4be().unwrap(), 16909060);
}

#[test]
fn read_s8le() {
    let mut buf = ByteStream::new(vec![1, 2, 3, 4, 5, 6, 7, 8]);
    assert_eq!(buf.read_s8le().unwrap(), 578437695752307201);
}

#[test]
fn read_s8be() {
    let mut buf = ByteStream::new(vec![1, 2, 3, 4, 5, 6, 7, 8]);
    assert_eq!(buf.read_s8be().unwrap(), 72623859790382856);
}

#[test]
fn read_u8le() {
    let mut buf = ByteStream::new(vec![1, 2, 3, 4, 5, 6, 7, 8]);
    assert_eq!(buf.read_u8le().unwrap(), 578437695752307201);
}

#[test]
fn read_u8be() {
    let mut buf = ByteStream::new(vec![1, 2, 3, 4, 5, 6, 7, 8]);
    assert_eq!(buf.read_u8be().unwrap(), 72623859790382856);
}

#[test]
fn read_signed_negative_values() {
    let mut buf = ByteStream::new(vec![0xff]);
    assert_eq!(buf.read_s1().unwrap(), -1);
    let mut buf = ByteStream::new(vec![0xfe, 0xff]);
    assert_eq!(buf.read_s2le().unwrap(), -2);
    let mut buf = ByteStream::new(vec![0xff, 0xff, 0xff, 0x7f]);
    assert_eq!(buf.read_s4le().unwrap(), i32::MAX);
    let mut buf = ByteStream::new(vec![0x00, 0x00, 0x00, 0x80]);
    assert_eq!(buf.read_s4le().unwrap(), i32::MIN);
    let mut buf = ByteStream::new(vec![0xff; 8]);
    assert_eq!(buf.read_s8be().unwrap(), -1);
}

#[test]
fn read_f4le() {
    let mut buf = ByteStream::new(vec![0, 0, 128, 62]);
    assert!((f32::from_bits(buf.read_f4le_bits().unwrap()) - 0.25).abs() < f32::EPSILON);
}

#[test]
fn read_f4be() {
    let mut buf = ByteStream::new(vec![62, 128, 0, 0]);
    assert!((f32::from_bits(buf.read_f4be_bits().unwrap()) - 0.25).abs() < f32::EPSILON);
}

#[test]
fn read_f8le() {
    let mut buf = ByteStream::new(vec![0, 0, 0, 0, 0, 0, 208, 63]);
    assert!((f64::from_bits(buf.read_f8le_bits().unwrap()) - 0.25).abs() < f64::EPSILON);
}

#[test]
fn read_f8be() {
    let mut buf = ByteStream::new(vec![63, 208, 0, 0, 0, 0, 0, 0]);
    assert!((f64::from_bits(buf.read_f8be_bits().unwrap()) - 0.25).abs() < f64::EPSILON);
}

#[test]
fn seek_out_of_range_is_rejected() {
    let mut buf = new_buf();
    assert_eq!(buf.seek_start(11), Err(ParseError::SeekOutOfRange));
    assert_eq!(buf.pos(), 0);
    assert_eq!(buf.seek_current(-1), Err(ParseError::SeekOutOfRange));
    assert!(buf.seek_start(10).is_ok());
}
