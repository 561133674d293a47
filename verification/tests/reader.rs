use java_class::class::JavaClassReader;
use java_class::error::ParseError;

#[test]
fn reads_big_endian() {
    let mut r = JavaClassReader::new_from_bytes(vec![1, 2, 3, 4, 5, 6, 7, 8, 9, 10, 11, 12, 13, 14, 15]).unwrap();
    assert_eq!(r.next8(), Ok(1));
    assert_eq!(r.next16(), Ok(0x0203));
    assert_eq!(r.next32(), Ok(0x04050607));
    assert_eq!(r.next64(), Ok(0x08090a0b0c0d0e0f));
    assert_eq!(r.dist(), 15);
    assert_eq!(r.next8(), Err(ParseError::EndOfFile));
}

#[test]
fn short_reads_fail() {
    let mut r = JavaClassReader::new_from_bytes(vec![1]).unwrap();
    assert_eq!(r.next16(), Err(ParseError::EndOfFile));
    let mut r = JavaClassReader::new_from_bytes(vec![1, 2, 3]).unwrap();
    assert_eq!(r.next32(), Err(ParseError::EndOfFile));
}
