use picoserve::sink::Sink;

#[test]
fn a_vector_takes_every_write() {
    let mut buf: Vec<u8> = vec![1];
    assert!(buf.write_all(&[2, 3]).is_ok());
    assert!(buf.write_all(&[]).is_ok());
    assert!(buf.write_all(&[4]).is_ok());
    assert_eq!(vec![1, 2, 3, 4], buf);
}
