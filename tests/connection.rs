use std::io::{Error, ErrorKind};

use spi_hal::{Connection, MockStream, Stream};

#[test]
fn transfer_returns_programmed_response() {
    let mut mock = MockStream::new();
    assert!(mock.on_transfer(vec![0x01, 0x02], vec![0xAA, 0xBB]));
    let conn = Connection::new(mock);
    let r = conn.transfer(&[0x01, 0x02]).unwrap();
    assert_eq!(r, vec![0xAA, 0xBB]);
}

#[test]
fn write_failure_kind_passes_through() {
    let mut mock = MockStream::new();
    mock.push_write(Err(Error::from(ErrorKind::PermissionDenied)));
    let mut conn = Connection::new(mock);
    let e = conn.write(&[0x01]).unwrap_err();
    assert_eq!(e.kind(), ErrorKind::PermissionDenied);
}

#[test]
fn read_four_zero_bytes() {
    let mut mock = MockStream::new();
    mock.push_read(Ok(vec![0, 0, 0, 0]));
    let mut conn = Connection::new(mock);
    let r = conn.read(4).unwrap();
    assert_eq!(r, vec![0, 0, 0, 0]);
    assert_eq!(r.len(), 4);
}

#[test]
fn write_leaves_later_answers_alone() {
    let mut mock = MockStream::new();
    assert!(mock.on_transfer(vec![0x10], vec![0x20]));
    mock.push_read(Ok(vec![7, 8, 9]));
    let mut conn = Connection::new(mock);
    conn.write(&[0x55, 0x66]).unwrap();
    conn.write(&[]).unwrap();
    assert_eq!(conn.transfer(&[0x10]).unwrap(), vec![0x20]);
    assert_eq!(conn.read(3).unwrap(), vec![7, 8, 9]);
}

#[test]
fn echo_mock_returns_what_was_sent() {
    let conn = Connection::new(MockStream::new());
    let data = vec![0x01, 0x02, 0x03, 0xFE];
    let r = conn.transfer(&data).unwrap();
    assert_eq!(r.len(), data.len());
    assert_eq!(r, data);
}

#[test]
fn transfer_of_nothing_returns_nothing() {
    let conn = Connection::new(MockStream::new());
    assert_eq!(conn.transfer(&[]).unwrap(), Vec::<u8>::new());
}

#[test]
fn first_matching_exchange_wins() {
    let mut mock = MockStream::new();
    assert!(mock.on_transfer(vec![0x01], vec![0x11]));
    assert!(mock.on_transfer(vec![0x01], vec![0x22]));
    assert!(mock.on_transfer(vec![0x02, 0x03], vec![0x33, 0x44]));
    let conn = Connection::new(mock);
    assert_eq!(conn.transfer(&[0x01]).unwrap(), vec![0x11]);
    assert_eq!(conn.transfer(&[0x02, 0x03]).unwrap(), vec![0x33, 0x44]);
    assert_eq!(conn.transfer(&[0x02]).unwrap(), vec![0x02]);
    assert_eq!(conn.transfer(&[0x01]).unwrap(), vec![0x11]);
}

#[test]
fn exchange_of_unequal_lengths_is_refused() {
    let mut mock = MockStream::new();
    assert!(!mock.on_transfer(vec![0x01, 0x02], vec![0xAA]));
    let conn = Connection::new(mock);
    assert_eq!(conn.transfer(&[0x01, 0x02]).unwrap(), vec![0x01, 0x02]);
}

#[test]
fn read_of_zero_bytes_is_empty() {
    let mut conn = Connection::new(MockStream::new());
    let r = conn.read(0).unwrap();
    assert!(r.is_empty());
}

#[test]
fn read_lengths_are_exact() {
    let mut mock = MockStream::new();
    mock.push_read(Ok(vec![1, 2]));
    mock.push_read(Ok(vec![3, 4, 5, 6, 7]));
    mock.push_read(Ok(vec![9]));
    let mut conn = Connection::new(mock);
    // missing bytes read as zero
    assert_eq!(conn.read(4).unwrap(), vec![1, 2, 0, 0]);
    // surplus bytes are dropped
    assert_eq!(conn.read(3).unwrap(), vec![3, 4, 5]);
    assert_eq!(conn.read(0).unwrap(), Vec::<u8>::new());
    // an idle transport reads zeros
    assert_eq!(conn.read(5).unwrap(), vec![0, 0, 0, 0, 0]);
}

#[test]
fn read_failure_kind_passes_through() {
    let mut mock = MockStream::new();
    mock.push_read(Err(Error::from(ErrorKind::TimedOut)));
    mock.push_read(Ok(vec![0x42]));
    let mut conn = Connection::new(mock);
    assert_eq!(conn.read(1).unwrap_err().kind(), ErrorKind::TimedOut);
    assert_eq!(conn.read(1).unwrap(), vec![0x42]);
}

#[test]
fn write_outcomes_come_in_order() {
    let mut mock = MockStream::new();
    mock.push_write(Ok(()));
    mock.push_write(Err(Error::from(ErrorKind::BrokenPipe)));
    let mut conn = Connection::new(mock);
    assert!(conn.write(&[1]).is_ok());
    assert_eq!(conn.write(&[2]).unwrap_err().kind(), ErrorKind::BrokenPipe);
    assert!(conn.write(&[3]).is_ok());
}

#[test]
fn mock_logs_successful_writes() {
    let mut mock = MockStream::new();
    mock.push_write(Ok(()));
    mock.push_write(Err(Error::from(ErrorKind::PermissionDenied)));
    assert!(mock.write(&[0xDE, 0xAD]).is_ok());
    assert!(mock.write(&[0xBE]).is_err());
    assert!(mock.write(&[]).is_ok());
    assert_eq!(mock.written(), &vec![vec![0xDE, 0xAD], vec![]]);
}
