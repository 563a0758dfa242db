//! Frames, and who may connect.

use ikigai_module::frame::{
    frame_header, read_length, serves_peer, write_frame, FrameError, MAX_FRAME,
};

#[test]
fn a_frame_is_the_length_and_the_message() {
    let frame = write_frame(&vec![7, 8, 9]).unwrap();
    assert_eq!(frame, [0, 0, 0, 3, 7, 8, 9]);
    assert_eq!(write_frame(&Vec::new()).unwrap(), [0, 0, 0, 0]);
    let long = write_frame(&vec![1; 0x0102_03]).unwrap();
    assert_eq!(long[..4], [0, 1, 2, 3]);
    assert_eq!(long.len(), 0x0102_03 + 4);
}

#[test]
fn a_frame_is_read_back() {
    for payload in [Vec::new(), vec![5], vec![6; 300], vec![7; 70_000]] {
        let frame = write_frame(&payload).unwrap();
        let header = [frame[0], frame[1], frame[2], frame[3]];
        let len: usize = read_length(&header).unwrap();
        assert_eq!(len, payload.len());
        assert_eq!(frame[4..4 + len], payload[..]);
    }
}

#[test]
fn a_length_over_the_limit_is_refused() {
    assert_eq!(MAX_FRAME, 64 * 1024 * 1024);
    assert_eq!(read_length(&[4, 0, 0, 0]), Ok(MAX_FRAME));
    assert_eq!(read_length(&[4, 0, 0, 1]), Err(FrameError::OverLimit));
    assert_eq!(read_length(&[255, 255, 255, 255]), Err(FrameError::OverLimit));
    assert_eq!(
        FrameError::OverLimit.text(),
        "framed message exceeds the size limit"
    );
    assert_eq!(FrameError::TooLarge.text(), "frame too large");
}

#[test]
fn a_length_over_four_bytes_is_not_written() {
    assert_eq!(frame_header(0xffff_ffff), Ok([255, 255, 255, 255]));
    assert_eq!(frame_header(0x1_0000_0000), Err(FrameError::TooLarge));
    assert_eq!(frame_header(0x0102_0304), Ok([1, 2, 3, 4]));
}

#[test]
fn only_the_servers_own_user_is_served() {
    assert!(serves_peer(Some(1000), 1000));
    assert!(!serves_peer(Some(0), 1000));
    assert!(!serves_peer(None, 1000));
}
