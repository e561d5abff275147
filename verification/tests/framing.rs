//! The stream framer: frame boundaries, the length cap, and forward
//! progress over undecodable frames.

use irc_wire::framer::{Framer, IRCError};
use irc_wire::types::Command;

#[test]
fn two_messages_in_one_chunk() {
    let mut f = Framer::new();
    f.append(b"PRIVMSG #chan :Hello\r\nPING :abc\r\n");
    let m1 = f.next_message().unwrap();
    assert!(matches!(m1.command, Command::PRIVMSG { .. }));
    let m2 = f.next_message().unwrap();
    assert!(matches!(m2.command, Command::PING { .. }));
    assert_eq!(f.next_message(), Err(IRCError::NoMessageLeftInBuffer));
}

#[test]
fn chunk_split_offset_does_not_matter() {
    let stream = b"PRIVMSG #chan :Hello\r\nPING :abc\r\n";
    let mut whole = Framer::new();
    whole.append(stream);
    let whole1 = whole.next_message().unwrap().to_bytes();
    let whole2 = whole.next_message().unwrap().to_bytes();
    for split in 0..stream.len() {
        let mut f = Framer::new();
        f.append(&stream[..split]);
        f.append(&stream[split..]);
        assert_eq!(f.next_message().unwrap().to_bytes(), whole1);
        assert_eq!(f.next_message().unwrap().to_bytes(), whole2);
        assert_eq!(f.next_message(), Err(IRCError::NoMessageLeftInBuffer));
    }
}

#[test]
fn no_terminator_means_no_message() {
    let mut f = Framer::new();
    f.append(b"PRIVMSG #chan Hello");
    assert_eq!(f.next_message(), Err(IRCError::NoMessageLeftInBuffer));
    // The partial frame stays in the buffer, awaiting more bytes.
    f.append(b"\r\n");
    let m = f.next_message().unwrap();
    assert_eq!(m.to_bytes(), "PRIVMSG #chan Hello\r\n");
}

#[test]
fn oversize_frame_is_discarded() {
    let mut f = Framer::new();
    let long = vec![b'a'; 600];
    f.append(&long);
    f.append(b"\r\n");
    assert_eq!(f.parse_frame(), Err(IRCError::LengthExceeded));
    assert_eq!(f.parse_frame(), Err(IRCError::NoMessageLeftInBuffer));
}

#[test]
fn scanning_resumes_after_an_oversize_frame() {
    let mut f = Framer::new();
    let mut stream = vec![b'a'; 600];
    stream.extend_from_slice(b"\r\nPING tok\r\n");
    f.append(&stream);
    let m = f.next_message().unwrap();
    assert_eq!(m.to_bytes(), "PING tok\r\n");
}

#[test]
fn frame_at_the_length_cap_is_accepted() {
    // 512 bytes before the CRLF is the longest accepted frame.
    let mut line = b"PRIVMSG #chan ".to_vec();
    line.extend_from_slice(&vec![b'x'; 512 - line.len()]);
    let mut f = Framer::new();
    f.append(&line);
    f.append(b"\r\n");
    assert!(f.next_message().is_ok());

    let mut longer = b"PRIVMSG #chan ".to_vec();
    longer.extend_from_slice(&vec![b'x'; 513 - longer.len()]);
    let mut g = Framer::new();
    g.append(&longer);
    g.append(b"\r\n");
    assert_eq!(g.next_message(), Err(IRCError::NoMessageLeftInBuffer));
}

#[test]
fn undecodable_frame_is_skipped() {
    let mut f = Framer::new();
    f.append(&[0xff, 0xfe, b'\r', b'\n']);
    f.append(b"PING tok\r\n");
    let m = f.next_message().unwrap();
    assert_eq!(m.to_bytes(), "PING tok\r\n");
}

#[test]
fn try_extract_frame_returns_raw_bytes() {
    let mut f = Framer::new();
    f.append(b"PING tok\r\nrest");
    let frame = f.try_extract_frame().unwrap();
    assert_eq!(frame, b"PING tok".to_vec());
    assert_eq!(f.try_extract_frame(), Err(IRCError::NoMessageLeftInBuffer));
}
