use netfolder::encoding::{
    Ending, FileReceiver, FileTransmitter, Received, Role, Session, CHUNK_SIZE,
};
use netfolder::net::server::{Command, Connection, Handled, State};
use netfolder::net::{
    create_okay, create_upload, mod_data, parse_data, parse_packet, Code, PACKET_SIZE,
};

fn sample(len: usize) -> Vec<u8> {
    (0..len).map(|i| (i * 31 % 251 + 1) as u8).collect()
}

fn get_file(packets: &Vec<[u8; PACKET_SIZE]>) -> (Vec<u8>, Session, Ending) {
    let receipt = FileReceiver::new().get_file(packets);
    (receipt.content, receipt.session, receipt.ending)
}

fn data(sent: u64, total: u64, fill: u8) -> [u8; PACKET_SIZE] {
    let mut packet = [fill; PACKET_SIZE];
    mod_data(&mut packet, 1, sent, total);
    packet
}

#[test]
fn chunk_size_is_the_room_behind_the_header() {
    assert_eq!(CHUNK_SIZE, 493);
}

#[test]
fn loopback_gives_the_file_back() {
    for len in [0usize, 1, 18, 19, 492, 493, 494, 985, 986, 987, 4832, 10000] {
        let content = sample(len);
        let (packets, sent) = FileTransmitter::new().host_file(&content);
        assert_eq!(packets.len(), (len + 492) / 493);
        assert_eq!(sent.bytes_transferred(), len as u64);
        assert_eq!(sent.total_size(), len as u64);
        assert!(sent.is_complete());
        let (file, session, ending) = get_file(&packets);
        assert_eq!(file, content);
        assert_eq!(session.bytes_transferred(), len as u64);
        if len == 0 {
            assert_eq!(ending, Ending::Starved);
            assert!(!session.is_complete());
        } else {
            assert_eq!(ending, Ending::Complete);
            assert_eq!(session.total_size(), len as u64);
            assert!(session.is_complete());
        }
    }
}

#[test]
fn data_packets_announce_offset_and_total() {
    let content = sample(1000);
    let (packets, _) = FileTransmitter::new().host_file(&content);
    assert_eq!(packets.len(), 3);
    assert_eq!(parse_data(packets[0]), (1, 0, 1000));
    assert_eq!(parse_data(packets[1]), (1, 493, 1000));
    assert_eq!(parse_data(packets[2]), (1, 986, 1000));
    assert_eq!(&packets[0][19..], &content[..493]);
    assert_eq!(&packets[1][19..], &content[493..986]);
    assert_eq!(&packets[2][19..33], &content[986..]);
    assert!(packets[2][33..].iter().all(|b| *b == 0));
    for packet in packets.iter() {
        assert_eq!(parse_packet(packet), Code::Data);
    }
}

#[test]
fn empty_file_has_no_packet() {
    let (packets, session) = FileTransmitter::new().host_file(&[]);
    assert!(packets.is_empty());
    assert_eq!(session.role(), Role::Sending);
    assert_eq!(session.bytes_transferred(), 0);
    assert!(session.is_complete());
}

#[test]
fn frame_stamps_a_chunk_and_clears_the_rest() {
    let transmitter = FileTransmitter::new();
    let mut session = Session::sending(500);
    let mut packet = [0x77u8; PACKET_SIZE];
    assert!(transmitter.frame(&mut session, &mut packet, 493));
    assert_eq!(parse_data(packet), (1, 0, 500));
    assert!(packet[19..].iter().all(|b| *b == 0x77));
    assert_eq!(session.bytes_transferred(), 493);
    let mut packet = [0x55u8; PACKET_SIZE];
    assert!(transmitter.frame(&mut session, &mut packet, 7));
    assert_eq!(parse_data(packet), (1, 493, 500));
    assert!(packet[19..26].iter().all(|b| *b == 0x55));
    assert!(packet[26..].iter().all(|b| *b == 0));
    assert_eq!(session.bytes_transferred(), 500);
    assert!(session.is_complete());
}

#[test]
fn frame_stops_at_the_end_of_the_file() {
    let transmitter = FileTransmitter::new();
    let mut session = Session::sending(10);
    let mut packet = [0x11u8; PACKET_SIZE];
    assert!(!transmitter.frame(&mut session, &mut packet, 0));
    assert_eq!(packet, [0x11u8; PACKET_SIZE]);
    assert_eq!(session.bytes_transferred(), 0);
    assert!(transmitter.frame(&mut session, &mut packet, 400));
    assert_eq!(session.bytes_transferred(), 10);
    assert!(packet[29..].iter().all(|b| *b == 0));
    let before = packet;
    assert!(!transmitter.frame(&mut session, &mut packet, 400));
    assert_eq!(packet, before);
    assert_eq!(session.bytes_transferred(), 10);
}

#[test]
fn frame_takes_no_more_than_a_chunk() {
    let transmitter = FileTransmitter::new();
    let mut session = Session::sending(2000);
    let mut packet = [1u8; PACKET_SIZE];
    assert!(transmitter.frame(&mut session, &mut packet, 100000));
    assert_eq!(session.bytes_transferred(), 493);
}

#[test]
fn receiver_sets_the_total_once_and_trims_the_last_chunk() {
    let receiver = FileReceiver::new();
    let mut session = Session::receiving();
    assert_eq!(session.role(), Role::Receiving);
    assert_eq!(session.total_size(), 0);
    assert!(!session.is_complete());
    assert_eq!(
        receiver.receive(&mut session, &data(0, 500, 3)),
        Received::Chunk { len: 493, done: false }
    );
    assert_eq!(session.total_size(), 500);
    assert_eq!(session.bytes_transferred(), 493);
    assert_eq!(
        receiver.receive(&mut session, &data(493, 500, 3)),
        Received::Chunk { len: 7, done: true }
    );
    assert_eq!(session.bytes_transferred(), 500);
    assert!(session.is_complete());
}

#[test]
fn receiver_is_done_where_a_chunk_fills_the_file() {
    let receiver = FileReceiver::new();
    let mut session = Session::receiving();
    assert_eq!(
        receiver.receive(&mut session, &data(0, 493, 3)),
        Received::Chunk { len: 493, done: true }
    );
    let mut session = Session::receiving();
    assert_eq!(
        receiver.receive(&mut session, &data(0, 0, 3)),
        Received::Chunk { len: 0, done: true }
    );
    assert!(session.is_complete());
}

#[test]
fn resent_chunk_writes_nothing_past_the_total() {
    let receiver = FileReceiver::new();
    let mut session = Session::receiving();
    let last = data(0, 100, 9);
    assert_eq!(receiver.receive(&mut session, &last), Received::Chunk { len: 100, done: true });
    for _ in 0..5 {
        assert_eq!(receiver.receive(&mut session, &last), Received::Chunk { len: 0, done: true });
        assert_eq!(session.bytes_transferred(), 100);
        assert_eq!(session.total_size(), 100);
    }
    let packets = vec![data(0, 600, 1), data(0, 600, 1), data(0, 600, 1)];
    let (file, session, ending) = get_file(&packets);
    assert_eq!(file.len(), 600);
    assert_eq!(session.bytes_transferred(), 600);
    assert_eq!(ending, Ending::Complete);
}

#[test]
fn another_total_is_a_mismatch() {
    let receiver = FileReceiver::new();
    let mut session = Session::receiving();
    assert_eq!(
        receiver.receive(&mut session, &data(0, 1000, 3)),
        Received::Chunk { len: 493, done: false }
    );
    assert_eq!(receiver.receive(&mut session, &data(493, 1001, 3)), Received::Mismatch);
    assert_eq!(session.total_size(), 1000);
    assert_eq!(session.bytes_transferred(), 493);
    let packets = vec![data(0, 1000, 4), data(493, 999, 4), data(986, 1000, 4)];
    let (file, session, ending) = get_file(&packets);
    assert_eq!(file, vec![4u8; 493]);
    assert_eq!(session.bytes_transferred(), 493);
    assert_eq!(ending, Ending::Mismatch);
}

#[test]
fn another_packet_stops_the_receiver() {
    let receiver = FileReceiver::new();
    let mut session = Session::receiving();
    assert_eq!(receiver.receive(&mut session, &create_okay()), Received::Stopped(Code::Okay));
    assert_eq!(session.bytes_transferred(), 0);
    let packets = vec![data(0, 1000, 5), create_okay(), data(493, 1000, 5)];
    let (file, session, ending) = get_file(&packets);
    assert_eq!(file, vec![5u8; 493]);
    assert_eq!(session.bytes_transferred(), 493);
    assert!(!session.is_complete());
    assert_eq!(ending, Ending::Stopped(Code::Okay));
}

#[test]
fn packets_that_run_out_starve_the_receiver() {
    let packets = vec![data(0, 1000, 5)];
    let (file, session, ending) = get_file(&packets);
    assert_eq!(file.len(), 493);
    assert_eq!(session.total_size(), 1000);
    assert_eq!(ending, Ending::Starved);
}

#[test]
fn upload_of_demo_bin_end_to_end() {
    let mut connection = Connection::new();
    let command = connection.handle(Some(create_upload("demo.bin", 1)));
    match command {
        Command::Receive { name, id } => {
            assert_eq!(name, "demo.bin");
            assert_eq!(id, 1);
        },
        _ => panic!("an upload is received"),
    }
    assert_eq!(connection.state(), State::Dispatching(Code::Upload));

    let transmitter = FileTransmitter::new();
    let mut sending = Session::sending(4832);
    let mut packets = Vec::new();
    for _ in 0..10 {
        let mut packet = [0x42u8; PACKET_SIZE];
        assert!(transmitter.frame(&mut sending, &mut packet, 480));
        packets.push(packet);
    }
    let mut packet = [0x42u8; PACKET_SIZE];
    assert!(transmitter.frame(&mut sending, &mut packet, 32));
    packets.push(packet);
    assert_eq!(sending.bytes_transferred(), 4832);
    assert_eq!(packets.len(), 11);

    let (file, session, ending) = get_file(&packets);
    assert_eq!(file.len(), 4832);
    assert_eq!(session.bytes_transferred(), 4832);
    assert_eq!(session.total_size(), 4832);
    assert_eq!(ending, Ending::Complete);

    let replies = connection.finish(Handled::Done);
    assert_eq!(replies, vec![create_okay()]);
    assert_eq!(connection.state(), State::AwaitingCommand);
}

#[test]
fn upload_of_demo_bin_in_full_chunks_is_byte_identical() {
    let content = sample(4832);
    let (packets, _) = FileTransmitter::new().host_file(&content);
    assert_eq!(packets.len(), 10);
    let (file, session, ending) = get_file(&packets);
    assert_eq!(file, content);
    assert_eq!(session.bytes_transferred(), 4832);
    assert_eq!(ending, Ending::Complete);
}

#[test]
fn fifty_interleaved_uploads_do_not_interfere() {
    let contents: Vec<Vec<u8>> =
        (0..50usize).map(|n| (0..(n * 97 + 1)).map(|i| ((i + n) % 256) as u8).collect()).collect();
    let streams: Vec<Vec<[u8; PACKET_SIZE]>> =
        contents.iter().map(|c| FileTransmitter::new().host_file(c).0).collect();
    let receivers: Vec<FileReceiver> = (0..50).map(|_| FileReceiver::new()).collect();
    let mut sessions: Vec<Session> = (0..50).map(|_| Session::receiving()).collect();
    let mut files: Vec<Vec<u8>> = (0..50).map(|_| Vec::new()).collect();
    let mut round = 0;
    let mut open = 50;
    while open > 0 {
        open = 0;
        for n in 0..50 {
            if round < streams[n].len() {
                open += 1;
                let packet = &streams[n][round];
                match receivers[n].receive(&mut sessions[n], packet) {
                    Received::Chunk { len, .. } => {
                        files[n].extend_from_slice(&packet[19..19 + len])
                    },
                    _ => panic!("a data packet is a chunk"),
                }
            }
        }
        round += 1;
    }
    for n in 0..50 {
        assert_eq!(files[n], contents[n]);
        assert!(sessions[n].is_complete());
        assert_eq!(sessions[n].bytes_transferred(), contents[n].len() as u64);
    }
}

#[test]
fn session_samples_each_chunk() {
    let transmitter = FileTransmitter::new();
    let mut session = Session::sending(1000);
    assert_eq!(session.stats().get_size(), 1000);
    assert_eq!(session.stats().get_measures(), vec![(0, 0)]);
    let mut packet = [0u8; PACKET_SIZE];
    assert!(transmitter.frame(&mut session, &mut packet, 493));
    assert!(transmitter.frame(&mut session, &mut packet, 493));
    assert!(transmitter.frame(&mut session, &mut packet, 493));
    assert!(!transmitter.frame(&mut session, &mut packet, 493));
    assert_eq!(session.stats().get_bytes(), 1000);
    let measures = session.stats().get_measures();
    assert_eq!(measures.len(), 4);
    assert_eq!(measures[1].1, 0);
    assert_eq!(measures[2].1, 493);
    assert_eq!(measures[3].1, 986);
    let (bytes, nanos) = session.speed();
    assert!(bytes <= 986);
    assert!(nanos <= measures[3].0);
    assert_eq!(session.bytes_transferred(), 1000);
}

#[test]
fn receiving_session_shows_the_first_total() {
    let receiver = FileReceiver::new();
    let mut session = Session::receiving();
    assert_eq!(session.stats().get_size(), 0);
    receiver.receive(&mut session, &data(0, 600, 1));
    assert_eq!(session.stats().get_size(), 600);
    assert_eq!(session.stats().get_bytes(), 493);
    receiver.receive(&mut session, &data(493, 700, 1));
    assert_eq!(session.stats().get_size(), 600);
    assert_eq!(session.stats().get_bytes(), 493);
    receiver.receive(&mut session, &data(493, 600, 1));
    assert_eq!(session.stats().get_bytes(), 600);
    assert_eq!(session.stats().get_measures().len(), 3);
}

#[test]
fn receipt_tells_where_the_run_stopped() {
    let packets = vec![data(0, 500, 5), data(493, 500, 5), create_okay()];
    let receipt = FileReceiver::new().get_file(&packets);
    assert_eq!(receipt.ending, Ending::Complete);
    assert_eq!(receipt.next, 2);
    let packets = vec![data(0, 1000, 5), create_okay(), data(493, 1000, 5)];
    let receipt = FileReceiver::new().get_file(&packets);
    assert_eq!(receipt.ending, Ending::Stopped(Code::Okay));
    assert_eq!(receipt.next, 1);
    let packets = vec![data(0, 1000, 5), data(493, 7, 5), data(493, 1000, 5)];
    let receipt = FileReceiver::new().get_file(&packets);
    assert_eq!(receipt.ending, Ending::Mismatch);
    assert_eq!(receipt.next, 2);
    let receipt = FileReceiver::new().get_file_from(&packets, 2);
    assert_eq!(receipt.ending, Ending::Starved);
    assert_eq!(receipt.content.len(), 493);
    assert_eq!(receipt.next, 3);
    let receipt = FileReceiver::new().get_file_from(&packets, 9);
    assert_eq!(receipt.ending, Ending::Starved);
    assert!(receipt.content.is_empty());
    assert_eq!(receipt.next, 9);
}
