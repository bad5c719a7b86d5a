use tftp::{pack_ack, pack_data, request_filename, Agent, Packet, Received, RwMod, TftpError};

fn octet_request(opcode: u8, name: &str) -> Vec<u8> {
    let mut v = vec![0, opcode];
    v.extend_from_slice(name.as_bytes());
    v.push(0);
    v.extend_from_slice(b"octet");
    v.push(0);
    v
}

#[test]
fn client_test() {
    assert!(Agent::client(RwMod::Read, "/tmp/test").is_ok());
}

#[test]
fn client_read_setup() {
    let a = Agent::client(RwMod::Read, "/tmp/test").unwrap();
    assert_eq!(a.packlen, 512);
    assert_eq!(a.failed_tryes_count, 0);
    assert_eq!(a.rw_mod, RwMod::Read);
    assert_eq!(a.packet, octet_request(1, "/tmp/test"));
    assert_eq!(a.response, vec![0, 4, 0, 1]);
}

#[test]
fn client_write_setup() {
    let a = Agent::client(RwMod::Write, "x").unwrap();
    assert_eq!(a.rw_mod, RwMod::Write);
    assert_eq!(a.packet, octet_request(1, "x"));
    assert_eq!(a.response, pack_data(1, 512));
    assert_eq!(a.response.len(), 512);
}

#[test]
fn client_without_mode_is_refused() {
    assert!(matches!(
        Agent::client(RwMod::Neither, "x"),
        Err(TftpError::InvalidData)
    ));
}

#[test]
fn filename_stops_at_zero() {
    assert_eq!(request_filename(&octet_request(1, "dir/file.bin")), "dir/file.bin");
    assert_eq!(request_filename(&vec![0, 1]), "");
    assert_eq!(request_filename(&vec![0, 1, b'a', b'b']), "ab");
    assert_eq!(request_filename(&vec![0, 1, 0, b'a']), "");
}

#[test]
fn filename_reads_each_byte_as_a_char() {
    assert_eq!(request_filename(&vec![0, 1, 0xe9, 0]), "\u{e9}");
}

#[test]
fn server_on_opcode_one_writes() {
    let mut p = octet_request(1, "up.txt");
    let (a, m, name) = Agent::server(&mut p).unwrap();
    assert_eq!(m, RwMod::Write);
    assert_eq!(a.rw_mod, RwMod::Write);
    assert_eq!(name, "up.txt");
    assert_eq!(p.len(), 516);
    assert_eq!(a.packet, Vec::<u8>::new());
    assert_eq!(a.response, p);
    assert_eq!(a.packlen, 512);
    assert_eq!(a.failed_tryes_count, 0);
}

#[test]
fn server_on_opcode_two_reads() {
    let mut p = octet_request(2, "down.txt");
    let before = p.clone();
    let (a, m, name) = Agent::server(&mut p).unwrap();
    assert_eq!(m, RwMod::Read);
    assert_eq!(name, "down.txt");
    assert_eq!(&p[..before.len()], &before[..]);
    assert!(p[before.len()..].iter().all(|b| *b == 0));
    assert_eq!(a.packet, p);
    assert_eq!(a.response, Vec::<u8>::new());
}

#[test]
fn server_refuses_other_opcodes() {
    let mut p = octet_request(3, "x");
    assert!(matches!(Agent::server(&mut p), Err(TftpError::InvalidMode)));
    assert_eq!(p.len(), 516);
}

#[test]
fn server_cuts_long_request() {
    let mut p = vec![0, 2];
    p.extend(std::iter::repeat(b'a').take(600));
    let (_, _, name) = Agent::server(&mut p).unwrap();
    assert_eq!(name.len(), 600);
    assert_eq!(p.len(), 516);
}

#[test]
fn fifth_failure_gives_up() {
    let mut a = Agent::client(RwMod::Read, "f").unwrap();
    for _ in 0..4 {
        assert!(!a.recv_failed());
    }
    assert!(a.recv_failed());
    assert_eq!(a.failed_tryes_count, 5);
}

fn downloader() -> Agent {
    let mut a = Agent::client(RwMod::Read, "f").unwrap();
    a.response = vec![0; 516];
    a.download_begin();
    a
}

#[test]
fn download_starts_with_ack_zero() {
    let a = downloader();
    assert_eq!(a.packet, vec![0, 4, 0, 0]);
}

#[test]
fn download_accepts_next_block() {
    let mut a = downloader();
    a.response[..7].copy_from_slice(&[0, 3, 0, 1, 7, 8, 9]);
    let r = a.download_received(7).unwrap();
    assert_eq!(r, Received::Expected);
    assert_eq!(a.response, vec![0, 3, 0, 1, 7, 8, 9]);
    assert_eq!(a.failed_tryes_count, 0);
    a.pack_data_store(3).unwrap();
    assert_eq!(a.response, vec![0, 3, 0, 1, 7, 8, 9]);
    assert!(a.download_stored(7));
    assert_eq!(a.packet, vec![0, 4, 0, 1]);
}

#[test]
fn download_full_block_is_not_last() {
    let mut a = downloader();
    a.response = pack_data(1, 516);
    assert_eq!(a.download_received(516).unwrap(), Received::Expected);
    assert!(!a.download_stored(516));
    assert_eq!(a.packet.block(), 1);
    assert!(a.download_stored(515));
    assert_eq!(a.packet.block(), 2);
}

#[test]
fn download_error_packet() {
    let mut a = downloader();
    a.response[..6].copy_from_slice(&[0, 5, 0, 1, b'x', 0]);
    assert!(matches!(a.download_received(6), Err(TftpError::InvalidData)));
    assert_eq!(a.response.len(), 6);
    assert_eq!(a.failed_tryes_count, 0);
}

#[test]
fn download_stale_blocks_run_out() {
    let mut a = downloader();
    for i in 1..5u16 {
        a.response = pack_data(0, 516);
        assert_eq!(a.download_received(516).unwrap(), Received::Stale);
        assert_eq!(a.failed_tryes_count, i);
    }
    a.response = pack_data(0, 516);
    assert!(matches!(a.download_received(516), Err(TftpError::TooManyFailTryes)));
    assert_eq!(a.failed_tryes_count, 5);
}

#[test]
fn download_stale_after_giving_up_continues() {
    let mut a = downloader();
    for _ in 0..5 {
        a.recv_failed();
    }
    a.response = pack_data(7, 516);
    assert_eq!(a.download_received(516).unwrap(), Received::Stale);
    assert_eq!(a.failed_tryes_count, 6);
}

#[test]
fn pack_write_test_store_keeps_written_bytes() {
    let mut a = Agent::client(RwMod::Read, "/tmp/test").unwrap();
    a.response = vec![0, 0, 0, 0, 72, 69, 76, 76, 79];
    a.pack_data_store(5).unwrap();
    assert_eq!(&a.response[4..], &[72, 69, 76, 76, 79]);
    a.pack_data_store(2).unwrap();
    assert_eq!(a.response, vec![0, 0, 0, 0, 72, 69]);
}

#[test]
fn store_needs_a_header() {
    let mut a = Agent::client(RwMod::Read, "f").unwrap();
    a.response = vec![0, 3, 0];
    assert!(matches!(a.pack_data_store(0), Err(TftpError::PackError)));
    assert_eq!(a.response, vec![0, 3, 0]);
}

#[test]
fn read_fills_and_cuts_packet() {
    let mut a = Agent::client(RwMod::Write, "f").unwrap();
    a.upload_begin();
    assert_eq!(a.packet, pack_data(1, 516));
    a.pack_data_read(b"hello").unwrap();
    assert_eq!(a.packet, vec![0, 3, 0, 1, b'h', b'e', b'l', b'l', b'o']);
    assert!(a.upload_sent());
}

#[test]
fn read_needs_room() {
    let mut a = Agent::client(RwMod::Write, "f").unwrap();
    a.packet = vec![0, 3];
    assert!(matches!(a.pack_data_read(&[]), Err(TftpError::PackError)));
    assert_eq!(a.packet, vec![0, 3]);
}

#[test]
fn upload_full_packet_is_not_last() {
    let mut a = Agent::client(RwMod::Write, "f").unwrap();
    a.packet = pack_data(1, 516);
    assert!(!a.upload_sent());
    a.packet = pack_data(1, 515);
    assert!(a.upload_sent());
    a.packet = vec![0, 3];
    assert!(a.upload_sent());
}

#[test]
fn upload_ack_moves_on() {
    let mut a = Agent::client(RwMod::Write, "f").unwrap();
    a.packet = pack_data(1, 516);
    a.response = pack_ack(1);
    assert_eq!(a.upload_acked().unwrap(), Received::Expected);
    assert_eq!(a.packet.block(), 2);
    assert_eq!(a.packet.len(), 516);
    assert_eq!(a.failed_tryes_count, 0);
}

#[test]
fn upload_stale_ack() {
    let mut a = Agent::client(RwMod::Write, "f").unwrap();
    a.packet = pack_data(3, 516);
    a.response = pack_ack(2);
    assert_eq!(a.upload_acked().unwrap(), Received::Stale);
    assert_eq!(a.packet.block(), 3);
    assert_eq!(a.failed_tryes_count, 1);
}

#[test]
fn upload_error_packet() {
    let mut a = Agent::client(RwMod::Write, "f").unwrap();
    a.packet = pack_data(3, 516);
    a.response = vec![0, 5, 0, 3];
    assert!(matches!(a.upload_acked(), Err(TftpError::InvalidData)));
    assert_eq!(a.packet.block(), 3);
}

#[test]
fn upload_stale_acks_run_out() {
    let mut a = Agent::client(RwMod::Write, "f").unwrap();
    a.packet = pack_data(3, 516);
    a.response = pack_ack(9);
    for _ in 0..4 {
        assert_eq!(a.upload_acked().unwrap(), Received::Stale);
    }
    assert!(matches!(a.upload_acked(), Err(TftpError::TooManyFailTryes)));
}

#[test]
fn server_reads_back_client_filename() {
    let a = Agent::client(RwMod::Read, "notes/abc.txt").unwrap();
    assert_eq!(request_filename(&a.packet), "notes/abc.txt");
    assert_eq!(request_filename(&tftp::pack_write("w.bin", "octet")), "w.bin");
}

#[test]
fn non_ascii_filename_is_read_byte_by_byte() {
    assert_eq!(request_filename(&tftp::pack_read("é", "octet")), "\u{c3}\u{a9}");
}

#[test]
fn client_request_opens_a_write_on_the_server() {
    let a = Agent::client(RwMod::Read, "f").unwrap();
    let mut p = a.packet.clone();
    let (_, m, name) = Agent::server(&mut p).unwrap();
    assert_eq!(m, RwMod::Write);
    assert_eq!(name, "f");
}

#[test]
fn ack_of_stored_block_is_expected_by_uploader() {
    let mut up = Agent::client(RwMod::Write, "f").unwrap();
    up.upload_begin();
    up.pack_data_read(b"abc").unwrap();

    let mut down = downloader();
    down.response[..up.packet.len()].copy_from_slice(&up.packet);
    let size = up.packet.len();
    assert_eq!(down.download_received(size).unwrap(), Received::Expected);
    down.pack_data_store(3).unwrap();
    assert_eq!(&down.response[4..], b"abc");
    assert!(down.download_stored(size));

    up.response = down.packet.clone();
    assert_eq!(up.upload_acked().unwrap(), Received::Expected);
    assert_eq!(up.packet.block(), 2);
}

#[test]
fn download_error_packet_on_last_block_number() {
    let mut a = downloader();
    a.packet = pack_ack(0xffff);
    a.response[..4].copy_from_slice(&[0, 5, 0, 2]);
    assert!(matches!(a.download_received(4), Err(TftpError::InvalidData)));
}

#[test]
fn upload_full_chunk_is_not_last() {
    let mut a = Agent::client(RwMod::Write, "f").unwrap();
    a.upload_begin();
    assert_eq!(a.packet.len(), 516);
    a.pack_data_read(&[7u8; 512]).unwrap();
    assert!(!a.upload_sent());
    a.response = pack_ack(1);
    assert_eq!(a.upload_acked().unwrap(), Received::Expected);
    a.pack_data_read(&[9u8; 100]).unwrap();
    assert_eq!(a.packet.len(), 104);
    assert_eq!(a.packet.block(), 2);
    assert!(a.upload_sent());
}

#[test]
fn failure_count_never_goes_down() {
    let mut a = downloader();
    let mut last = a.failed_tryes_count;
    a.recv_failed();
    assert!(a.failed_tryes_count >= last);
    last = a.failed_tryes_count;
    a.response = pack_data(0, 516);
    let _ = a.download_received(516);
    assert!(a.failed_tryes_count >= last);
    last = a.failed_tryes_count;
    a.response = pack_data(1, 516);
    assert_eq!(a.download_received(516).unwrap(), Received::Expected);
    a.pack_data_store(512).unwrap();
    a.download_stored(516);
    assert_eq!(a.failed_tryes_count, last);
    assert_eq!(last, 2);
}

#[test]
fn writepack_round_trip() {
    let payload = b"hello word";
    let mut up = Agent::client(RwMod::Write, "/tmp/test").unwrap();
    up.upload_begin();
    up.pack_data_read(payload).unwrap();

    let mut down = Agent::client(RwMod::Read, "/tmp/test").unwrap();
    down.response = up.packet.clone();
    let stored = down.data_to_store().unwrap();
    assert_eq!(stored, payload.to_vec());
    down.pack_data_store(stored.len()).unwrap();
    assert_eq!(&down.response[4..], payload);
}

#[test]
fn data_to_store_needs_a_header() {
    let mut a = Agent::client(RwMod::Read, "f").unwrap();
    a.response = vec![0, 3, 0];
    assert!(matches!(a.data_to_store(), Err(TftpError::PackError)));
    a.response = vec![0, 3, 0, 1];
    assert_eq!(a.data_to_store().unwrap(), Vec::<u8>::new());
}

#[test]
fn read_replaces_earlier_data() {
    let mut a = Agent::client(RwMod::Write, "f").unwrap();
    a.packet = vec![0, 3, 0, 2, 1, 2, 3, 4, 5];
    a.pack_data_read(&[9, 9]).unwrap();
    assert_eq!(a.packet, vec![0, 3, 0, 2, 9, 9]);
}

#[test]
fn stale_packets_at_full_count_still_answer_other_packets() {
    let mut a = downloader();
    a.failed_tryes_count = u16::MAX;
    a.response = pack_data(1, 516);
    assert_eq!(a.download_received(516).unwrap(), Received::Expected);
    assert_eq!(a.failed_tryes_count, u16::MAX);
}
