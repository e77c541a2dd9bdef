use localtransfer::client::client::{Client, ClientError, DataStream, SAVE_FILE_OPERATION};

#[test]
fn client_builds_a_request_header() {
    let path = "/This/is/the/test/folderऐक/File1".as_bytes();
    let header = Client::file_request_header(path, 300).unwrap();
    let mut expected = vec![SAVE_FILE_OPERATION];
    expected.extend_from_slice(&(path.len() as u16).to_be_bytes());
    expected.extend_from_slice(path);
    expected.extend_from_slice(&Client::get_checksum_bytes(path.to_vec()).to_be_bytes());
    expected.extend_from_slice(&300u32.to_be_bytes());
    assert_eq!(header, expected);
    assert_eq!(header.len(), 1 + 2 + path.len() + 4 + 4);
}

#[test]
fn client_refuses_files_over_four_gigabytes() {
    let too_big = u32::MAX as u64 + 1;
    assert_eq!(
        Client::file_request_header(b"/f", too_big),
        Err(ClientError::FileTooLarge { size: too_big })
    );
    assert!(Client::file_request_header(b"/f", u32::MAX as u64).is_ok());
}

#[test]
fn lengths_and_checksums() {
    assert_eq!(Client::get_length_as_u16_bytes(vec![0u8; 258]), [1, 2]);
    assert_eq!(Client::get_length_as_u32_bytes(vec![0u8; 65536 + 3]), [0, 1, 0, 3]);
    // The standard CRC-32 check values.
    assert_eq!(Client::get_checksum_bytes(b"hello world".to_vec()), 0x0d4a_1185);
    assert_eq!(Client::get_checksum_bytes(b"123456789".to_vec()), 0xcbf4_3926);
    assert_eq!(Client::get_checksum_bytes(Vec::new()), 0);
}

#[test]
fn checksum_of_pieces_is_checksum_of_whole() {
    let whole = b"The quick brown fox jumps over the lazy dog".to_vec();
    let mut data = DataStream::new();
    assert_eq!(data.checksum_bytes(), [0, 0, 0, 0]);
    for piece in whole.chunks(5) {
        data.send(piece);
    }
    assert_eq!(data.checksum_bytes(), Client::get_checksum_bytes(whole).to_be_bytes());
    assert_eq!(data.checksum_bytes(), 0x414f_a339u32.to_be_bytes());
}

#[test]
fn client_address() {
    let client = Client::init("10.0.0.139".to_string(), 8888);
    assert_eq!(client.server_address(), "10.0.0.139:8888");
    let _first = localtransfer::client::Client::init("10.0.0.139".to_string(), 8888);
}

#[test]
fn decimal_text() {
    assert_eq!(localtransfer::text::u32_to_decimal(0), "0");
    assert_eq!(localtransfer::text::u32_to_decimal(9), "9");
    assert_eq!(localtransfer::text::u32_to_decimal(10), "10");
    assert_eq!(localtransfer::text::u32_to_decimal(8888), "8888");
    assert_eq!(localtransfer::text::u32_to_decimal(u32::MAX), "4294967295");
}
