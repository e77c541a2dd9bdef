use localtransfer::client::client::Client;
use localtransfer::server::server::{
    after_read, operation_of, parent_folder, piece_after_read, read_checksum, read_index,
    relative_to_root, response_bytes, saved_path, BufferState, FileReceiver, ObservedStream,
    Operation, ReadFromStream, Server, ServerError,
};

const ROOT_SAVING_DIRECTORY: &str = "/Users/vikaspathania/Downloads/Backup";

struct TcpStreamTestStreamNoData {}

impl ReadFromStream for TcpStreamTestStreamNoData {
    fn read_data(&mut self, _buf: &mut Vec<u8>, _valid_read_index: usize) -> Result<usize, std::io::Error> {
        Ok(0)
    }
}

struct TcpStreamTestStreamAllData {}

impl ReadFromStream for TcpStreamTestStreamAllData {
    // This will fill buffer with folder_name and its metadata
    fn read_data(&mut self, buf: &mut Vec<u8>, _valid_read_index: usize) -> Result<usize, std::io::Error> {
        let initial_buf_len = buf.len();
        let folder_name_bytes = get_folder_name().as_bytes().to_vec();
        buf.extend_from_slice(&get_length_as_u16_bytes(folder_name_bytes.clone()));
        buf.extend_from_slice(&folder_name_bytes.clone());
        buf.extend_from_slice(&get_checksum_bytes(folder_name_bytes).to_be_bytes().to_vec());
        Ok(buf.len() - initial_buf_len) // Return no of new bytes added
    }
}

struct TcpStreamTestStreamWriteFolderNameAndChecksum {}

impl ReadFromStream for TcpStreamTestStreamWriteFolderNameAndChecksum {
    fn read_data(&mut self, buf: &mut Vec<u8>, _valid_read_index: usize) -> Result<usize, std::io::Error> {
        let initial_buf_len = buf.len();
        let folder_name_bytes = get_folder_name().as_bytes().to_vec();
        buf.extend_from_slice(&folder_name_bytes);
        buf.extend_from_slice(&get_checksum_bytes(folder_name_bytes).to_be_bytes().to_vec());
        Ok(buf.len() - initial_buf_len)
    }
}

struct TcpStreamTestStreamWriteChecksum {}

impl ReadFromStream for TcpStreamTestStreamWriteChecksum {
    fn read_data(&mut self, buf: &mut Vec<u8>, _valid_read_index: usize) -> Result<usize, std::io::Error> {
        let initial_buf_len = buf.len();
        let folder_name_bytes = get_folder_name().as_bytes().to_vec();
        buf.extend_from_slice(&get_checksum_bytes(folder_name_bytes).to_be_bytes().to_vec());
        Ok(buf.len() - initial_buf_len)
    }
}

// Write |file_data_checksum|
struct TcpStreamTestStreamFileDataChecksum {}

impl ReadFromStream for TcpStreamTestStreamFileDataChecksum {
    fn read_data(&mut self, buf: &mut Vec<u8>, _valid_read_index: usize) -> Result<usize, std::io::Error> {
        let initial_buf_len = buf.len();
        let file_bytes = get_file_data().as_bytes().to_vec();
        buf.extend_from_slice(&get_checksum_bytes(file_bytes).to_be_bytes().to_vec());
        Ok(buf.len() - initial_buf_len) // Return no of new bytes added
    }
}

// Write |file_data|file_data_checksum|
struct TcpStreamTestStreamFileDataAndChecksum {}

impl ReadFromStream for TcpStreamTestStreamFileDataAndChecksum {
    fn read_data(&mut self, buf: &mut Vec<u8>, valid_read_index: usize) -> Result<usize, std::io::Error> {
        let mut bytes_written;
        let file_bytes = get_file_data().as_bytes().to_vec();

        if valid_read_index == 0 {
            buf.resize(file_bytes.len(), 0b00000000u8);
            buf.copy_from_slice(&file_bytes.clone());
            bytes_written = buf.len();
        } else {
            buf.extend_from_slice(&file_bytes.clone());
            bytes_written = file_bytes.len();
        }
        buf.extend_from_slice(&get_checksum_bytes(file_bytes).to_be_bytes().to_vec());
        bytes_written += 4;
        Ok(bytes_written) // Return no of new bytes added
    }
}

// Write |file_data_length|file_data|file_data_checksum|
struct TcpStreamTestStreamFileDataLengthAndFileDataAndChecksum {}

impl ReadFromStream for TcpStreamTestStreamFileDataLengthAndFileDataAndChecksum {
    fn read_data(&mut self, buf: &mut Vec<u8>, _valid_read_index: usize) -> Result<usize, std::io::Error> {
        let initial_buf_len = buf.len();
        let file_bytes = get_file_data().as_bytes().to_vec();
        buf.extend_from_slice(&get_length_as_u32_bytes(file_bytes.clone()));
        buf.extend_from_slice(&file_bytes.clone());
        buf.extend_from_slice(&get_checksum_bytes(file_bytes).to_be_bytes().to_vec());
        Ok(buf.len() - initial_buf_len) // Return no of new bytes added
    }
}

/// A stream that hands out given pieces, one per read, into the buffer at
/// the read index.
struct PieceStream {
    pieces: Vec<Vec<u8>>,
    next: usize,
}

impl ReadFromStream for PieceStream {
    fn read_data(&mut self, buf: &mut Vec<u8>, start_index: usize) -> Result<usize, std::io::Error> {
        if self.next == self.pieces.len() {
            return Ok(0);
        }
        let piece = &self.pieces[self.next];
        let room = buf.len() - start_index;
        let n = piece.len().min(room);
        buf[start_index..start_index + n].copy_from_slice(&piece[..n]);
        if n == piece.len() {
            self.next += 1;
        } else {
            self.pieces[self.next] = piece[n..].to_vec();
        }
        Ok(n)
    }
}

struct FailingStream {}

impl ReadFromStream for FailingStream {
    fn read_data(&mut self, _buf: &mut Vec<u8>, _start_index: usize) -> Result<usize, std::io::Error> {
        Err(std::io::Error::new(std::io::ErrorKind::Other, "broken"))
    }
}

fn get_length_as_u16_bytes(path: Vec<u8>) -> Vec<u8> {
    Client::get_length_as_u16_bytes(path).to_vec()
}

fn get_length_as_u32_bytes(path: Vec<u8>) -> Vec<u8> {
    Client::get_length_as_u32_bytes(path).to_vec()
}

fn get_checksum_bytes(buf: Vec<u8>) -> u32 {
    Client::get_checksum_bytes(buf)
}

fn get_folder_name() -> String {
    "/This/is/the/test/folderऐक".to_string()
}

fn get_file_name() -> String {
    "/This/is/the/test/folderऐक/File1".to_string()
}

fn get_file_data() -> String {
    "होली का त्यौहार बुराई पर अच्छाई की विजय का प्रतीक माना जाता है। इस त्यौहार से सीख लेते हुए हमें भी अपनी बुराइयों को छोड़ते हुए अच्छाई को अपनाना चाहिए। इस त्यौहार से एक और सीख मिलती है कि कभी भी हमें अहंकार नहीं करना चाहिए क्योंकि अहंकार हमारे सोचने समझने की शक्ति को बंद कर देता है।".to_string()
}

/// Decodes a save-file request as the server does, collecting the file data
/// that the server would write.
fn save_file<T: ReadFromStream>(
    socket: T,
    buf: &mut Vec<u8>,
    end_index: usize,
    start_index: usize,
) -> Result<(BufferState, String, Vec<u8>), ServerError> {
    let socket = &mut ObservedStream::new(socket);
    let (state, path) = Server::read_file_path(socket, buf, end_index, start_index)?;
    let mut receiver = FileReceiver::begin(socket, buf, state.end_index, state.start_index)?;
    let mut data = Vec::new();
    while let Some((a, b)) = receiver.next_chunk(socket, buf)? {
        data.extend_from_slice(&buf[a..b]);
    }
    assert!(receiver.is_complete());
    let state = receiver.finish(socket, buf)?;
    Ok((state, saved_path(ROOT_SAVING_DIRECTORY, &path), data))
}

fn file_request(name: &str, data: &[u8]) -> Vec<u8> {
    let mut buf = Client::file_request_header(name.as_bytes(), data.len() as u64).unwrap();
    buf.extend_from_slice(data);
    buf.extend_from_slice(&get_checksum_bytes(data.to_vec()).to_be_bytes());
    buf
}

#[test]
fn test_create_folder_ok_read_data_from_stream() {
    let mut test_stream = TcpStreamTestStreamAllData {};

    let mut buf = vec![0b00000001u8];

    let folder_name_bytes = get_folder_name().as_bytes().to_vec();
    buf.extend_from_slice(&get_length_as_u16_bytes(folder_name_bytes.clone()));
    buf.extend_from_slice(&folder_name_bytes.clone());
    buf.extend_from_slice(&get_checksum_bytes(folder_name_bytes).to_be_bytes().to_vec());

    let number_of_bytes_read = buf.len();

    match Server::read_file_path(&mut ObservedStream::new(test_stream), &mut buf, number_of_bytes_read, 1) {
        Ok((buffer_state, folder_name_created)) => {
            assert_eq!(buffer_state.start_index, number_of_bytes_read);
            assert_eq!(buffer_state.end_index, number_of_bytes_read);
            let complete = saved_path(ROOT_SAVING_DIRECTORY, &folder_name_created);
            assert_eq!(&complete[ROOT_SAVING_DIRECTORY.len()..], get_folder_name());
        }
        Err(e) => panic!("{:?}", e),
    }
}

#[test]
fn test_create_folder_ok_no_read_from_stream() {
    let mut test_stream = TcpStreamTestStreamAllData {};

    let mut buf = vec![0b00000001u8];
    let number_of_bytes_read = buf.len();
    match Server::read_file_path(&mut ObservedStream::new(test_stream), &mut buf, number_of_bytes_read, 1) {
        Ok((buffer_state, folder_name_created)) => {
            assert_eq!(buffer_state.start_index, buf.len());
            assert_eq!(buffer_state.end_index, buf.len());
            let complete = saved_path(ROOT_SAVING_DIRECTORY, &folder_name_created);
            assert_eq!(&complete[ROOT_SAVING_DIRECTORY.len()..], get_folder_name());
        }
        Err(e) => panic!("{:?}", e),
    }
}

#[test]
fn test_create_folder_ok_read_folder_name_and_checksum_from_stream() {
    let mut test_stream = TcpStreamTestStreamWriteFolderNameAndChecksum {};

    let mut buf = vec![0b00000001u8];
    let folder_name_bytes = get_folder_name().as_bytes().to_vec();
    buf.extend_from_slice(&get_length_as_u16_bytes(folder_name_bytes.clone()));

    let number_of_bytes_read = buf.len();
    match Server::read_file_path(&mut ObservedStream::new(test_stream), &mut buf, number_of_bytes_read, 1) {
        Ok((buffer_state, folder_name_created)) => {
            assert_eq!(buffer_state.start_index, buf.len());
            assert_eq!(buffer_state.end_index, buf.len());
            let complete = saved_path(ROOT_SAVING_DIRECTORY, &folder_name_created);
            assert_eq!(&complete[ROOT_SAVING_DIRECTORY.len()..], get_folder_name());
        }
        Err(e) => panic!("{:?}", e),
    }
}

#[test]
fn test_create_folder_ok_read_checksum_from_stream() {
    let mut test_stream = TcpStreamTestStreamWriteChecksum {};

    let mut buf = vec![0b00000001u8];
    let folder_name_bytes = get_folder_name().as_bytes().to_vec();
    buf.extend_from_slice(&get_length_as_u16_bytes(folder_name_bytes.clone()));
    buf.extend_from_slice(&folder_name_bytes.clone());

    let number_of_bytes_read = buf.len();
    match Server::read_file_path(&mut ObservedStream::new(test_stream), &mut buf, number_of_bytes_read, 1) {
        Ok((buffer_state, folder_name_created)) => {
            assert_eq!(buffer_state.start_index, buf.len());
            assert_eq!(buffer_state.end_index, buf.len());
            let complete = saved_path(ROOT_SAVING_DIRECTORY, &folder_name_created);
            assert_eq!(&complete[ROOT_SAVING_DIRECTORY.len()..], get_folder_name());
        }
        Err(e) => panic!("{:?}", e),
    }
}

#[test]
fn test_create_folder_erro_read_stream() {
    let mut test_stream = TcpStreamTestStreamNoData {};

    let mut buf = vec![0b00000001u8];
    let number_of_bytes_read = buf.len();
    match Server::read_file_path(&mut ObservedStream::new(test_stream), &mut buf, number_of_bytes_read, 1) {
        Ok(_) => panic!("no data was sent"),
        Err(e) => assert!(matches!(e, ServerError::MissingPathLength)),
    }
}

#[test]
fn test_save_file_whole_frame_happy() {
    let mut test_stream = TcpStreamTestStreamNoData {};
    let mut buf = vec![0b00000010u8];

    // Add |file_name_length_bytes|file_name|checksum|
    let file_name_bytes = get_file_name().as_bytes().to_vec();
    buf.extend_from_slice(&get_length_as_u16_bytes(file_name_bytes.clone()));
    buf.extend_from_slice(&file_name_bytes.clone());
    buf.extend_from_slice(&get_checksum_bytes(file_name_bytes.clone()).to_be_bytes().to_vec());

    // Add |file_data_bytes_length|file_data|checksum|
    let file_data = get_file_data().as_bytes().to_vec();
    buf.extend_from_slice(&get_length_as_u32_bytes(file_data.clone()));
    buf.extend_from_slice(&file_data.clone());
    buf.extend_from_slice(&get_checksum_bytes(file_data.clone()).to_be_bytes().to_vec());

    let number_of_bytes_read = buf.len();
    match save_file(test_stream, &mut buf, number_of_bytes_read, 1) {
        Ok((buffer_state, file_path, data)) => {
            assert_eq!(buffer_state.start_index, buf.len());
            assert_eq!(buffer_state.end_index, buf.len());
            assert_eq!(&file_path[ROOT_SAVING_DIRECTORY.len()..], get_file_name());
            assert_eq!(data, file_data);
        }
        Err(e) => panic!("Error while saving file {:?}", e),
    }
}

/// Tests the case where the buffer doesn't hold the file checksum, and
/// save_file has to read it from the stream.
#[test]
fn test_save_file_read_from_stream_checksum() {
    let mut test_stream = TcpStreamTestStreamFileDataChecksum {};
    let mut buf = vec![0b00000010u8];

    let file_name_bytes = get_file_name().as_bytes().to_vec();
    buf.extend_from_slice(&get_length_as_u16_bytes(file_name_bytes.clone()));
    buf.extend_from_slice(&file_name_bytes.clone());
    buf.extend_from_slice(&get_checksum_bytes(file_name_bytes.clone()).to_be_bytes().to_vec());

    let file_data = get_file_data().as_bytes().to_vec();
    buf.extend_from_slice(&get_length_as_u32_bytes(file_data.clone()));
    buf.extend_from_slice(&file_data.clone());

    let number_of_bytes_read = buf.len();

    match save_file(test_stream, &mut buf, number_of_bytes_read, 1) {
        Ok((buffer_state, file_path, data)) => {
            assert_eq!(buffer_state.start_index, buf.len());
            assert_eq!(buffer_state.end_index, buf.len());
            assert_eq!(&file_path[ROOT_SAVING_DIRECTORY.len()..], get_file_name());
            assert_eq!(data, file_data);
        }
        Err(e) => panic!("Error while saving file {:?}", e),
    }
}

/// Tests the case where the buffer doesn't hold the file data, and
/// save_file has to read it from the stream.
#[test]
fn test_save_file_read_from_stream_file_data_and_checksum() {
    let mut test_stream = TcpStreamTestStreamFileDataAndChecksum {};
    let mut buf = vec![0b00000010u8];

    let file_name_bytes = get_file_name().as_bytes().to_vec();
    buf.extend_from_slice(&get_length_as_u16_bytes(file_name_bytes.clone()));
    buf.extend_from_slice(&file_name_bytes.clone());
    buf.extend_from_slice(&get_checksum_bytes(file_name_bytes.clone()).to_be_bytes().to_vec());

    let file_data = get_file_data().as_bytes().to_vec();
    buf.extend_from_slice(&get_length_as_u32_bytes(file_data.clone()));

    let number_of_bytes_read = buf.len();

    match save_file(test_stream, &mut buf, number_of_bytes_read, 1) {
        Ok((buffer_state, file_path, data)) => {
            assert_eq!(buffer_state.start_index, buf.len());
            assert_eq!(buffer_state.end_index, buf.len());
            assert_eq!(&file_path[ROOT_SAVING_DIRECTORY.len()..], get_file_name());
            assert_eq!(data, file_data);
        }
        Err(e) => panic!("Error while saving file {:?}", e),
    }
}

/// Tests the case where the buffer holds only the path, and save_file has
/// to read the data length, data and checksum from the stream.
#[test]
fn test_save_file_read_from_stream_file_length_and_file_data_and_checksum() {
    let mut test_stream = TcpStreamTestStreamFileDataLengthAndFileDataAndChecksum {};
    let mut buf = vec![0b00000010u8];

    let file_name_bytes = get_file_name().as_bytes().to_vec();
    buf.extend_from_slice(&get_length_as_u16_bytes(file_name_bytes.clone()));
    buf.extend_from_slice(&file_name_bytes.clone());
    buf.extend_from_slice(&get_checksum_bytes(file_name_bytes.clone()).to_be_bytes().to_vec());

    let number_of_bytes_read = buf.len();

    match save_file(test_stream, &mut buf, number_of_bytes_read, 1) {
        Ok((buffer_state, file_path, data)) => {
            assert_eq!(buffer_state.start_index, buf.len());
            assert_eq!(buffer_state.end_index, buf.len());
            assert_eq!(&file_path[ROOT_SAVING_DIRECTORY.len()..], get_file_name());
            assert_eq!(data, get_file_data().as_bytes().to_vec());
        }
        Err(e) => panic!("Error while saving file {:?}", e),
    }
}

#[test]
fn save_file_through_a_fixed_buffer_in_small_reads() {
    // A 64-byte buffer that the stream fills four bytes at a time: the data
    // arrives over several reads and the buffer wraps around to its start.
    let data: Vec<u8> = (0..57u8).collect();
    let request = file_request("/a/b", &data);
    let header_len = 1 + 2 + 4 + 4 + 4;
    let mut buf = vec![0u8; 64];
    buf[..header_len].copy_from_slice(&request[..header_len]);
    let mut pieces: Vec<Vec<u8>> = data.chunks(4).map(|c| c.to_vec()).collect();
    pieces.push(request[request.len() - 4..].to_vec());
    let mut stream = PieceStream { pieces, next: 0 };
    let (state, path, received) = save_file(stream, &mut buf, header_len, 1).unwrap();
    assert_eq!(path, format!("{}/a/b", ROOT_SAVING_DIRECTORY));
    assert_eq!(received, data);
    assert_eq!(state.start_index, state.end_index);
}

#[test]
fn save_file_rejects_a_wrong_data_checksum() {
    let data = b"some bytes".to_vec();
    let mut request = file_request("/f", &data);
    let last = request.len() - 1;
    request[last] ^= 1;
    let n = request.len();
    let expected = get_checksum_bytes(data.clone());
    match save_file(TcpStreamTestStreamNoData {}, &mut request, n, 1) {
        Err(ServerError::FileChecksumMismatch { expected: e, received: r }) => {
            assert_eq!(e, expected);
            assert_eq!(r, expected ^ 1);
        }
        other => panic!("unexpected {:?}", other.map(|(s, p, _)| (s, p))),
    }
}

#[test]
fn save_file_reports_missing_data() {
    let data = b"0123456789".to_vec();
    let request = file_request("/f", &data);
    let mut buf = request[..request.len() - 8].to_vec();
    let n = buf.len();
    match save_file(TcpStreamTestStreamNoData {}, &mut buf, n, 1) {
        Err(ServerError::MissingFileData { read: 0 }) => {}
        other => panic!("unexpected {:?}", other.map(|(s, p, _)| (s, p))),
    }
}

#[test]
fn save_file_takes_a_final_piece_after_other_bytes() {
    // The last data piece arrives together with the checksum while the
    // buffer still has room after earlier bytes: the rest of the data is
    // taken from it and the checksum read after it.
    let data: Vec<u8> = (0..20u8).collect();
    let request = file_request("/f", &data);
    let header_len = 1 + 2 + 2 + 4 + 4;
    let mut buf = vec![0u8; 200];
    buf[..header_len + 5].copy_from_slice(&request[..header_len + 5]);
    let mut stream = PieceStream { pieces: vec![request[header_len + 5..].to_vec()], next: 0 };
    match save_file(stream, &mut buf, header_len + 5, 1) {
        Ok((state, path, received)) => {
            assert_eq!(received, data);
            assert_eq!(path, format!("{}/f", ROOT_SAVING_DIRECTORY));
            assert_eq!(state.start_index, header_len + 20 + 4);
            assert_eq!(state.end_index, header_len + 20 + 4);
        }
        other => panic!("unexpected {:?}", other.map(|(s, p, _)| (s, p))),
    }
}

#[test]
fn path_errors() {
    // Not UTF-8.
    let mut buf = vec![1u8, 0, 2, 0xff, 0xfe, 0, 0, 0, 0];
    let n = buf.len();
    assert!(matches!(
        Server::read_file_path(&mut ObservedStream::new(TcpStreamTestStreamNoData {}), &mut buf, n, 1),
        Err(ServerError::InvalidPathUtf8)
    ));
    // Wrong checksum.
    let name = b"/x".to_vec();
    let mut buf = vec![1u8, 0, 2, b'/', b'x', 0, 0, 0, 0];
    let n = buf.len();
    let expected = get_checksum_bytes(name);
    match Server::read_file_path(&mut ObservedStream::new(TcpStreamTestStreamNoData {}), &mut buf, n, 1) {
        Err(ServerError::PathChecksumMismatch { received, expected: e }) => {
            assert_eq!(received, 0);
            assert_eq!(e, expected);
        }
        other => panic!("unexpected {:?}", other),
    }
    // The stream ends inside the path.
    let mut buf = vec![1u8, 0, 5, b'/'];
    let n = buf.len();
    assert!(matches!(
        Server::read_file_path(&mut ObservedStream::new(TcpStreamTestStreamNoData {}), &mut buf, n, 1),
        Err(ServerError::MissingPath { read: 1 })
    ));
    // The stream ends inside the checksum.
    let mut buf = vec![1u8, 0, 1, b'/', 1, 2];
    let n = buf.len();
    assert!(matches!(
        Server::read_file_path(&mut ObservedStream::new(TcpStreamTestStreamNoData {}), &mut buf, n, 1),
        Err(ServerError::MissingChecksum { read: 2 })
    ));
    // The stream fails.
    let mut buf = vec![1u8];
    assert!(matches!(
        Server::read_file_path(&mut ObservedStream::new(FailingStream {}), &mut buf, 1, 1),
        Err(ServerError::StreamRead(_))
    ));
    // The stream ends before the data length.
    let mut buf = vec![2u8, 0, 0, 0, 0, 0, 0, 0];
    let n = buf.len();
    assert!(matches!(
        FileReceiver::begin(&mut ObservedStream::new(TcpStreamTestStreamNoData {}), &mut buf, n, 7),
        Err(ServerError::MissingFileLength)
    ));
}

#[test]
fn read_checksum_takes_four_bytes() {
    let mut buf = vec![9u8, 0x12, 0x34, 0x56, 0x78, 7];
    let mut end = buf.len();
    let mut start = 1;
    let c = read_checksum(&mut end, &mut start, &mut ObservedStream::new(TcpStreamTestStreamNoData {}), &mut buf).unwrap();
    assert_eq!(c, 0x1234_5678);
    assert_eq!(start, 5);
    assert_eq!(end, 6);
}

#[test]
fn server_operations_and_responses() {
    assert_eq!(operation_of(1), Some(Operation::CreateParentFolder));
    assert_eq!(operation_of(2), Some(Operation::SaveFile));
    assert_eq!(operation_of(3), None);
    assert_eq!(response_bytes(true), 1u16.to_be_bytes());
    assert_eq!(response_bytes(false), (-1i16).to_be_bytes());
    assert_eq!(relative_to_root("/a/b"), "a/b");
    assert_eq!(relative_to_root("a/b"), "a/b");
    assert_eq!(relative_to_root("//a"), "a");
    assert_eq!(relative_to_root("///"), "");
    assert_eq!(relative_to_root(""), "");
    let server = Server::init("10.0.0.129".to_string(), 9999);
    assert_eq!(server.server_address(), "10.0.0.129:9999");
}

#[test]
fn read_steps() {
    // Too few bytes: read at the end of what is there.
    assert_eq!(read_index(1, 2, 2), Some(2));
    assert_eq!(read_index(1, 3, 2), None);
    assert_eq!(read_index(4, 4, 0), None);
    // A read that gives bytes moves the end; one that gives none ends it.
    assert_eq!(after_read(1, 2, 5), Ok(7));
    assert_eq!(after_read(1, 2, 0), Err(1));
}

#[test]
fn data_piece_steps() {
    assert!(matches!(
        piece_after_read(10, 10, 0, 5),
        Err(ServerError::MissingFileData { read: 0 })
    ));
    // More than the rest of the data arrived: only the rest is data.
    assert!(matches!(piece_after_read(10, 10, 9, 5), Ok((10, 15))));
    // Exactly the rest, or less.
    assert!(matches!(piece_after_read(10, 10, 5, 5), Ok((10, 15))));
    assert!(matches!(piece_after_read(0, 0, 3, 5), Ok((0, 3))));
}

#[test]
fn saved_paths_and_parent_folders() {
    let root = ROOT_SAVING_DIRECTORY;
    assert_eq!(saved_path(root, "/a/b/c.txt"), format!("{}/a/b/c.txt", root));
    assert_eq!(saved_path(root, "a"), format!("{}/a", root));
    // Leading slashes never replace the root.
    assert_eq!(saved_path(root, "//etc/x"), format!("{}/etc/x", root));
    assert_eq!(parent_folder("/r/a/b/c.txt"), "/r/a/b");
    assert_eq!(parent_folder("/r/a/b/"), "/r/a");
    assert_eq!(parent_folder("/r/a//b"), "/r/a");
    assert_eq!(parent_folder("/a"), "/");
    assert_eq!(parent_folder("a"), "");
    let saved = saved_path(root, "/This/is/the/test/folderऐक/File1");
    assert_eq!(parent_folder(&saved), format!("{}/This/is/the/test/folderऐक", root));
}
