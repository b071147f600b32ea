use poem_wasmhandler::error::WasmHandlerError;
use poem_wasmhandler::ffi::{ERRNO_OK, ERRNO_WOULD_BLOCK};
use poem_wasmhandler::host::{read_request, read_request_body, write_response_body};
use poem_wasmhandler::poll::{resolve, Completion};
use poem_wasmhandler::response::send_response;
use poem_wasmhandler::state::{EndpointState, REQUEST_BODY_CHUNK, RESPONSE_BODY_CAPACITY};

fn state_for(request: &str) -> EndpointState {
    EndpointState::new(request.to_string()).unwrap()
}

fn arrive(state: &mut EndpointState, data: &[u8]) {
    let completion = Completion::RequestRead { userdata: 0, read: Some(data.to_vec()) };
    resolve(state, &completion);
}

fn fill_outbound(state: &mut EndpointState, count: usize) {
    let mut memory = vec![0x5au8; count + 4];
    let result = write_response_body(&mut memory, state, 0, count as u32, count as u32);
    assert_eq!(result, Ok(ERRNO_OK));
    assert_eq!(state.outbound_len(), count);
}

#[test]
fn new_state_is_empty() {
    let state = state_for("GET / HTTP/1.1\r\n\r\n");
    assert_eq!(state.request_bytes(), b"GET / HTTP/1.1\r\n\r\n");
    assert_eq!(state.inbound_len(), 0);
    assert_eq!(state.outbound_len(), 0);
    assert!(state.inbound_bytes().is_empty());
    assert!(state.outbound_bytes().is_empty());
    assert!(!state.is_inbound_eof());
    assert!(!state.is_response_announced());
    assert_eq!(RESPONSE_BODY_CAPACITY, 4096);
    assert_eq!(REQUEST_BODY_CHUNK, 4096);
}

#[test]
fn read_request_with_short_buffer_reports_length_only() {
    let text = "GET / HTTP/1.1\r\n\r\n";
    let state = state_for(text);
    let mut memory = vec![0xeeu8; 64];
    assert_eq!(read_request(&mut memory, &state, 0, 10, 40), Ok(()));
    let mut expected = vec![0xeeu8; 64];
    expected[40..44].copy_from_slice(&(text.len() as u32).to_le_bytes());
    assert_eq!(memory, expected);
}

#[test]
fn read_request_retry_with_exact_buffer_copies_all() {
    let text = "GET / HTTP/1.1\r\n\r\n";
    let state = state_for(text);
    let mut memory = vec![0xeeu8; 64];
    assert_eq!(read_request(&mut memory, &state, 0, 10, 40), Ok(()));
    let reported = u32::from_le_bytes([memory[40], memory[41], memory[42], memory[43]]);
    assert_eq!(reported as usize, text.len());
    assert_eq!(read_request(&mut memory, &state, 0, reported, 40), Ok(()));
    assert_eq!(&memory[..text.len()], text.as_bytes());
    assert_eq!(&memory[text.len()..40], &vec![0xeeu8; 40 - text.len()][..]);
    assert_eq!(&memory[40..44], &(text.len() as u32).to_le_bytes());
}

#[test]
fn read_request_of_nineteen_bytes() {
    let text = "GET /x HTTP/1.1\r\n\r\n";
    assert_eq!(text.len(), 19);
    let state = state_for(text);
    let mut memory = vec![0u8; 64];
    assert_eq!(read_request(&mut memory, &state, 4, 10, 60), Ok(()));
    assert_eq!(&memory[60..64], &[19, 0, 0, 0]);
    assert_eq!(&memory[..60], &vec![0u8; 60][..]);
    assert_eq!(read_request(&mut memory, &state, 4, 19, 60), Ok(()));
    assert_eq!(&memory[60..64], &[19, 0, 0, 0]);
    assert_eq!(&memory[4..23], text.as_bytes());
    assert_eq!(&memory[..4], &[0, 0, 0, 0]);
    assert_eq!(&memory[23..60], &vec![0u8; 37][..]);
}

#[test]
fn read_request_with_larger_buffer_copies_text_only() {
    let state = state_for("abc");
    let mut memory = vec![7u8; 16];
    assert_eq!(read_request(&mut memory, &state, 1, 8, 12), Ok(()));
    assert_eq!(memory, vec![7, b'a', b'b', b'c', 7, 7, 7, 7, 7, 7, 7, 7, 3, 0, 0, 0]);
}

#[test]
fn read_request_fails_on_bad_length_place() {
    let state = state_for("abc");
    let mut memory = vec![7u8; 16];
    assert_eq!(read_request(&mut memory, &state, 0, 8, 13), Err(WasmHandlerError::MemoryAccess));
    assert_eq!(memory, vec![7u8; 16]);
    assert_eq!(read_request(&mut memory, &state, 0, 1, 13), Err(WasmHandlerError::MemoryAccess));
    assert_eq!(memory, vec![7u8; 16]);
}

#[test]
fn read_request_fails_on_bad_buffer_place() {
    let state = state_for("abc");
    let mut memory = vec![7u8; 16];
    assert_eq!(read_request(&mut memory, &state, 14, 8, 0), Err(WasmHandlerError::MemoryAccess));
    assert_eq!(memory, vec![7u8; 16]);
}

#[test]
fn read_request_short_buffer_ignores_buffer_place() {
    let state = state_for("abc");
    let mut memory = vec![7u8; 16];
    assert_eq!(read_request(&mut memory, &state, 1000, 2, 0), Ok(()));
    assert_eq!(&memory[..4], &[3, 0, 0, 0]);
}

#[test]
fn read_body_blocks_when_nothing_waits() {
    let mut state = state_for("x");
    let mut memory = vec![1u8; 16];
    assert_eq!(read_request_body(&mut memory, &mut state, 0, 8, 12), Ok(ERRNO_WOULD_BLOCK));
    assert_eq!(memory, vec![1u8; 16]);
}

#[test]
fn read_body_hands_out_what_fits() {
    let mut state = state_for("x");
    arrive(&mut state, b"hello world");
    let mut memory = vec![0u8; 32];
    assert_eq!(read_request_body(&mut memory, &mut state, 2, 5, 20), Ok(ERRNO_OK));
    assert_eq!(&memory[2..7], b"hello");
    assert_eq!(&memory[20..24], &[5, 0, 0, 0]);
    assert_eq!(memory[7], 0);
    assert_eq!(state.inbound_bytes(), b" world");
    assert_eq!(read_request_body(&mut memory, &mut state, 2, 16, 20), Ok(ERRNO_OK));
    assert_eq!(&memory[2..8], b" world");
    assert_eq!(&memory[20..24], &[6, 0, 0, 0]);
    assert_eq!(state.inbound_len(), 0);
    assert_eq!(read_request_body(&mut memory, &mut state, 2, 16, 20), Ok(ERRNO_WOULD_BLOCK));
}

#[test]
fn read_body_with_empty_guest_buffer_reports_zero() {
    let mut state = state_for("x");
    arrive(&mut state, b"abc");
    let mut memory = vec![9u8; 8];
    assert_eq!(read_request_body(&mut memory, &mut state, 0, 0, 4), Ok(ERRNO_OK));
    assert_eq!(memory, vec![9, 9, 9, 9, 0, 0, 0, 0]);
    assert_eq!(state.inbound_bytes(), b"abc");
}

#[test]
fn read_body_after_eof_reports_zero_every_time() {
    let mut state = state_for("x");
    arrive(&mut state, b"");
    assert!(state.is_inbound_eof());
    for _ in 0..5 {
        let mut memory = vec![9u8; 8];
        assert_eq!(read_request_body(&mut memory, &mut state, 0, 4, 4), Ok(ERRNO_OK));
        assert_eq!(memory, vec![9, 9, 9, 9, 0, 0, 0, 0]);
        assert!(state.is_inbound_eof());
    }
}

#[test]
fn read_body_after_eof_fails_on_bad_report_place() {
    let mut state = state_for("x");
    arrive(&mut state, b"");
    let mut memory = vec![9u8; 8];
    assert_eq!(
        read_request_body(&mut memory, &mut state, 0, 4, 5),
        Err(WasmHandlerError::MemoryAccess)
    );
    assert_eq!(memory, vec![9u8; 8]);
}

#[test]
fn read_body_failure_consumes_nothing() {
    let mut state = state_for("x");
    arrive(&mut state, b"abcdef");
    let mut memory = vec![9u8; 8];
    assert_eq!(
        read_request_body(&mut memory, &mut state, 6, 6, 0),
        Err(WasmHandlerError::MemoryAccess)
    );
    assert_eq!(
        read_request_body(&mut memory, &mut state, 0, 4, 6),
        Err(WasmHandlerError::MemoryAccess)
    );
    assert_eq!(memory, vec![9u8; 8]);
    assert_eq!(state.inbound_bytes(), b"abcdef");
}

#[test]
fn body_round_trip_is_first_in_first_out() {
    let mut state = state_for("x");
    let chunks: [&[u8]; 4] = [b"one,", b"two,", b"", b"three"];
    let mut sent: Vec<u8> = Vec::new();
    let mut received: Vec<u8> = Vec::new();
    let mut memory = vec![0u8; 16];
    for chunk in chunks {
        if !chunk.is_empty() {
            arrive(&mut state, chunk);
            sent.extend_from_slice(chunk);
        }
        assert_eq!(read_request_body(&mut memory, &mut state, 0, 3, 12), Ok(ERRNO_OK));
        let n = u32::from_le_bytes([memory[12], memory[13], memory[14], memory[15]]) as usize;
        received.extend_from_slice(&memory[..n]);
    }
    loop {
        match read_request_body(&mut memory, &mut state, 0, 3, 12) {
            Ok(code) if code == ERRNO_WOULD_BLOCK => break,
            Ok(_) => {
                let n = u32::from_le_bytes([memory[12], memory[13], memory[14], memory[15]]);
                received.extend_from_slice(&memory[..n as usize]);
            }
            Err(e) => panic!("{:?}", e),
        }
    }
    assert_eq!(received, sent);
    assert_eq!(received, b"one,two,three");
}

#[test]
fn write_body_accepts_what_is_offered() {
    let mut state = state_for("x");
    let mut memory = vec![0u8; 16];
    memory[..5].copy_from_slice(b"hello");
    assert_eq!(write_response_body(&mut memory, &mut state, 0, 5, 8), Ok(ERRNO_OK));
    assert_eq!(&memory[8..12], &[5, 0, 0, 0]);
    assert_eq!(state.outbound_bytes(), b"hello");
    assert_eq!(write_response_body(&mut memory, &mut state, 1, 3, 8), Ok(ERRNO_OK));
    assert_eq!(&memory[8..12], &[3, 0, 0, 0]);
    assert_eq!(state.outbound_bytes(), b"helloell");
}

#[test]
fn write_body_near_capacity_accepts_the_rest() {
    let mut state = state_for("x");
    fill_outbound(&mut state, 4090);
    let mut memory: Vec<u8> = (0u8..32u8).collect();
    assert_eq!(write_response_body(&mut memory, &mut state, 0, 20, 24), Ok(ERRNO_OK));
    assert_eq!(&memory[24..28], &[6, 0, 0, 0]);
    assert_eq!(state.outbound_len(), 4096);
    assert_eq!(&state.outbound_bytes()[4090..], &[0, 1, 2, 3, 4, 5]);
}

#[test]
fn write_body_at_capacity_blocks() {
    let mut state = state_for("x");
    fill_outbound(&mut state, 4096);
    for len in [1u32, 20, 24] {
        let mut memory = vec![3u8; 32];
        assert_eq!(
            write_response_body(&mut memory, &mut state, 0, len, 28),
            Ok(ERRNO_WOULD_BLOCK)
        );
        assert_eq!(memory, vec![3u8; 32]);
        assert_eq!(state.outbound_len(), 4096);
    }
}

#[test]
fn write_body_never_exceeds_capacity() {
    let mut state = state_for("x");
    let mut memory = vec![1u8; 1004];
    let mut total: usize = 0;
    for _ in 0..10 {
        match write_response_body(&mut memory, &mut state, 0, 1000, 1000) {
            Ok(code) if code == ERRNO_OK => {
                let n = u32::from_le_bytes([memory[1000], memory[1001], memory[1002], memory[1003]]);
                total += n as usize;
                memory[1000..].copy_from_slice(&[1, 1, 1, 1]);
            }
            Ok(code) => assert_eq!(code, ERRNO_WOULD_BLOCK),
            Err(e) => panic!("{:?}", e),
        }
        assert!(state.outbound_len() <= 4096);
        assert_eq!(state.outbound_len(), total);
    }
    assert_eq!(total, 4096);
}

#[test]
fn write_body_of_nothing_with_room_reports_zero() {
    let mut state = state_for("x");
    let mut memory = vec![3u8; 8];
    assert_eq!(write_response_body(&mut memory, &mut state, 0, 0, 4), Ok(ERRNO_OK));
    assert_eq!(memory, vec![3, 3, 3, 3, 0, 0, 0, 0]);
    assert_eq!(state.outbound_len(), 0);
    fill_outbound(&mut state, 4095);
    let mut memory = vec![3u8; 8];
    assert_eq!(write_response_body(&mut memory, &mut state, 8, 0, 4), Ok(ERRNO_OK));
    assert_eq!(memory, vec![3, 3, 3, 3, 0, 0, 0, 0]);
    assert_eq!(state.outbound_len(), 4095);
}

#[test]
fn write_body_of_nothing_needs_a_place_for_the_report() {
    let mut state = state_for("x");
    let mut memory = vec![3u8; 8];
    assert_eq!(
        write_response_body(&mut memory, &mut state, 0, 0, 5),
        Err(WasmHandlerError::MemoryAccess)
    );
    assert_eq!(memory, vec![3u8; 8]);
}

#[test]
fn write_body_of_nothing_at_capacity_blocks() {
    let mut state = state_for("x");
    fill_outbound(&mut state, 4096);
    let mut memory = vec![3u8; 8];
    assert_eq!(write_response_body(&mut memory, &mut state, 0, 0, 4), Ok(ERRNO_WOULD_BLOCK));
    assert_eq!(memory, vec![3u8; 8]);
    assert_eq!(state.outbound_len(), 4096);
}

#[test]
fn write_body_fails_on_bad_places() {
    let mut state = state_for("x");
    let mut memory = vec![3u8; 8];
    assert_eq!(
        write_response_body(&mut memory, &mut state, 4, 5, 0),
        Err(WasmHandlerError::MemoryAccess)
    );
    assert_eq!(
        write_response_body(&mut memory, &mut state, 0, 4, 5),
        Err(WasmHandlerError::MemoryAccess)
    );
    assert_eq!(memory, vec![3u8; 8]);
    assert_eq!(state.outbound_len(), 0);
}

#[test]
fn write_body_checks_the_data_before_the_room() {
    let mut state = state_for("x");
    fill_outbound(&mut state, 4096);
    let mut memory = vec![3u8; 8];
    assert_eq!(
        write_response_body(&mut memory, &mut state, 4, 5, 0),
        Err(WasmHandlerError::MemoryAccess)
    );
}

#[test]
fn send_response_hands_back_the_first_announcement() {
    let mut state = state_for("x");
    let mut memory = vec![0u8; 32];
    memory[3..19].copy_from_slice(b"content-type: a\n");
    let announcement = send_response(&memory, &mut state, 200, 3, 16).unwrap().unwrap();
    assert_eq!(announcement.status, 200);
    assert_eq!(announcement.headers, "content-type: a\n");
    assert!(state.is_response_announced());
}

#[test]
fn send_response_drops_a_second_announcement() {
    let mut state = state_for("x");
    let memory = vec![b'a'; 8];
    assert!(send_response(&memory, &mut state, 404, 0, 8).unwrap().is_some());
    assert!(send_response(&memory, &mut state, 200, 0, 8).unwrap().is_none());
    assert!(state.is_response_announced());
}

#[test]
fn send_response_refuses_a_bad_status() {
    let mut state = state_for("x");
    let memory = vec![b'a'; 8];
    for status in [0u32, 99, 1000, 65535, 65536, 65736, u32::MAX] {
        assert_eq!(
            send_response(&memory, &mut state, status, 0, 8).err(),
            Some(WasmHandlerError::InvalidStatusCode)
        );
        assert!(!state.is_response_announced());
    }
}

#[test]
fn send_response_accepts_the_edges_of_the_status_range() {
    let memory = vec![b'a'; 8];
    for status in [100u32, 999] {
        let mut state = state_for("x");
        let announcement = send_response(&memory, &mut state, status, 0, 0).unwrap().unwrap();
        assert_eq!(announcement.status as u32, status);
        assert_eq!(announcement.headers, "");
    }
}

#[test]
fn send_response_checks_the_status_first() {
    let mut state = state_for("x");
    let memory = vec![0xffu8; 8];
    assert_eq!(
        send_response(&memory, &mut state, 1000, 6, 8).err(),
        Some(WasmHandlerError::InvalidStatusCode)
    );
    assert_eq!(
        send_response(&memory, &mut state, 200, 6, 8).err(),
        Some(WasmHandlerError::MemoryAccess)
    );
    assert_eq!(
        send_response(&memory, &mut state, 200, 0, 8).err(),
        Some(WasmHandlerError::InvalidHeaders)
    );
    assert!(!state.is_response_announced());
}

#[test]
fn send_response_decodes_multibyte_text() {
    let mut state = state_for("x");
    let text = "x-name: caf\u{e9}\n";
    let memory = text.as_bytes().to_vec();
    let announcement =
        send_response(&memory, &mut state, 201, 0, memory.len() as u32).unwrap().unwrap();
    assert_eq!(announcement.headers, text);
    let mut again = state_for("x");
    assert_eq!(
        send_response(&memory, &mut again, 201, 0, memory.len() as u32 - 2).err(),
        Some(WasmHandlerError::InvalidHeaders)
    );
}

#[test]
fn request_text_of_many_bytes_per_char() {
    let state = state_for("\u{20ac}");
    assert_eq!(state.request_bytes(), &[0xe2, 0x82, 0xac]);
    let mut memory = vec![0u8; 8];
    assert_eq!(read_request(&mut memory, &state, 0, 3, 4), Ok(()));
    assert_eq!(memory, vec![0xe2, 0x82, 0xac, 0, 3, 0, 0, 0]);
}
