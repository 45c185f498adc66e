use maplibre_native::{
    decode_request, decode_response, encode_request, encode_response, frame_len, Image,
    WireError, WorkerFailure, WorkerRequest, WorkerResponse, MAX_FRAME_LEN,
};

fn request(id: u64, path: &str, z: u8, x: u32, y: u32) -> WorkerRequest {
    WorkerRequest { id, style_path: path.to_string(), z, x, y }
}

fn payload_of(frame: &[u8]) -> &[u8] {
    let n = frame_len(&frame[0..4]).unwrap();
    assert_eq!(n, frame.len() - 4);
    &frame[4..]
}

#[test]
fn request_layout_is_exact() {
    let f = encode_request(&request(258, "ab", 3, 1, 0x0102_0304)).unwrap();
    let expected: Vec<u8> = vec![
        23, 0, 0, 0, // frame length
        2, 1, 0, 0, 0, 0, 0, 0, // id
        2, 0, 0, 0, b'a', b'b', // path
        3, // zoom
        1, 0, 0, 0, // x
        4, 3, 2, 1, // y
    ];
    assert_eq!(f, expected);
}

#[test]
fn request_round_trip_extremes() {
    let req = request(u64::MAX, "styles/ümlaut.json", 255, u32::MAX, u32::MAX);
    let f = encode_request(&req).unwrap();
    let back = decode_request(payload_of(&f)).unwrap();
    assert_eq!(back.id, u64::MAX);
    assert_eq!(back.style_path, "styles/ümlaut.json");
    assert_eq!(back.z, 255);
    assert_eq!(back.x, u32::MAX);
    assert_eq!(back.y, u32::MAX);
}

#[test]
fn request_round_trip_empty_path() {
    let f = encode_request(&request(0, "", 0, 0, 0)).unwrap();
    let back = decode_request(payload_of(&f)).unwrap();
    assert_eq!(back.style_path, "");
    assert_eq!((back.id, back.z, back.x, back.y), (0, 0, 0, 0));
}

#[test]
fn malformed_requests_are_refused() {
    let f = encode_request(&request(7, "abc", 1, 2, 3)).unwrap();
    let p = payload_of(&f).to_vec();
    assert_eq!(decode_request(&p[..p.len() - 1]).err(), Some(WireError::Malformed));
    let mut longer = p.clone();
    longer.push(0);
    assert_eq!(decode_request(&longer).err(), Some(WireError::Malformed));
    let mut bad_utf8 = p.clone();
    bad_utf8[12] = 0xff;
    assert_eq!(decode_request(&bad_utf8).err(), Some(WireError::Malformed));
    assert_eq!(decode_request(&[]).err(), Some(WireError::Malformed));
}

#[test]
fn oversized_frame_length_is_refused() {
    let too_big = (MAX_FRAME_LEN as u32 + 1).to_le_bytes();
    assert_eq!(frame_len(&too_big), Err(WireError::FrameTooLarge));
    let max = (MAX_FRAME_LEN as u32).to_le_bytes();
    assert_eq!(frame_len(&max), Ok(MAX_FRAME_LEN));
}

#[test]
fn image_response_round_trip() {
    let pixels: Vec<u8> = (0..2 * 3 * 4).map(|i| i as u8).collect();
    let img = Image::new(2, 3, pixels.clone()).unwrap();
    let f = encode_response(&WorkerResponse { id: 9, result: Ok(img) }).unwrap();
    assert_eq!(f.len(), 4 + 8 + 1 + 8 + 24);
    let back = decode_response(payload_of(&f)).unwrap();
    assert_eq!(back.id, 9);
    let img = back.result.unwrap();
    assert_eq!((img.width(), img.height()), (2, 3));
    assert_eq!(img.as_raw(), &pixels);
}

#[test]
fn failure_response_round_trip() {
    let f = encode_response(&WorkerResponse { id: 4, result: Err(WorkerFailure::Failed("boom".to_string())) }).unwrap();
    assert_eq!(&f[4..], &[4, 0, 0, 0, 0, 0, 0, 0, 1, 4, 0, 0, 0, b'b', b'o', b'o', b'm']);
    let back = decode_response(payload_of(&f)).unwrap();
    assert_eq!(back.id, 4);
    assert_eq!(back.result.err(), Some(WorkerFailure::Failed("boom".to_string())));
}

#[test]
fn malformed_responses_are_refused() {
    let mut unknown_tag = vec![0u8; 8];
    unknown_tag.push(2);
    assert!(decode_response(&unknown_tag).is_err());
    let mut short_image = vec![0u8; 8];
    short_image.push(0);
    short_image.extend_from_slice(&1u32.to_le_bytes());
    short_image.extend_from_slice(&1u32.to_le_bytes());
    short_image.extend_from_slice(&[1, 2, 3]);
    assert_eq!(decode_response(&short_image).err(), Some(WireError::Malformed));
}

#[test]
fn not_found_response_round_trip() {
    let resp = WorkerResponse { id: 3, result: Err(WorkerFailure::NotFound("a.json".to_string())) };
    let f = encode_response(&resp).unwrap();
    assert_eq!(&f[4..], &[3, 0, 0, 0, 0, 0, 0, 0, 2, 6, 0, 0, 0, b'a', b'.', b'j', b's', b'o', b'n']);
    let back = decode_response(payload_of(&f)).unwrap();
    assert_eq!(back, resp);
}

#[test]
fn unknown_response_tag_is_refused() {
    let mut p = vec![0u8; 8];
    p.push(3);
    p.extend_from_slice(&0u32.to_le_bytes());
    assert_eq!(decode_response(&p).err(), Some(WireError::Malformed));
}
