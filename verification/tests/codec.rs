//! The base64 transport codec and the inline image form, exercised through
//! the public surface against the real base64 crate.

use segmask::controller::process_response;
use segmask::view::data_uri;
use segmask::FileDetails;

fn body_with(data: &str) -> Vec<u8> {
    format!(
        "{{\"file_name\":\"mask.png\",\"file_type\":\"image/png\",\"data\":\"{}\"}}",
        data
    )
    .into_bytes()
}

#[test]
fn decode_four_a_gives_three_zero_bytes() {
    let r = process_response(200, &body_with("AAAA"));
    let d = r.expect("a valid body must decode");
    assert_eq!(d.data, vec![0u8, 0u8, 0u8]);
    assert_eq!(d.file_name, b"mask.png".to_vec());
    assert_eq!(d.file_type, b"image/png".to_vec());
}

#[test]
fn data_uri_holds_the_encoding() {
    let d = FileDetails {
        file_name: b"img.png".to_vec(),
        file_type: b"image/png".to_vec(),
        data: vec![0u8, 0u8, 0u8],
    };
    assert_eq!(data_uri(&d), b"data:image/png;base64,AAAA".to_vec());
}

#[test]
fn binary_bytes_round_trip_through_encode_and_decode() {
    let payload = vec![255u8, 0u8, 128u8, 7u8];
    let d = FileDetails {
        file_name: b"img.png".to_vec(),
        file_type: b"image/png".to_vec(),
        data: payload.clone(),
    };
    let uri = data_uri(&d);
    let text = String::from_utf8(uri).unwrap();
    let encoded = text.strip_prefix("data:image/png;base64,").unwrap();
    assert_eq!(encoded, "/wCABw==");
    let back = process_response(200, &body_with(encoded)).expect("must decode");
    assert_eq!(back.data, payload);
}

#[test]
fn one_and_two_byte_tails_are_padded() {
    let one = FileDetails {
        file_name: b"a".to_vec(),
        file_type: b"t".to_vec(),
        data: vec![7u8],
    };
    assert_eq!(data_uri(&one), b"data:t;base64,Bw==".to_vec());
    let two = FileDetails {
        file_name: b"a".to_vec(),
        file_type: b"t".to_vec(),
        data: vec![77u8, 97u8],
    };
    assert_eq!(data_uri(&two), b"data:t;base64,TWE=".to_vec());
}

#[test]
fn malformed_base64_payload_is_a_decode_failure() {
    for bad in ["AAA", "A===", "AB==", "AA=A", "%%%%", "AAAA="] {
        let r = process_response(200, &body_with(bad));
        assert!(matches!(r, Err(segmask::error::UploadError::Decode)), "{bad}");
    }
}

#[test]
fn empty_decoded_payload_fails_closed() {
    let r = process_response(200, &body_with(""));
    assert!(matches!(r, Err(segmask::error::UploadError::Decode)));
}
