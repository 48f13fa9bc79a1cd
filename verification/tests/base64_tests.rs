use base64::Engine;
use image_rename_split::base64::encode_to_base64;

#[test]
fn encode_known_vectors() {
    assert_eq!(encode_to_base64(b""), "");
    assert_eq!(encode_to_base64(b"f"), "Zg==");
    assert_eq!(encode_to_base64(b"fo"), "Zm8=");
    assert_eq!(encode_to_base64(b"foo"), "Zm9v");
    assert_eq!(encode_to_base64(b"foob"), "Zm9vYg==");
    assert_eq!(encode_to_base64(b"fooba"), "Zm9vYmE=");
    assert_eq!(encode_to_base64(b"foobar"), "Zm9vYmFy");
    assert_eq!(encode_to_base64(&[0xff, 0xd8, 0xff]), "/9j/");
    assert_eq!(encode_to_base64(&[0, 0, 0]), "AAAA");
}

#[test]
fn encode_matches_standard_engine() {
    let samples: Vec<Vec<u8>> = vec![
        vec![],
        vec![42],
        vec![1, 2],
        vec![250, 251, 252, 253, 254, 255],
        (0u16..=255).map(|b| b as u8).collect(),
    ];
    for s in samples {
        let expected = base64::engine::general_purpose::STANDARD.encode(&s);
        assert_eq!(encode_to_base64(&s), expected);
    }
}

#[test]
fn round_trip_with_standard_decoder() {
    for len in 0usize..=64 {
        let bytes: Vec<u8> = (0..len).map(|i| ((i * 37 + 11) % 256) as u8).collect();
        let encoded = encode_to_base64(&bytes);
        let decoded = base64::engine::general_purpose::STANDARD
            .decode(encoded.as_bytes())
            .expect("library output must be standard-decodable");
        assert_eq!(decoded, bytes);
    }
}

#[test]
fn padding_matches_input_length() {
    for len in 0usize..=33 {
        let bytes: Vec<u8> = (0..len).map(|i| (i * 5 + 1) as u8).collect();
        let encoded = encode_to_base64(&bytes);
        assert_eq!(encoded.len(), 4 * ((len + 2) / 3));
        let pads = encoded.chars().rev().take_while(|c| *c == '=').count();
        match len % 3 {
            0 => assert_eq!(pads, 0),
            1 => assert_eq!(pads, 2),
            _ => assert_eq!(pads, 1),
        }
        assert_eq!(encoded[..encoded.len() - pads].contains('='), false);
    }
}
