use gitup::base64::{CryptError, Encoder, Variant};

#[test]
fn test_base64_encode_url() {
    let data = b"Hello, World!".to_vec();

    let encoder = Encoder::new(Variant::Url);
    let encoded = encoder.encode(data.as_slice()).unwrap();
    assert_eq!(encoded, "SGVsbG8sIFdvcmxkIQ");
}

#[test]
fn test_base64_decode_url() {
    let data = "SGVsbG8sIFdvcmxkIQ==";

    let encoder = Encoder::new(Variant::Url);
    let decoded = encoder.decode(data).unwrap();
    assert_eq!(decoded, b"Hello, World!".to_vec());
}

#[test]
fn test_base64_encode() {
    let data = b"Hello, World!".to_vec();

    let encoder = Encoder::new(Variant::Standard);
    let encoded = encoder.encode(data.as_slice()).unwrap();
    assert_eq!(encoded, "SGVsbG8sIFdvcmxkIQ==");
}

#[test]
fn test_base64_decode() {
    let data = "SGVsbG8sIFdvcmxkIQ==";

    let encoder = Encoder::new(Variant::Standard);
    let decoded = encoder.decode(data).unwrap();
    assert_eq!(decoded, b"Hello, World!".to_vec());
}

#[test]
fn encode_empty_and_short_inputs() {
    let standard = Encoder::new(Variant::Standard);
    assert_eq!(standard.encode(b"").unwrap(), "");
    assert_eq!(standard.encode(b"f").unwrap(), "Zg==");
    assert_eq!(standard.encode(b"fo").unwrap(), "Zm8=");
    assert_eq!(standard.encode(b"foo").unwrap(), "Zm9v");
    assert_eq!(standard.encode(b"foob").unwrap(), "Zm9vYg==");
    let url = Encoder::new(Variant::Url);
    assert_eq!(url.encode(b"f").unwrap(), "Zg");
    assert_eq!(url.encode(b"fo").unwrap(), "Zm8");
}

#[test]
fn alphabets_differ_only_in_the_last_two_symbols() {
    let data = [0xfbu8, 0xff, 0xbf];
    assert_eq!(Encoder::new(Variant::Standard).encode(&data).unwrap(), "+/+/");
    assert_eq!(Encoder::new(Variant::Url).encode(&data).unwrap(), "-_-_");
    assert_eq!(Encoder::new(Variant::Url).decode("-_-_").unwrap(), data.to_vec());
    assert_eq!(Encoder::new(Variant::Standard).decode("+/+/").unwrap(), data.to_vec());
}

#[test]
fn alphabet_and_padding_of_each_variant() {
    let standard = Variant::Standard.get_alphabet();
    assert_eq!(standard.len(), 64);
    assert_eq!(standard[0], b'A');
    assert_eq!(standard[62], b'+');
    assert_eq!(standard[63], b'/');
    let url = Variant::Url.get_alphabet();
    assert_eq!(url[62], b'-');
    assert_eq!(url[63], b'_');
    assert_eq!(Variant::Standard.get_padding(), Some(b'='));
    assert_eq!(Variant::Url.get_padding(), None);
}

#[test]
fn decode_inverts_encode_on_every_length() {
    for variant in [Variant::Standard, Variant::Url] {
        let encoder = Encoder::new(variant);
        for n in 0..40usize {
            let data: Vec<u8> = (0..n).map(|i| (i * 37 + 11) as u8).collect();
            let text = encoder.encode(&data).unwrap();
            assert_eq!(encoder.decode(&text).unwrap(), data);
        }
    }
}

#[test]
fn decode_rejects_a_symbol_outside_the_alphabet() {
    let standard = Encoder::new(Variant::Standard);
    assert_eq!(
        standard.decode("SGV*bG8="),
        Err(CryptError::InvalidEncodingCharacter("base64".to_string(), '*'))
    );
    let url = Encoder::new(Variant::Url);
    assert_eq!(
        url.decode("ab+c"),
        Err(CryptError::InvalidEncodingCharacter("base64".to_string(), '+'))
    );
}

#[test]
fn decode_stops_at_the_first_padding() {
    let standard = Encoder::new(Variant::Standard);
    assert_eq!(standard.decode("Zg==Zm9v").unwrap(), b"f".to_vec());
    assert_eq!(standard.decode("Zm8").unwrap(), b"fo".to_vec());
}

#[test]
fn crypt_error_messages() {
    assert_eq!(
        CryptError::InvalidEncodingCharacter("base64".to_string(), '*').message(),
        "Invalid character in input for encoding 'base64': '*'"
    );
    assert_eq!(
        CryptError::DataTooLong(7).message(),
        "The provided data is too long, overflowing the maximum size resulting in: 7"
    );
    assert_eq!(
        CryptError::InvalidKeyLength(32, 16).message(),
        "Invalid key length, expected 32 bytes, got 16"
    );
    assert_eq!(CryptError::CannotDecode.message(), "Cannot decode the data");
}

#[test]
fn url_encoding_is_standard_encoding_trimmed_and_mapped() {
    for n in 0..50usize {
        let data: Vec<u8> = (0..n).map(|i| (i * 91 + 250) as u8).collect();
        let standard = Encoder::new(Variant::Standard).encode(&data).unwrap();
        let url = Encoder::new(Variant::Url).encode(&data).unwrap();
        assert_eq!(url, standard.trim_end_matches('=').replace('+', "-").replace('/', "_"));
    }
}
