use identity_core::error::CoreError;
use identity_core::utils::base_encoding::decode_b58;
use identity_core::utils::base_encoding::decode_multibase;
use identity_core::utils::base_encoding::encode_b58;
use identity_core::utils::base_encoding::encode_multibase;
use identity_core::utils::base_encoding::Base;

fn bases() -> Vec<Base> {
    vec![
        Base::Base2,
        Base::Base8,
        Base::Base10,
        Base::Base16Lower,
        Base::Base16Upper,
        Base::Base32Lower,
        Base::Base32Upper,
        Base::Base32PadLower,
        Base::Base32PadUpper,
        Base::Base32HexLower,
        Base::Base32HexUpper,
        Base::Base32HexPadLower,
        Base::Base32HexPadUpper,
        Base::Base32Z,
        Base::Base36Lower,
        Base::Base36Upper,
        Base::Base58Flickr,
        Base::Base58Btc,
        Base::Base64,
        Base::Base64Pad,
        Base::Base64Url,
        Base::Base64UrlPad,
    ]
}

fn samples() -> Vec<Vec<u8>> {
    vec![
        vec![],
        vec![0],
        vec![0, 0, 0],
        vec![0, 0, 1, 2, 3],
        vec![255],
        vec![255; 40],
        b"hello".to_vec(),
        (0..=255u8).collect(),
        vec![1, 0, 0, 0],
    ]
}

#[test]
fn test_decode_b58_empty() {
    assert_eq!(decode_b58("").unwrap(), Vec::<u8>::new());
}

#[test]
fn test_decode_multibase_empty() {
    assert_eq!(decode_multibase("").unwrap(), Vec::<u8>::new());
}

#[test]
fn test_b58_random() {
    for data in samples() {
        assert_eq!(decode_b58(&encode_b58(&data)).unwrap(), data);
    }
}

#[test]
fn test_multibase_random() {
    for data in samples() {
        assert_eq!(decode_multibase(&encode_multibase(&data, None)).unwrap(), data);
    }
}

#[test]
fn test_multibase_bases_random() {
    for data in samples() {
        for base in bases() {
            assert_eq!(decode_multibase(&encode_multibase(&data, Some(base))).unwrap(), data);
        }
    }
}

#[test]
fn test_multibase() {
    let data = r#"Multibase is awesome! \o/"#;
    assert_eq!(
        encode_multibase(data.as_bytes(), Some(Base::Base16Upper)).as_str(),
        "F4D756C74696261736520697320617765736F6D6521205C6F2F"
    );
    assert_eq!(
        encode_multibase(data.as_bytes(), Some(Base::Base32Upper)).as_str(),
        "BJV2WY5DJMJQXGZJANFZSAYLXMVZW63LFEEQFY3ZP"
    );
    assert_eq!(
        encode_multibase(data.as_bytes(), Some(Base::Base58Btc)).as_str(),
        "zYAjKoNbau5KiqmHPmSxYCvn66dA1vLmwbt"
    );
    assert_eq!(
        encode_multibase(data.as_bytes(), Some(Base::Base64Pad)).as_str(),
        "MTXVsdGliYXNlIGlzIGF3ZXNvbWUhIFxvLw=="
    );

    let expected = data.as_bytes().to_vec();
    assert_eq!(
        decode_multibase("F4D756C74696261736520697320617765736F6D6521205C6F2F").unwrap(),
        expected
    );
    assert_eq!(
        decode_multibase("BJV2WY5DJMJQXGZJANFZSAYLXMVZW63LFEEQFY3ZP").unwrap(),
        expected
    );
    assert_eq!(
        decode_multibase("zYAjKoNbau5KiqmHPmSxYCvn66dA1vLmwbt").unwrap(),
        expected
    );
    assert_eq!(
        decode_multibase("MTXVsdGliYXNlIGlzIGF3ZXNvbWUhIFxvLw==").unwrap(),
        expected
    );
}

#[test]
fn test_b58_known_values() {
    assert_eq!(encode_b58(b"hello"), "Cn8eVZg");
    assert_eq!(encode_b58(&[0, 0, 1]), "112");
    assert_eq!(encode_b58(&[]), "");
    assert_eq!(decode_b58("Cn8eVZg").unwrap(), b"hello".to_vec());
    assert_eq!(
        decode_b58("he11owor1d").unwrap(),
        vec![0x04, 0x30, 0x5e, 0x2b, 0x24, 0x73, 0xf0, 0x58]
    );
}

#[test]
fn test_b58_rejects_what_is_not_in_the_alphabet() {
    assert_eq!(decode_b58("0").unwrap_err(), CoreError::DecodeBase58);
    assert_eq!(decode_b58("O").unwrap_err(), CoreError::DecodeBase58);
    assert_eq!(decode_b58("I").unwrap_err(), CoreError::DecodeBase58);
    assert_eq!(decode_b58("l").unwrap_err(), CoreError::DecodeBase58);
    assert_eq!(decode_b58("abc.def").unwrap_err(), CoreError::DecodeBase58);
    assert_eq!(decode_b58("é").unwrap_err(), CoreError::DecodeBase58);
}

#[test]
fn test_multibase_default_is_base58_btc() {
    let text = encode_multibase(b"hello", None);
    assert_eq!(text, "zCn8eVZg");
    assert_eq!(text, encode_multibase(b"hello", Some(Base::Base58Btc)));
    assert_eq!(&text[1..], encode_b58(b"hello"));
}

#[test]
fn test_multibase_begins_with_the_code_of_the_base() {
    for base in bases() {
        let text = encode_multibase(b"\x01\x02", Some(base));
        assert_eq!(text.chars().next(), Some(base.code()));
        let empty = encode_multibase(b"", Some(base));
        assert_eq!(empty, base.code().to_string());
        assert_eq!(decode_multibase(&empty).unwrap(), Vec::<u8>::new());
    }
}

#[test]
fn test_base_codes() {
    let codes: Vec<char> = bases().iter().map(|base| base.code()).collect();
    assert_eq!(
        codes,
        vec![
            '0', '7', '9', 'f', 'F', 'b', 'B', 'c', 'C', 'v', 'V', 't', 'T', 'h', 'k', 'K', 'Z',
            'z', 'm', 'M', 'u', 'U'
        ]
    );
}

#[test]
fn test_multibase_rejects_unknown_base_and_bad_text() {
    assert_eq!(decode_multibase("!abc").unwrap_err(), CoreError::DecodeMultibase);
    assert_eq!(decode_multibase("z0").unwrap_err(), CoreError::DecodeMultibase);
    assert_eq!(decode_multibase("fzz").unwrap_err(), CoreError::DecodeMultibase);
}

#[test]
fn test_bases_are_those_of_multibase() {
    let pairs = vec![
        (Base::Base2, multibase::Base::Base2),
        (Base::Base8, multibase::Base::Base8),
        (Base::Base10, multibase::Base::Base10),
        (Base::Base16Lower, multibase::Base::Base16Lower),
        (Base::Base16Upper, multibase::Base::Base16Upper),
        (Base::Base32Lower, multibase::Base::Base32Lower),
        (Base::Base32Upper, multibase::Base::Base32Upper),
        (Base::Base32PadLower, multibase::Base::Base32PadLower),
        (Base::Base32PadUpper, multibase::Base::Base32PadUpper),
        (Base::Base32HexLower, multibase::Base::Base32HexLower),
        (Base::Base32HexUpper, multibase::Base::Base32HexUpper),
        (Base::Base32HexPadLower, multibase::Base::Base32HexPadLower),
        (Base::Base32HexPadUpper, multibase::Base::Base32HexPadUpper),
        (Base::Base32Z, multibase::Base::Base32Z),
        (Base::Base36Lower, multibase::Base::Base36Lower),
        (Base::Base36Upper, multibase::Base::Base36Upper),
        (Base::Base58Flickr, multibase::Base::Base58Flickr),
        (Base::Base58Btc, multibase::Base::Base58Btc),
        (Base::Base64, multibase::Base::Base64),
        (Base::Base64Pad, multibase::Base::Base64Pad),
        (Base::Base64Url, multibase::Base::Base64Url),
        (Base::Base64UrlPad, multibase::Base::Base64UrlPad),
    ];
    assert_eq!(pairs.len(), 22);
    for (base, other) in pairs {
        assert_eq!(base.code(), other.code());
        for data in samples() {
            assert_eq!(encode_multibase(&data, Some(base)), multibase::encode(other, &data));
        }
    }
}
