use backlog::error::Error;
use backlog::page::{Page, PageParams, PageToken};
use base64::Engine;

#[test]
fn encode_non_positive_yields_no_token() {
    assert!(PageToken::encode(0).is_none());
    assert!(PageToken::encode(-1).is_none());
    assert!(PageToken::encode(i32::MIN).is_none());
}

#[test]
fn encode_positive_yields_token() {
    assert!(PageToken::encode(1).is_some());
    assert!(PageToken::encode(42).is_some());
    assert!(PageToken::encode(i32::MAX).is_some());
}

#[test]
fn decode_without_token_yields_default() {
    assert_eq!(PageToken::decode_or(&None, 7).unwrap(), 7);
    assert_eq!(PageToken::decode_or(&None, i32::MAX).unwrap(), i32::MAX);
    assert_eq!(PageToken::decode_or(&None, -3).unwrap(), -3);
}

#[test]
fn round_trip_positive_ids() {
    for id in [1, 2, 10, 999, 123_456, i32::MAX] {
        let token = PageToken::encode(id).unwrap();
        let decoded = PageToken::decode_or(&Some(token), 0);
        assert_eq!(decoded.unwrap(), id);
    }
}

#[test]
fn round_trip_fixed_timestamp() {
    let token = PageToken::encode_at(77, 1_700_000_000);
    assert_eq!(PageToken::decode_or(&Some(token), 0).unwrap(), 77);
}

#[test]
fn corrupted_token_is_decode_error_not_default() {
    let cases = [
        "!!!not base64!!!",
        "AAAA",             // valid base64, wrong envelope length
        "",                 // empty decodes to zero bytes, not an envelope
        "abc",              // invalid length for base64
        "AAAAAAAAAAAAAAAA+", // url-safe alphabet violation
    ];
    for bad in cases {
        let r = PageToken::decode_or(&Some(bad.to_string()), 5);
        match r {
            Err(Error::InvalidArgs { .. }) => {}
            other => panic!("expected invalid-args error, got {:?}", other),
        }
    }
}

#[test]
fn tampered_token_is_rejected() {
    let token = PageToken::encode_at(1234, 99);
    // Truncate the token: no longer a canonical encoding of an envelope.
    let cut = token[..token.len() - 4].to_string();
    assert!(matches!(
        PageToken::decode_or(&Some(cut), 5),
        Err(Error::InvalidArgs { .. })
    ));
}

#[test]
fn envelope_is_twelve_bytes_little_endian() {
    let token = PageToken::encode_at(0x0102_0304, 0x0506_0708_090A_0B0Cu64);
    let bytes = base64::engine::general_purpose::URL_SAFE
        .decode(&token)
        .unwrap();
    assert_eq!(bytes.len(), 12);
    assert_eq!(&bytes[0..4], &[0x04, 0x03, 0x02, 0x01]);
    assert_eq!(
        &bytes[4..12],
        &[0x0C, 0x0B, 0x0A, 0x09, 0x08, 0x07, 0x06, 0x05]
    );
}

#[test]
fn parse_rejects_wrong_length() {
    assert!(PageToken::parse(&vec![0u8; 11]).is_none());
    assert!(PageToken::parse(&vec![0u8; 13]).is_none());
    let pt = PageToken::parse(&vec![0u8; 12]).unwrap();
    assert_eq!(pt.id, 0);
    assert_eq!(pt.ts, 0);
}

#[test]
fn page_carries_its_parts() {
    let page: Page<i32> = Page::new(Some("tok".to_string()), vec![1, 2, 3]);
    assert_eq!(page.next_page.as_deref(), Some("tok"));
    assert_eq!(page.data, vec![1, 2, 3]);
    let params = PageParams { page_token: None };
    assert!(params.page_token.is_none());
}
