use genvm::decode::{decode_utf8, InvalidSequence};

fn all(bytes: &[u8]) -> Vec<Result<char, Vec<u8>>> {
    let mut d = decode_utf8(bytes.to_vec());
    let mut out = Vec::new();
    while let Some(item) = d.next() {
        out.push(item.map_err(|InvalidSequence(b)| b));
    }
    out
}

#[test]
fn decodes_valid_text() {
    assert_eq!(all("aé€😀".as_bytes()), vec![Ok('a'), Ok('é'), Ok('€'), Ok('😀')]);
    assert!(all(b"").is_empty());
}

#[test]
fn reports_bad_sequences() {
    assert_eq!(all(&[0x61, 0xff, 0x62]), vec![Ok('a'), Err(vec![0xff]), Ok('b')]);
    assert_eq!(all(&[0xe2, 0x82]), vec![Err(vec![0xe2, 0x82])]);
    assert_eq!(all(&[0xc0, 0x80])[0], Err(vec![0xc0, 0x80]));
}
