use scribble::{AppError, Prefix, PrefixProbe, Status, MAX_PROBE_BYTES};

/// Looks at a body that arrives in `chunks`; returns the prefix and the chunks left to fetch.
fn get_prefix_bytes(
    chunks: Vec<&'static [u8]>,
    max_probe_bytes: usize,
) -> Result<(Prefix, Vec<Vec<u8>>), AppError> {
    let mut body = chunks.into_iter().map(|c| c.to_vec());
    let mut probe = PrefixProbe::new(max_probe_bytes);
    while probe.wants_more() {
        let Some(chunk) = body.next() else {
            break;
        };
        probe.push(chunk);
    }
    let prefix = probe.finish()?;
    let rest = prefix.tail.iter().cloned().chain(body).collect();
    Ok((prefix, rest))
}

#[test]
fn get_prefix_bytes_errors_on_empty_body() {
    let res = get_prefix_bytes(vec![], 16);
    assert!(res.is_err());
    let err = res.err().expect("expected AppError");
    assert!(err.message.contains("request body was empty"));
    assert_eq!(err.status, Status::BadRequest);
}

#[test]
fn get_prefix_bytes_skips_empty_chunks() {
    let (prefix, _tail) = match get_prefix_bytes(vec![b"", b"abc"], 16) {
        Ok(v) => v,
        Err(err) => panic!("unexpected error: {}", err.message),
    };
    assert_eq!(prefix.bytes, b"abc");
    assert_eq!(prefix.chunks.len(), 1);
    assert_eq!(prefix.chunks[0], b"abc");
}

#[test]
fn get_prefix_bytes_splits_large_chunk_and_replays_tail() {
    let (prefix, tail_chunks) = match get_prefix_bytes(vec![b"helloWORLD"], 5) {
        Ok(v) => v,
        Err(err) => panic!("unexpected error: {}", err.message),
    };

    assert_eq!(prefix.bytes, b"hello");
    assert_eq!(prefix.chunks.len(), 1);
    assert_eq!(prefix.chunks[0], b"hello");

    assert_eq!(tail_chunks.len(), 1);
    assert_eq!(tail_chunks[0], b"WORLD");
}

#[test]
fn chunk_that_fills_the_limit_is_not_cut() {
    let (prefix, rest) = get_prefix_bytes(vec![b"ab", b"cde", b"f"], 5).unwrap();
    assert_eq!(prefix.bytes, b"abcde");
    assert_eq!(prefix.chunks, vec![b"ab".to_vec(), b"cde".to_vec()]);
    assert!(prefix.tail.is_none());
    assert_eq!(rest, vec![b"f".to_vec()]);
}

#[test]
fn replayed_body_is_the_body() {
    let body: Vec<&'static [u8]> = vec![b"", b"abc", b"", b"defgh", b"ij", b"k"];
    let whole: Vec<u8> = body.concat();
    for limit in 1..14 {
        let (prefix, rest) = get_prefix_bytes(body.clone(), limit).unwrap();
        assert_eq!(prefix.bytes, whole[..limit.min(whole.len())]);
        assert_eq!(prefix.chunks.concat(), prefix.bytes);
        let replayed = [prefix.chunks.concat(), rest.concat()].concat();
        assert_eq!(replayed, whole);
    }
}

#[test]
fn limit_of_zero_sees_an_empty_body() {
    let err = get_prefix_bytes(vec![b"abc"], 0).err().unwrap();
    assert_eq!(err.message, "request body was empty");
}

#[test]
fn half_a_mebibyte_is_looked_at() {
    assert_eq!(MAX_PROBE_BYTES, 524_288);
}
