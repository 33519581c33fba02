use integrity::digest::{absorb_read, checked_sha256, sha256, DigestContext, Progress};
use integrity::error::Error;
use integrity::primitives::MAX_HASH_INPUT;

const ABC: &str = "BA7816BF8F01CFEA414140DE5DAE2223B00361A396177A9CB410FF61F20015AD";
const EMPTY: &str = "E3B0C44298FC1C149AFBF4C8996FB92427AE41E4649B934CA495991B7852B855";
const FOOBAR: &str = "C3AB8FF13720E8AD9047DD39466B3C8974E592C2FA383D4A3960714CAEF0C4F2";

fn chunks_of(data: &[u8], size: usize) -> Vec<Vec<u8>> {
    data.chunks(size).map(|c| c.to_vec()).collect()
}

#[test]
fn test_sha256() {
    let source = b"//! A file of some lines.\n\npub mod digest;\n".to_vec();
    let d = sha256(&[source.clone()]);
    assert_eq!(d.as_bytes().len(), 32);
    assert_eq!(d, sha256(&chunks_of(&source, 7)));
}

#[test]
fn sha256_of_abc_is_the_published_value() {
    let d = sha256(&[b"abc".to_vec()]);
    assert_eq!(d.to_hex(), ABC);
    assert_eq!(d.as_bytes()[0], 0xba);
    assert_eq!(d.as_bytes()[31], 0xad);
}

#[test]
fn sha256_of_nothing_is_the_published_value() {
    let none: Vec<Vec<u8>> = Vec::new();
    assert_eq!(sha256(&none).to_hex(), EMPTY);
    assert_eq!(sha256(&[Vec::new()]).to_hex(), EMPTY);
    assert_eq!(DigestContext::new().finish().to_hex(), EMPTY);
}

#[test]
fn foo_then_bar_is_foobar() {
    let mut two = DigestContext::new();
    two.update(b"foo");
    two.update(b"bar");
    let mut one = DigestContext::new();
    one.update(b"foobar");
    let two = two.finish();
    let one = one.finish();
    assert_eq!(two, one);
    assert_eq!(two.to_hex(), FOOBAR);
    assert_eq!(sha256(&[b"foo".to_vec(), b"bar".to_vec()]), sha256(&[b"foobar".to_vec()]));
}

#[test]
fn the_same_input_gives_the_same_digest() {
    let data: Vec<u8> = (0..1000u32).map(|i| (i % 251) as u8).collect();
    let first = sha256(&[data.clone()]);
    let second = sha256(&[data]);
    assert_eq!(first, second);
    assert_eq!(first.as_bytes(), second.as_bytes());
}

#[test]
fn different_inputs_give_different_digests() {
    let samples: Vec<Vec<u8>> = vec![
        Vec::new(),
        vec![0],
        vec![0, 0],
        vec![1],
        b"abc".to_vec(),
        b"abd".to_vec(),
        b"foobar".to_vec(),
        b"foobar ".to_vec(),
        vec![0xff; 64],
        vec![0xff; 65],
    ];
    for (i, a) in samples.iter().enumerate() {
        for (j, b) in samples.iter().enumerate() {
            if i != j {
                assert_ne!(sha256(&[a.clone()]), sha256(&[b.clone()]));
            }
        }
    }
}

#[test]
fn chunk_boundaries_do_not_matter() {
    let data: Vec<u8> = (0..300u32).map(|i| (i * 7 % 256) as u8).collect();
    let whole = sha256(&[data.clone()]);
    for size in [1usize, 2, 3, 63, 64, 65, 128, 299, 300, 301] {
        assert_eq!(sha256(&chunks_of(&data, size)), whole);
    }
    for at in 0..=data.len() {
        assert_eq!(sha256(&[data[..at].to_vec(), data[at..].to_vec()]), whole);
    }
    let mut with_gaps = chunks_of(&data, 50);
    with_gaps.insert(0, Vec::new());
    with_gaps.insert(3, Vec::new());
    with_gaps.push(Vec::new());
    assert_eq!(sha256(&with_gaps), whole);
}

#[test]
fn a_stream_of_ordinary_length_has_a_digest() {
    assert_eq!(checked_sha256(&[b"abc".to_vec()]).map(|d| d.to_hex()), Some(ABC.to_string()));
    assert_eq!(checked_sha256(&[]).map(|d| d.to_hex()), Some(EMPTY.to_string()));
    let chunks = vec![b"foo".to_vec(), Vec::new(), b"bar".to_vec()];
    assert_eq!(checked_sha256(&chunks), Some(sha256(&chunks)));
    assert_eq!(checked_sha256(&chunks).map(|d| d.to_hex()), Some(FOOBAR.to_string()));
}

#[test]
fn the_order_of_the_bytes_matters() {
    assert_ne!(
        sha256(&[b"foo".to_vec(), b"bar".to_vec()]),
        sha256(&[b"bar".to_vec(), b"foo".to_vec()])
    );
}

#[test]
fn a_context_counts_what_it_takes_in() {
    let mut cx = DigestContext::new();
    assert_eq!(cx.len(), 0);
    cx.update(b"foo");
    assert_eq!(cx.len(), 3);
    cx.update(b"");
    assert_eq!(cx.len(), 3);
    cx.update(&[0u8; 100]);
    assert_eq!(cx.len(), 103);
    assert!(cx.len() <= MAX_HASH_INPUT);
}

#[test]
fn a_failed_read_gives_up_the_digest() {
    let mut cx = DigestContext::new();
    cx.update(b"partial");
    match absorb_read(cx, None) {
        Err(e) => assert_eq!(e, Error::IoError),
        Ok(_) => panic!("a failed read must not give a digest"),
    }
}

#[test]
fn an_empty_read_ends_the_stream() {
    let cx = DigestContext::new();
    let cx = match absorb_read(cx, Some(b"foo")) {
        Ok(Progress::More(cx)) => cx,
        _ => panic!("bytes must be taken in"),
    };
    let cx = match absorb_read(cx, Some(b"bar")) {
        Ok(Progress::More(cx)) => cx,
        _ => panic!("bytes must be taken in"),
    };
    assert_eq!(cx.len(), 6);
    match absorb_read(cx, Some(b"")) {
        Ok(Progress::Done(d)) => assert_eq!(d.to_hex(), FOOBAR),
        _ => panic!("an empty read must end the stream"),
    }
}

#[test]
fn hex_has_two_upper_case_digits_for_each_byte() {
    let hex = sha256(&[b"abc".to_vec()]).to_hex();
    assert_eq!(hex.len(), 64);
    assert!(hex.chars().all(|c| c.is_ascii_digit() || ('A'..='F').contains(&c)));
    assert_eq!(&hex[..8], "BA7816BF");
}
