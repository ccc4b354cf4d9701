use mapiproxy::analyzer::Analyzer;

fn drain(analyzer: &mut Analyzer, bytes: &[u8]) -> Vec<Vec<u8>> {
    let mut data: &[u8] = bytes;
    let mut chunks = Vec::new();
    while let Some(chunk) = analyzer.split_chunk(&mut data) {
        chunks.push(chunk.to_vec());
    }
    assert!(data.is_empty());
    chunks
}

#[test]
fn split_chunk_separates_header_and_body() {
    let mut analyzer = Analyzer::new(false);
    let bytes = [0x02u8, 0x00, b'h', b'i'];
    let mut data: &[u8] = &bytes;

    let head = analyzer.split_chunk(&mut data).unwrap();
    assert_eq!(head, &[0x02, 0x00]);
    assert!(analyzer.was_head());
    assert!(!analyzer.was_body());
    assert_eq!(analyzer, Analyzer::Body { still_needed: 1, len: 1, last: false });

    let body = analyzer.split_chunk(&mut data).unwrap();
    assert_eq!(body, b"h");
    assert!(analyzer.was_body());
    assert!(analyzer.was_block_boundary());
    assert!(!analyzer.was_message_boundary());

    let partial = analyzer.split_chunk(&mut data).unwrap();
    assert_eq!(partial, b"i");
    assert!(analyzer.was_head());
    assert_eq!(analyzer, Analyzer::PartialHead { byte1: b'i' });
    assert!(analyzer.split_chunk(&mut data).is_none());
    assert_eq!(analyzer, Analyzer::PartialHead { byte1: b'i' });
}

#[test]
fn live_echo_block_boundary_then_header() {
    let mut analyzer = Analyzer::new(false);
    drain(&mut analyzer, &[0x02, 0x00, b'h']);
    assert!(analyzer.was_block_boundary());
    assert!(!analyzer.was_message_boundary());
    let chunks = drain(&mut analyzer, &[0x02, 0x00]);
    assert_eq!(chunks, vec![vec![0x02u8, 0x00]]);
    assert!(analyzer.was_head());
    assert!(!analyzer.was_block_boundary());
}

#[test]
fn chunks_put_together_are_the_stream() {
    let stream: Vec<u8> = vec![
        0x05, 0x00, b'a', b'b', 0x00, 0x00, 0x03, 0x00, b'c', 0x01, 0x00, 0x04, 0x00, b'd', b'e',
    ];
    for cut in 0..=stream.len() {
        let mut analyzer = Analyzer::new(false);
        let mut all = Vec::new();
        for piece in [&stream[..cut], &stream[cut..]] {
            for chunk in drain(&mut analyzer, piece) {
                all.extend_from_slice(&chunk);
            }
        }
        assert_eq!(all, stream);
    }
}

#[test]
fn body_length_is_what_the_header_announced() {
    // n = 7: len 3, last
    let stream = [0x07u8, 0x00, b'x', b'y', b'z'];
    let mut analyzer = Analyzer::new(false);
    let mut body = 0;
    for byte in stream {
        for chunk in drain(&mut analyzer, &[byte]) {
            if analyzer.was_body() {
                body += chunk.len();
            }
        }
    }
    assert_eq!(body, 3);
    assert!(analyzer.was_message_boundary());
    assert_eq!(analyzer, Analyzer::Head { boundary: true, was_head: false, was_body: true });
}

#[test]
fn header_is_little_endian() {
    let mut analyzer = Analyzer::new(false);
    // n = 0x0102 = 258: len 129, not last
    drain(&mut analyzer, &[0x02, 0x01]);
    assert_eq!(analyzer, Analyzer::Body { still_needed: 129, len: 129, last: false });
    assert_eq!(Analyzer::parse_header(0x03, 0x00), Analyzer::Body { still_needed: 1, len: 1, last: true });
}

#[test]
fn largest_block_is_accepted_and_larger_is_an_error() {
    // 8190 * 2 = 16380 = 0x3FFC
    assert_eq!(
        Analyzer::parse_header(0xFC, 0x3F),
        Analyzer::Body { still_needed: 8190, len: 8190, last: false }
    );
    assert_eq!(
        Analyzer::parse_header(0xFD, 0x3F),
        Analyzer::Body { still_needed: 8190, len: 8190, last: true }
    );
    // 8191 * 2 = 16382 = 0x3FFE
    assert_eq!(Analyzer::parse_header(0xFE, 0x3F), Analyzer::Error);
    assert_eq!(Analyzer::parse_header(0xFF, 0xFF), Analyzer::Error);

    let mut analyzer = Analyzer::new(false);
    drain(&mut analyzer, &[0xFE, 0x3F]);
    assert!(analyzer.was_error());
    let chunks = drain(&mut analyzer, b"whatever follows");
    assert_eq!(chunks, vec![b"whatever follows".to_vec()]);
    assert!(analyzer.was_error());
    assert!(!analyzer.was_head());
    assert!(!analyzer.was_body());
}

#[test]
fn empty_block_that_is_not_last_returns_to_head() {
    let mut analyzer = Analyzer::new(false);
    let chunks = drain(&mut analyzer, &[0x00, 0x00]);
    assert_eq!(chunks, vec![vec![0u8, 0u8]]);
    assert!(analyzer.was_block_boundary());
    assert!(!analyzer.was_message_boundary());
    assert!(analyzer.was_head());
    assert!(!analyzer.was_body());
    assert_eq!(analyzer, Analyzer::Head { boundary: false, was_head: true, was_body: false });
}

#[test]
fn empty_last_block_ends_the_message() {
    let mut analyzer = Analyzer::new(false);
    let chunks = drain(&mut analyzer, &[0x01, 0x00]);
    assert_eq!(chunks, vec![vec![1u8, 0u8], vec![]]);
    assert!(analyzer.was_message_boundary());
    assert!(analyzer.was_body());
}

#[test]
fn unix_client_starts_with_sentinel() {
    let mut analyzer = Analyzer::new(true);
    assert_eq!(analyzer, Analyzer::Unix0);
    let chunks = drain(&mut analyzer, &[b'0', 0x02, 0x00, b'x']);
    assert_eq!(chunks, vec![vec![b'0'], vec![0x02, 0x00], vec![b'x']]);
    assert!(analyzer.was_block_boundary());

    let mut analyzer = Analyzer::new(true);
    drain(&mut analyzer, &[b'1']);
    assert!(analyzer.was_error());
}

#[test]
fn check_incomplete_tells_where_the_stream_stopped() {
    assert_eq!(Analyzer::new(false).check_incomplete(), Ok(()));
    assert_eq!(Analyzer::new(true).check_incomplete(), Ok(()));
    assert_eq!(Analyzer::Error.check_incomplete(), Ok(()));
    assert_eq!(
        Analyzer::Head { boundary: false, was_head: false, was_body: true }.check_incomplete(),
        Err("on a block boundary but not on a message boundary")
    );
    assert_eq!(
        Analyzer::PartialHead { byte1: 2 }.check_incomplete(),
        Err("in the middle of the header block")
    );
    assert_eq!(
        Analyzer::Body { still_needed: 1, len: 2, last: false }.check_incomplete(),
        Err("in the middle of a block")
    );
    assert_eq!(
        Analyzer::Body { still_needed: 1, len: 2, last: true }.check_incomplete(),
        Err("in the middle of the last block of the message")
    );
}

#[test]
fn analyze_counts_what_it_consumes() {
    let mut analyzer = Analyzer::new(false);
    assert_eq!(analyzer.analyze(&[]), None);
    assert_eq!(analyzer.analyze(&[0x08]), Some(1));
    assert_eq!(analyzer.analyze(&[0x00, b'a', b'b']), Some(1));
    assert_eq!(analyzer.analyze(&[b'a', b'b']), Some(2));
    assert_eq!(analyzer, Analyzer::Body { still_needed: 2, len: 4, last: false });
    assert_eq!(analyzer.analyze(&[]), None);
    assert_eq!(analyzer.analyze(&[b'c', b'd', 0x02]), Some(2));
    assert!(analyzer.was_block_boundary());
}

#[test]
fn classification_does_not_depend_on_the_cut() {
    let stream: Vec<u8> = vec![
        0x05, 0x00, b'a', b'b', 0x00, 0x00, 0x03, 0x00, b'c', 0x01, 0x00, 0x04, 0x00, b'd', b'e', 0x09,
    ];
    for unix in [false, true] {
        // step through the whole stream in one piece, noting the body bytes
        let mut reference = Analyzer::new(unix);
        let mut expected = Vec::new();
        let mut data: &[u8] = &stream;
        while let Some(chunk) = reference.split_chunk(&mut data) {
            if reference.was_body() {
                expected.extend_from_slice(chunk);
            }
        }
        for cut in 0..=stream.len() {
            let mut analyzer = Analyzer::new(unix);
            let mut found = Vec::new();
            for piece in [&stream[..cut], &stream[cut..]] {
                let mut data: &[u8] = piece;
                while let Some(chunk) = analyzer.split_chunk(&mut data) {
                    if analyzer.was_body() {
                        found.extend_from_slice(chunk);
                    }
                }
            }
            assert_eq!(analyzer, reference);
            assert_eq!(found, expected);
            assert_eq!(analyzer.check_incomplete(), reference.check_incomplete());
        }
        if !unix {
            assert_eq!(expected, b"abcde".to_vec());
        }
    }
}
