use mapiproxy::event::{ConnectionId, Direction};
use mapiproxy::hexdump::Binary;
use mapiproxy::render::{IdStream, Renderer, Style};

fn shown(renderer: &mut Renderer) -> String {
    String::from_utf8(renderer.take_output()).unwrap()
}

#[test]
fn message_is_one_line() {
    let mut renderer = Renderer::new(false);
    renderer.message(Some(ConnectionId::new(10)), Some(Direction::Upstream), b"hello");
    renderer.message(Some(ConnectionId::new(11)), None, b"CONNECTED");
    renderer.message(None, None, b"LISTEN on port 50000");
    assert_eq!(
        shown(&mut renderer),
        "\u{2023} #10 UPSTREAM hello\n\u{2023} #11 CONNECTED\n\u{2023} LISTEN on port 50000\n"
    );
    assert_eq!(shown(&mut renderer), "");
}

#[test]
fn pause_sets_off_what_follows() {
    let mut renderer = Renderer::new(false);
    renderer.tick(1000);
    renderer.message(None, None, b"one");
    renderer.tick(1499);
    renderer.message(None, None, b"two");
    renderer.tick(1999);
    renderer.message(None, None, b"three");
    renderer.tick(2000);
    renderer.header(ConnectionId::new(10), Direction::Downstream, &vec![]);
    renderer.tick(5000);
    renderer.put(b"x");
    renderer.footer(&vec![]);
    renderer.tick(5500);
    renderer.message(None, None, b"four");
    assert_eq!(
        shown(&mut renderer),
        "\u{2023} one\n\u{2023} two\n\n\u{2023} three\n\u{250c} #10 DOWNSTREAM\n\u{2502}x\n\u{2514}\n\n\u{2023} four\n"
    );
}

#[test]
fn frame_has_header_edge_and_footer() {
    let mut renderer = Renderer::new(false);
    let items = vec![b"text".to_vec(), b"block".to_vec(), b"2 bytes".to_vec()];
    renderer.header(ConnectionId::new(10), Direction::Upstream, &items);
    renderer.put(b"hi");
    renderer.put(b"!");
    renderer.nl();
    renderer.clear_line();
    renderer.put(b"there");
    renderer.clear_line();
    renderer.footer(&vec![b"done".to_vec()]);
    assert_eq!(
        shown(&mut renderer),
        "\u{250c} #10 UPSTREAM text, block, 2 bytes\n\u{2502}hi!\n\u{2502}there\n\u{2514} done\n"
    );
}

#[test]
fn colors_are_escape_sequences() {
    let mut renderer = Renderer::new(true);
    renderer.message(None, None, b"hi");
    assert_eq!(shown(&mut renderer), "\u{1b}[36m\u{2023} hi\n\u{1b}[m");

    renderer.header(ConnectionId::new(10), Direction::Upstream, &vec![]);
    renderer.put(b"a");
    assert_eq!(renderer.style(Style::Header), Style::Normal);
    assert_eq!(renderer.style(Style::Header), Style::Header);
    renderer.put(b"b");
    assert_eq!(renderer.style(Style::Error), Style::Header);
    renderer.put(b"c");
    renderer.nl();
    renderer.put(b"d");
    renderer.footer(&vec![]);
    assert_eq!(
        shown(&mut renderer),
        "\u{1b}[36m\u{250c} #10 UPSTREAM\n\u{2502}\u{1b}[ma\u{1b}[1mb\u{1b}[31mc\u{1b}[36m\n\u{2502}\u{1b}[31md\u{1b}[36m\n\u{2514}\n\u{1b}[m"
    );
}

#[test]
fn styles_leave_no_trace_without_colors() {
    let mut renderer = Renderer::new(false);
    assert_eq!(renderer.style(Style::Error), Style::Normal);
    assert_eq!(renderer.style(Style::Frame), Style::Error);
    assert_eq!(shown(&mut renderer), "");
}

#[test]
fn id_stream_marks_a_line() {
    let mut out = Vec::new();
    IdStream::of(ConnectionId::new(12), Direction::Downstream).push_text(&mut out);
    assert_eq!(out, b" #12 DOWNSTREAM".to_vec());
    let mut out = Vec::new();
    IdStream(None, Some(Direction::Upstream)).push_text(&mut out);
    assert_eq!(out, b" UPSTREAM".to_vec());
    let mut out = Vec::new();
    IdStream(None, None).push_text(&mut out);
    assert_eq!(out, b"".to_vec());
}

#[test]
fn hexdump_row_that_is_not_full() {
    let mut renderer = Renderer::new(false);
    renderer.header(ConnectionId::new(10), Direction::Upstream, &vec![]);
    let mut binary = Binary::new();
    binary.add(b'h', false, &mut renderer);
    binary.add(b'i', false, &mut renderer);
    binary.finish(&mut renderer);
    binary.finish(&mut renderer);
    renderer.footer(&vec![]);
    assert_eq!(
        shown(&mut renderer),
        "\u{250c} #10 UPSTREAM\n\u{2502} 68 69 __ __  __ __ __ __   __ __ __ __  __ __ __ __     hi\n\u{2514}\n"
    );
}

#[test]
fn hexdump_marks_headers_and_unreadable_bytes() {
    let mut renderer = Renderer::new(false);
    renderer.header(ConnectionId::new(10), Direction::Upstream, &vec![]);
    let mut binary = Binary::new();
    let bytes: [(u8, bool); 16] = [
        (0x02, true),
        (0x00, true),
        (b'h', false),
        (0x03, true),
        (0x00, true),
        (b'\n', false),
        (b'\t', false),
        (0x80, false),
        (0x7f, false),
        (b' ', false),
        (0x1f, false),
        (0xff, false),
        (b'a', false),
        (b'b', false),
        (b'c', false),
        (0x05, true),
    ];
    for (byte, is_head) in bytes {
        binary.add(byte, is_head, &mut renderer);
    }
    // the row is written out as soon as it is full
    assert_eq!(
        shown(&mut renderer),
        "\u{250c} #10 UPSTREAM\n\u{2502}\u{27e8}02 00\u{27e9}68\u{27e8}03  00\u{27e9}0a 09 80   7f 20 1f ff  61 62 63\u{27e8}05\u{27e9}    \u{2592}\u{2591}h\u{2592}\u{2591}\u{21b5}\u{2192}\u{2592}\u{7f} \u{2592}\u{2592}abc\u{2592}\n"
    );
}

#[test]
fn readable_form_of_bytes() {
    assert_eq!(Binary::readable(b'a'), b"a".to_vec());
    assert_eq!(Binary::readable(b' '), b" ".to_vec());
    assert_eq!(Binary::readable(127), vec![127u8]);
    assert_eq!(Binary::readable(b'\n'), "\u{21b5}".as_bytes().to_vec());
    assert_eq!(Binary::readable(b'\t'), "\u{2192}".as_bytes().to_vec());
    assert_eq!(Binary::readable(0), "\u{2591}".as_bytes().to_vec());
    assert_eq!(Binary::readable(1), "\u{2592}".as_bytes().to_vec());
    assert_eq!(Binary::readable(128), "\u{2592}".as_bytes().to_vec());
}
