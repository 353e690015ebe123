use image::{ImageBuffer, ImageFormat, RgbaImage};
use pastebridge::clip_commands::{
    command_of, write_done, writer_command, writers, WriteKind, Writer,
};
use pastebridge::clip_files::{
    file_name_of, file_uri_to_path, is_image_name, is_image_path, is_png_name,
    parse_gnome_copied_files, parse_uri_list, percent_decode,
};
use pastebridge::clip_image::{
    accept_pasted_image, bytes_to_png, image_file_to_png, image_paste_mime, png_to_rgba,
    rgba_to_png, take_file_png, validate_image_size, within_limits, DecodedImage, ImageProblem,
};
use pastebridge::clip_read::{
    file_identity, mac_image_type, text_paste_mime, Ask, FileFacts, Query, ReadStep, Reply,
};
use pastebridge::clip_text::{
    decode_clipboard_bytes, decode_utf16_le, looks_like_utf16_le, normalize_clipboard_text,
};
use pastebridge::clip_tools::{
    accept_output, detect_backend, discover_wayland_socket, display_wait, is_wayland_socket_name,
    linux_concealed, output_read_limit, program_wait, types_concealed, wayland_display, Backends,
    DisplayWait, ProgramWait, SocketEntry, System,
};
use pastebridge::clipboard::{same_content, Clip, Clipboard, WriteRequest};
use std::io::Cursor;

fn clip(mime: &str, bytes: &[u8]) -> Clip {
    Clip {
        mime: mime.into(),
        bytes: bytes.to_vec(),
        concealed: false,
    }
}

fn png(r: u8, g: u8, b: u8) -> Vec<u8> {
    let img: RgbaImage = ImageBuffer::from_pixel(1, 1, image::Rgba([r, g, b, 255]));
    let mut out = Cursor::new(Vec::new());
    img.write_to(&mut out, ImageFormat::Png).unwrap();
    out.into_inner()
}

fn bmp(r: u8, g: u8, b: u8) -> Vec<u8> {
    let img: RgbaImage = ImageBuffer::from_pixel(2, 1, image::Rgba([r, g, b, 255]));
    let mut out = Cursor::new(Vec::new());
    img.write_to(&mut out, ImageFormat::Bmp).unwrap();
    out.into_inner()
}

fn linux() -> Backends {
    Backends {
        system: System::Linux,
        wayland: true,
        wl_copy: true,
        wl_paste: true,
        xclip: false,
        arboard: true,
    }
}

/// Reads a clipboard whose questions `world` answers, and notes the questions.
fn read(
    clipboard: &mut Clipboard,
    b: &Backends,
    asked: &mut Vec<String>,
    world: &dyn Fn(&Query) -> Reply,
) -> Option<Clip> {
    let mut step = clipboard.read(b);
    loop {
        match step {
            ReadStep::Done(clip) => return clip,
            ReadStep::Waiting(reading) => {
                let query = reading.query();
                asked.push(format!("{:?}", query));
                let reply = world(&query);
                step = clipboard.resume(reading, reply);
            }
        }
    }
}

fn output(text: &str) -> Reply {
    Reply::Output(Some(text.as_bytes().to_vec()))
}

#[test]
fn expiry_match_requires_exact_text_content() {
    let expected = clip("text/plain", b"remote text");
    assert!(same_content(&expected, &clip("text/plain", b"remote text")));
    assert!(!same_content(&expected, &clip("text/plain", b"user edit")));
    assert!(!same_content(&expected, &clip("image/png", b"remote text")));
}

#[test]
fn expiry_match_requires_exact_image_bytes() {
    let expected = clip("image/png", &[1, 2, 3, 4]);
    assert!(same_content(&expected, &clip("image/png", &[1, 2, 3, 4])));
    assert!(!same_content(&expected, &clip("image/png", &[1, 2, 3, 5])));
}

#[test]
fn parses_uri_lists_and_gnome_file_payloads() {
    let paths = parse_uri_list("file:///tmp/a.png\n#comment\n");
    assert_eq!(paths, vec!["/tmp/a.png".to_string()]);
    let paths = parse_gnome_copied_files("copy\nfile:///tmp/a.png\nfile:///tmp/b.txt\n");
    assert_eq!(
        paths,
        vec!["/tmp/a.png".to_string(), "/tmp/b.txt".to_string()]
    );
    assert_eq!(
        file_uri_to_path("file:///home/user/My%20Photo.png"),
        Some("/home/user/My Photo.png".to_string())
    );
    assert_eq!(
        file_uri_to_path("file:///home/user/Caf%C3%A9.png"),
        Some("/home/user/Café.png".to_string())
    );
}

#[test]
fn decodes_utf16_clipboard_text() {
    let utf16 = "hi"
        .encode_utf16()
        .flat_map(|unit| unit.to_le_bytes())
        .collect::<Vec<_>>();
    assert_eq!(decode_clipboard_bytes(&utf16), Some("hi".into()));
}

#[test]
fn single_image_file_becomes_png_pixels() {
    assert!(is_image_name("vacation.jpg"));
    assert!(is_image_name("shot.PNG"));
    assert!(!is_image_name("notes.pdf"));

    let data = png(1, 2, 3);
    let photo = move |path: &str, query: &Query| match query {
        Query::Tool(Ask::WlUriList) => output(path),
        Query::Facts(_) => Reply::Facts(Some(FileFacts {
            is_file: true,
            len: 7,
            modified: 9,
        })),
        Query::Resolve(path) => Reply::Text(Some(path.clone())),
        Query::Load(path) if path.ends_with(".png") => Reply::Output(Some(data.clone())),
        Query::Load(_) => output("%PDF"),
        _ => Reply::Output(None),
    };

    let b = linux();
    let mut asked = Vec::new();
    let mut clipboard = Clipboard::open(&b);
    let found = read(&mut clipboard, &b, &mut asked, &|q| {
        photo("file:///pictures/photo.png\n", q)
    })
    .unwrap();
    assert_eq!(found.mime, "image/png");
    assert!(!found.bytes.is_empty());
    let decoded = png_to_rgba(&found.bytes).unwrap();
    assert_eq!((decoded.width, decoded.height), (1, 1));
    assert_eq!(decoded.rgba, vec![1, 2, 3, 255]);

    let mut clipboard = Clipboard::open(&b);
    let two = "file:///pictures/photo.png\nfile:///pictures/photo.png\n";
    assert!(read(&mut clipboard, &b, &mut asked, &|q| photo(two, q)).is_none());

    let mut clipboard = Clipboard::open(&b);
    assert!(read(&mut clipboard, &b, &mut asked, &|q| {
        photo("file:///pictures/notes.pdf\n", q)
    })
    .is_none());
}

#[test]
fn wayland_socket_names_are_numeric() {
    assert!(is_wayland_socket_name("wayland-0"));
    assert!(is_wayland_socket_name("wayland-1"));
    assert!(!is_wayland_socket_name("wayland-1.lock"));
    assert!(!is_wayland_socket_name("pulse"));
    assert!(!is_wayland_socket_name("wayland-"));
}

#[test]
fn discovers_wayland_socket_in_runtime_dir() {
    let entry = |name: &str, is_socket: bool, modified: i128| SocketEntry {
        name: name.to_string(),
        is_socket,
        modified,
    };
    let entries = vec![entry("wayland-1", true, 5), entry("wayland-1.lock", false, 9)];
    assert_eq!(
        discover_wayland_socket(&entries).as_deref(),
        Some("wayland-1")
    );
    let entries = vec![
        entry("wayland-0", true, 5),
        entry("wayland-2", true, 8),
        entry("wayland-3", true, 8),
        entry("wayland-4", false, 90),
    ];
    assert_eq!(
        discover_wayland_socket(&entries).as_deref(),
        Some("wayland-2")
    );
    assert_eq!(discover_wayland_socket(&vec![]), None);
}

#[test]
fn the_display_of_the_environment_comes_first() {
    let found = || Some("wayland-1".to_string());
    assert_eq!(
        wayland_display(Some("wayland-9"), found()).as_deref(),
        Some("wayland-9")
    );
    assert_eq!(wayland_display(Some(""), found()), found());
    assert_eq!(wayland_display(None, None), None);
    assert_eq!(display_wait(true, 0), DisplayWait::Ready);
    assert_eq!(display_wait(false, 29_999), DisplayWait::Sleep(250));
    assert_eq!(display_wait(false, 30_000), DisplayWait::GiveUp);
}

#[test]
fn program_output_is_bounded() {
    assert_eq!(program_wait(true, 9_000), ProgramWait::Exited);
    assert_eq!(program_wait(false, 2_999), ProgramWait::Sleep(20));
    assert_eq!(program_wait(false, 3_000), ProgramWait::Kill);
    assert_eq!(output_read_limit(4), 5);
    assert_eq!(output_read_limit(usize::MAX), usize::MAX);
    assert_eq!(accept_output(Some(vec![1, 2]), 2, true), Some(vec![1, 2]));
    assert_eq!(accept_output(Some(vec![1, 2]), 1, true), None);
    assert_eq!(accept_output(Some(vec![1, 2]), 2, false), None);
    assert_eq!(accept_output(None, 2, true), None);
}

#[test]
fn escapes_are_decoded() {
    assert_eq!(percent_decode("a%2Fb"), Some("a/b".to_string()));
    assert_eq!(percent_decode("100%"), Some("100%".to_string()));
    assert_eq!(percent_decode("%zz"), Some("%zz".to_string()));
    assert_eq!(percent_decode("%ff"), None);
    assert_eq!(file_uri_to_path("file://relative"), None);
    assert_eq!(file_uri_to_path("http://x/y"), None);
    assert!(parse_gnome_copied_files("paste\nfile:///tmp/a.png\n").is_empty());
    assert_eq!(
        parse_gnome_copied_files("\ncut\nfile:///tmp/a.png"),
        vec!["/tmp/a.png".to_string()]
    );
}

#[test]
fn file_names_are_the_last_components() {
    assert_eq!(file_name_of("/a/b.png").as_deref(), Some("b.png"));
    assert_eq!(file_name_of("/a/b.png/").as_deref(), Some("b.png"));
    assert_eq!(file_name_of("/a/.."), None);
    assert_eq!(file_name_of("/"), None);
    assert!(is_image_path("/a/b.TIFF"));
    assert!(!is_image_path("/a.png/b"));
    assert!(!is_image_name(".png"));
    assert!(is_png_name("x.Png"));
    assert!(!is_png_name("x.jpg"));
}

#[test]
fn clipboard_text_is_decoded_and_normalized() {
    assert_eq!(normalize_clipboard_text("a\0\0"), "a");
    assert_eq!(normalize_clipboard_text("a\0b"), "a\0b");
    assert_eq!(decode_clipboard_bytes(b""), None);
    assert_eq!(decode_clipboard_bytes(&[0xFF]), None);
    assert_eq!(decode_clipboard_bytes("é".as_bytes()), Some("é".into()));
    assert_eq!(
        decode_clipboard_bytes(&[0xFF, 0xFE, 0x41, 0x00]),
        Some("A".into())
    );
    assert_eq!(
        decode_utf16_le(&[0x3D, 0xD8, 0x00, 0xDE]),
        Some("\u{1F600}".into())
    );
    assert_eq!(decode_utf16_le(&[0x00, 0xDE]), None);
    assert!(looks_like_utf16_le(&[0x41, 0, 0x42, 0]));
    assert!(!looks_like_utf16_le(&[0x41, 0, 0, 0]));
    assert!(!looks_like_utf16_le(&[0x41, 0]));
}

#[test]
fn picture_sizes_are_limited() {
    assert_eq!(validate_image_size(4096, 4096), Ok(()));
    assert_eq!(
        validate_image_size(8192, 8192),
        Err(ImageProblem::TooLarge)
    );
    assert_eq!(validate_image_size(8193, 1), Err(ImageProblem::TooLarge));
    assert_eq!(
        validate_image_size(usize::MAX, 2),
        Err(ImageProblem::Overflow)
    );
    assert_eq!(
        validate_image_size(usize::MAX / 2, 1),
        Err(ImageProblem::Overflow)
    );
}

#[test]
fn pictures_survive_the_way_to_png_and_back() {
    let pixels = vec![1, 2, 3, 4, 5, 6, 7, 8];
    let encoded = rgba_to_png(2, 1, &pixels).unwrap();
    assert_ne!(encoded, pixels);
    let decoded = png_to_rgba(&encoded).unwrap();
    assert_eq!((decoded.width, decoded.height), (2, 1));
    assert_eq!(decoded.rgba, pixels);
    assert_eq!(
        rgba_to_png(2, 2, &pixels),
        Err(ImageProblem::ShortBuffer)
    );
    assert_eq!(rgba_to_png(9000, 1, &pixels), Err(ImageProblem::TooLarge));
    assert_eq!(rgba_to_png(0, 1, &pixels), Err(ImageProblem::Codec));
    assert_eq!(png_to_rgba(b"no").err(), Some(ImageProblem::Codec));
    assert_eq!(within_limits(None).err(), Some(ImageProblem::Codec));
    let wide = DecodedImage {
        width: 9000,
        height: 1,
        rgba: vec![],
    };
    assert_eq!(within_limits(Some(wide)).err(), Some(ImageProblem::TooLarge));
}

#[test]
fn other_formats_become_png() {
    let bitmap = bmp(9, 8, 7);
    let converted = bytes_to_png(&bitmap).unwrap();
    let decoded = png_to_rgba(&converted).unwrap();
    assert_eq!((decoded.width, decoded.height), (2, 1));
    assert_eq!(decoded.rgba, vec![9, 8, 7, 255, 9, 8, 7, 255]);
    assert_eq!(bytes_to_png(b"text"), None);
    assert_eq!(image_file_to_png("a.bmp", &bitmap), Some(converted.clone()));
    assert_eq!(image_file_to_png("a.png", b""), None);
    assert_eq!(image_file_to_png("a.png", &vec![0; 8_388_609]), None);
    assert_eq!(image_paste_mime(0), Some("image/png"));
    assert_eq!(image_paste_mime(6), Some("image/tiff"));
    assert_eq!(image_paste_mime(7), None);
    let direct = png(1, 1, 1);
    assert_eq!(
        accept_pasted_image("image/png", Some(direct.clone())),
        Some(direct)
    );
    assert_eq!(
        accept_pasted_image("image/bmp", Some(bitmap)),
        Some(converted)
    );
    assert_eq!(accept_pasted_image("image/png", Some(vec![])), None);
    assert_eq!(accept_pasted_image("image/png", None), None);
}

#[test]
fn password_hints_conceal() {
    assert!(types_concealed("text/plain\nx-kde-passwordManagerHint\n"));
    assert!(types_concealed("org.nspasteboard.ConcealedType"));
    assert!(!types_concealed("text/plain\nUTF8_STRING\n"));
    assert!(linux_concealed(None));
    assert!(!linux_concealed(Some(b"text/plain\xFF".to_vec())));
    assert!(linux_concealed(Some(b"\xFF concealed".to_vec())));
}

#[test]
fn backends_are_named() {
    let mut b = linux();
    assert_eq!(detect_backend(&b), "arboard+wl-clipboard");
    b.xclip = true;
    b.arboard = false;
    assert_eq!(detect_backend(&b), "wl-clipboard+xclip");
    b.system = System::MacOs;
    b.wl_copy = false;
    b.xclip = false;
    assert_eq!(detect_backend(&b), "nspasteboard");
    b.system = System::Other;
    assert_eq!(detect_backend(&b), "none");
    assert_eq!(Clipboard::open(&linux()).backend, "arboard+wl-clipboard");
}

#[test]
fn questions_become_program_calls() {
    let call = command_of(Ask::WlText(1)).unwrap();
    assert_eq!(
        call.words,
        vec!["wl-paste", "-t", "text/plain;charset=utf-8", "--no-newline"]
    );
    assert_eq!(call.max_bytes, 8_388_608);
    let call = command_of(Ask::XclipTypes).unwrap();
    assert_eq!(
        call.words,
        vec!["xclip", "-selection", "clipboard", "-t", "TARGETS", "-o"]
    );
    assert_eq!(call.max_bytes, 65_536);
    assert!(command_of(Ask::ArboardText).is_none());
    assert!(command_of(Ask::WlImage(7)).is_none());
    assert_eq!(text_paste_mime(4), Some("UTF8_STRING"));
    assert_eq!(text_paste_mime(5), None);
    assert_eq!(mac_image_type(1), Some("Apple PNG pasteboard type"));
    assert_eq!(mac_image_type(4), None);
}

#[test]
fn every_writer_is_tried() {
    let mut b = linux();
    assert_eq!(
        writers(&b, WriteKind::Text),
        vec![Writer::Arboard, Writer::WlCopy]
    );
    b.wayland = false;
    b.xclip = true;
    b.arboard = false;
    assert_eq!(writers(&b, WriteKind::Clear), vec![Writer::Xclip]);
    b.system = System::MacOs;
    b.xclip = false;
    assert_eq!(writers(&b, WriteKind::Image), vec![Writer::Pasteboard]);
    assert_eq!(writers(&b, WriteKind::Text), vec![Writer::PbCopy]);
    assert_eq!(
        writer_command(Writer::WlCopy, WriteKind::Clear),
        Some(vec!["wl-copy", "--clear"])
    );
    assert_eq!(
        writer_command(Writer::Xclip, WriteKind::Image),
        Some(vec!["xclip", "-selection", "clipboard", "-t", "image/png"])
    );
    assert_eq!(writer_command(Writer::Arboard, WriteKind::Text), None);
    assert!(write_done(&vec![false, true]));
    assert!(!write_done(&vec![false, false]));
    assert!(!write_done(&vec![]));
}

#[test]
fn reading_prefers_pixels_over_text() {
    let b = linux();
    let picture = png(4, 5, 6);
    let expected = picture.clone();
    let mut clipboard = Clipboard::open(&b);
    let mut asked = Vec::new();
    let found = read(&mut clipboard, &b, &mut asked, &|query| match query {
        Query::Tool(Ask::WlTypes) => output("image/png\ntext/html\n"),
        Query::Tool(Ask::WlImage(0)) => Reply::Output(Some(picture.clone())),
        Query::Tool(Ask::WlText(_)) => output("<img>"),
        _ => Reply::Output(None),
    })
    .unwrap();
    assert_eq!(found.mime, "image/png");
    assert_eq!(found.bytes, expected);
    assert!(!found.concealed);
    assert_eq!(
        asked,
        vec![
            "Tool(WlTypes)",
            "Tool(WlGnomeFiles)",
            "Tool(WlUriList)",
            "Tool(WlImage(0))"
        ]
    );
}

#[test]
fn reading_falls_back_to_text() {
    let b = linux();
    let mut clipboard = Clipboard::open(&b);
    let mut asked = Vec::new();
    let found = read(&mut clipboard, &b, &mut asked, &|query| match query {
        Query::Tool(Ask::WlTypes) => output("text/plain\nconcealed\n"),
        Query::Tool(Ask::WlText(2)) => output("secret\0"),
        Query::Tool(Ask::WlText(0)) => output("\0"),
        Query::Tool(Ask::ArboardImage) => Reply::Picture(None),
        _ => Reply::Output(None),
    })
    .unwrap();
    assert_eq!(found.mime, "text/plain");
    assert_eq!(found.bytes, b"secret");
    assert!(found.concealed);
    assert_eq!(asked.len(), 1 + 2 + 8 + 3);
}

#[test]
fn reading_without_a_backend_finds_nothing() {
    let b = Backends {
        system: System::Linux,
        wayland: true,
        wl_copy: false,
        wl_paste: false,
        xclip: true,
        arboard: true,
    };
    let mut clipboard = Clipboard::open(&b);
    let mut asked = Vec::new();
    let found = read(&mut clipboard, &b, &mut asked, &|query| match query {
        Query::Tool(Ask::ArboardText) => Reply::Text(Some("x".into())),
        _ => Reply::Picture(None),
    })
    .unwrap();
    assert!(found.concealed);
    assert_eq!(found.bytes, b"x");
    assert_eq!(asked, vec!["Tool(ArboardImage)", "Tool(ArboardText)"]);

    let b = Backends {
        system: System::Other,
        wayland: false,
        wl_copy: false,
        wl_paste: false,
        xclip: false,
        arboard: false,
    };
    assert!(read(&mut clipboard, &b, &mut asked, &|_| output("x")).is_none());
}

#[test]
fn reading_on_macos_asks_the_pasteboard() {
    let b = Backends {
        system: System::MacOs,
        wayland: false,
        wl_copy: false,
        wl_paste: false,
        xclip: false,
        arboard: false,
    };
    let mut clipboard = Clipboard::open(&b);
    let mut asked = Vec::new();
    let bitmap = bmp(1, 2, 3);
    let found = read(&mut clipboard, &b, &mut asked, &|query| match query {
        Query::Tool(Ask::MacConcealed) => Reply::Flag(false),
        Query::Tool(Ask::MacFileNames) => Reply::Paths(vec![]),
        Query::Tool(Ask::MacImage(2)) => Reply::Output(Some(bitmap.clone())),
        _ => Reply::Output(None),
    })
    .unwrap();
    assert_eq!(found.mime, "image/png");
    assert!(!found.concealed);
    let found = read(&mut clipboard, &b, &mut asked, &|query| match query {
        Query::Tool(Ask::MacConcealed) => Reply::Flag(true),
        Query::Tool(Ask::MacImage(0)) => output("as it is"),
        _ => Reply::Output(None),
    })
    .unwrap();
    assert_eq!(found.bytes, b"as it is");
    assert!(found.concealed);
    let found = read(&mut clipboard, &b, &mut asked, &|query| match query {
        Query::Tool(Ask::PbText) => output("pasted"),
        _ => Reply::Output(None),
    })
    .unwrap();
    assert_eq!(found.bytes, b"pasted");
}

#[test]
fn a_picture_file_is_read_once() {
    let b = linux();
    let mut clipboard = Clipboard::open(&b);
    let data = png(7, 7, 7);
    let world = |query: &Query| match query {
        Query::Tool(Ask::WlTypes) => output("text/uri-list\n"),
        Query::Tool(Ask::WlGnomeFiles) => output("copy\nfile:///p/a.png\n"),
        Query::Facts(_) => Reply::Facts(Some(FileFacts {
            is_file: true,
            len: 3,
            modified: 4,
        })),
        Query::Resolve(_) => Reply::Text(Some("/real/a.png".into())),
        Query::Load(path) if path == "/real/a.png" => Reply::Output(Some(data.clone())),
        _ => Reply::Output(None),
    };
    let mut first = Vec::new();
    let one = read(&mut clipboard, &b, &mut first, &world).unwrap();
    let mut second = Vec::new();
    let two = read(&mut clipboard, &b, &mut second, &world).unwrap();
    assert!(same_content(&one, &two));
    assert_eq!(first.len(), 5);
    assert_eq!(
        second,
        vec![
            "Tool(WlTypes)",
            "Tool(WlGnomeFiles)",
            "Facts(\"/p/a.png\")"
        ]
    );
    clipboard.clear_file_cache();
    let mut third = Vec::new();
    read(&mut clipboard, &b, &mut third, &world).unwrap();
    assert_eq!(third.len(), 5);
}

#[test]
fn a_picture_file_is_marked_anew() {
    let b = linux();
    let mut clipboard = Clipboard::open(&b);
    let data = png(7, 7, 7);
    let world = |types: &str, query: &Query| match query {
        Query::Tool(Ask::WlTypes) => output(types),
        Query::Tool(Ask::WlGnomeFiles) => output("copy\nfile:///p/a.png\n"),
        Query::Facts(_) => Reply::Facts(Some(FileFacts {
            is_file: true,
            len: 3,
            modified: 4,
        })),
        Query::Load(_) => Reply::Output(Some(data.clone())),
        _ => Reply::Output(None),
    };
    let mut asked = Vec::new();
    let plain = |q: &Query| world("text/uri-list\n", q);
    let secret = |q: &Query| world("x-kde-passwordManagerHint\n", q);
    assert!(!read(&mut clipboard, &b, &mut asked, &plain).unwrap().concealed);
    let found = read(&mut clipboard, &b, &mut asked, &secret).unwrap();
    assert!(found.concealed);
    assert!(!found.bytes.is_empty());
    assert!(!read(&mut clipboard, &b, &mut asked, &plain).unwrap().concealed);
}

#[test]
fn files_are_known_by_path_length_and_time() {
    let facts = FileFacts {
        is_file: true,
        len: 12,
        modified: 340,
    };
    assert_eq!(
        file_identity("/a b", Some(facts)).as_deref(),
        Some("/a b:12:340")
    );
    let dir = FileFacts {
        is_file: false,
        len: 12,
        modified: 340,
    };
    assert_eq!(file_identity("/a", Some(dir)), None);
    assert_eq!(file_identity("/a", None), None);
}

#[test]
fn a_clip_is_news_once() {
    let mut clipboard = Clipboard::open(&linux());
    let found = clip("text/plain", b"one");
    assert!(clipboard.poll(Some(found.clone())).is_some());
    assert!(clipboard.poll(Some(found.clone())).is_none());
    assert!(clipboard.poll(Some(clip("text/plain", b"two"))).is_some());
    assert!(clipboard.poll(Some(found)).is_some());
    assert!(clipboard.poll(Some(clip("text/plain", b""))).is_none());
    assert!(clipboard.poll(None).is_none());
}

#[test]
fn a_clip_from_a_peer_is_not_sent_back() {
    let mut clipboard = Clipboard::open(&linux());
    let remote = clip("text/plain", b"remote");
    match clipboard.set(&remote) {
        Ok(WriteRequest::Text(text)) => assert_eq!(text, "remote"),
        _ => panic!("a text was expected"),
    }
    assert!(clipboard.poll(Some(remote.clone())).is_none());
    assert!(clipboard.poll(Some(clip("text/plain", b"own"))).is_some());
    assert!(clipboard.poll(Some(remote)).is_none());
}

#[test]
fn clips_are_turned_into_writes() {
    let mut clipboard = Clipboard::open(&linux());
    match clipboard.set(&clip("image/png", &png(1, 2, 3))) {
        Ok(WriteRequest::Image(image)) => assert_eq!(image.rgba, vec![1, 2, 3, 255]),
        _ => panic!("a picture was expected"),
    }
    match clipboard.set(&clip("image/png", b"broken")) {
        Err(problem) => assert_eq!(problem, ImageProblem::Codec),
        _ => panic!("a fault was expected"),
    }
    match clipboard.set(&clip("text/html", b"a\xFFb")) {
        Ok(WriteRequest::Text(text)) => assert_eq!(text, "a\u{FFFD}b"),
        _ => panic!("a text was expected"),
    }
}

#[test]
fn only_the_same_clip_is_cleared() {
    let expected = clip("text/plain", b"remote");
    assert!(Clipboard::clear_if_matches(
        Some(&clip("text/plain", b"remote")),
        &expected
    ));
    assert!(!Clipboard::clear_if_matches(
        Some(&clip("text/plain", b"edited")),
        &expected
    ));
    assert!(!Clipboard::clear_if_matches(None, &expected));
}

#[test]
fn converted_picture_files_come_first() {
    assert_eq!(take_file_png(&[1], Some(vec![2]), true), Some(vec![2]));
    assert_eq!(take_file_png(&[1], None, true), Some(vec![1]));
    assert_eq!(take_file_png(&[1], None, false), None);
}

#[test]
fn hashes_decide_what_is_new() {
    let backends = Backends {
        system: System::Linux,
        wayland: false,
        wl_copy: false,
        wl_paste: false,
        xclip: false,
        arboard: false,
    };
    let mut clipboard = Clipboard::open(&backends);
    assert!(clipboard.note_found("one".into()));
    assert!(!clipboard.note_found("one".into()));
    clipboard.note_set("two".into());
    assert!(!clipboard.note_found("two".into()));
    assert!(clipboard.note_found("one".into()));
    assert!(!clipboard.note_found("two".into()));
}
