use rav::surface::kitty::{encode, Command, Payload};

#[test]
fn base64_matches_the_standard_alphabet_and_padding() {
    // The terminal decodes this. A wrong table hands it a path that does not
    // exist, and it draws nothing without saying so.
    assert_eq!(encode(b""), "");
    assert_eq!(encode(b"f"), "Zg==");
    assert_eq!(encode(b"fo"), "Zm8=");
    assert_eq!(encode(b"foo"), "Zm9v");
    assert_eq!(encode(b"foobar"), "Zm9vYmFy");
    assert_eq!(encode(&[0xff, 0xef, 0xfe]), "/+/+", "the last two symbols");
}

#[test]
fn drawing_says_everything_the_terminal_needs() {
    let escape = Command::Draw {
        frame: "/dev/shm/rav-1-0.rgba",
        bytes: 40_000,
        width: 100,
        height: 100,
    }
    .escape();

    assert_eq!(
        escape,
        format!(
            "\x1b_Ga=T,q=2,i=1,f=32,s=100,v=100,z=0,C=1,S=40000,t=t;{}\x1b\\",
            encode(b"/dev/shm/rav-1-0.rgba"),
        ),
    );
}

#[test]
fn a_path_travels_encoded_rather_than_raw() {
    let escape = Command::Draw {
        frame: "/tmp/a,b;c/rav-0.rgba",
        bytes: 4,
        width: 1,
        height: 1,
    }
    .escape();
    assert!(!escape.contains("/tmp/a,b;c"), "the path went out raw");
    assert!(escape.contains(&encode(b"/tmp/a,b;c/rav-0.rgba")));
}

#[test]
fn asking_draws_nothing_and_erasing_takes_everything() {
    let ask = Command::Ask.escape();
    assert!(ask.contains("a=q"), "a query, so nothing appears");
    assert!(!ask.contains("a=T"), "this would put a pixel on the screen");
    assert!(ask.contains("t=d"), "three bytes need no file");

    assert_eq!(Command::Erase.escape(), "\x1b_Ga=d,d=A\x1b\\");
}

#[test]
fn every_command_is_a_complete_apc_string() {
    for command in [
        Command::Draw {
            frame: "/tmp/f",
            bytes: 1,
            width: 1,
            height: 1,
        },
        Command::Ask,
        Command::Erase,
    ] {
        let escape = command.escape();
        assert!(escape.starts_with("\x1b_G"), "{command:?} is not an APC");
        assert!(escape.ends_with("\x1b\\"), "{command:?} is unterminated");
    }
}

#[test]
fn a_frame_is_never_a_payload() {
    let frame = vec![0u8; 4096];
    let escape = Command::Draw {
        frame: "/dev/shm/f",
        bytes: frame.len(),
        width: 32,
        height: 32,
    }
    .escape();
    assert!(
        escape.len() < 120,
        "the command grew with the frame: {} bytes",
        escape.len(),
    );
}

#[test]
fn the_query_is_one_black_pixel_sent_directly() {
    assert_eq!(
        Command::Ask.escape(),
        "\x1b_Gi=1,s=1,v=1,a=q,t=d,f=24;AAAA\x1b\\"
    );
}

#[test]
fn a_payload_is_the_encoding_of_what_it_carries() {
    assert_eq!(Payload::bytes(&[0, 0, 0]).as_str(), "AAAA");
    assert_eq!(Payload::path("/tmp/x").as_str(), encode(b"/tmp/x"));
    assert_eq!(Payload::path("é").as_str(), "w6k=", "the path's UTF-8 bytes");
}

#[test]
fn an_encoding_holds_only_base64_symbols() {
    let bytes: Vec<u8> = (0..=255u8).collect();
    let text = encode(&bytes);
    assert_eq!(text.len(), 344, "four symbols per three bytes begun");
    assert!(text
        .chars()
        .all(|c| c.is_ascii_alphanumeric() || c == '+' || c == '/' || c == '='));
}

#[test]
fn sizes_are_written_in_decimal() {
    let escape = Command::Draw {
        frame: "",
        bytes: 0,
        width: u32::MAX,
        height: 10,
    }
    .escape();
    assert_eq!(
        escape,
        "\x1b_Ga=T,q=2,i=1,f=32,s=4294967295,v=10,z=0,C=1,S=0,t=t;\x1b\\"
    );
}
