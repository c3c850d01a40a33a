//! Each symbology encoder exercised through the public barcode path,
//! plus stream edge cases.
use thermal_decoder::catalog::standard_catalog;
use thermal_decoder::command::Handler;
use thermal_decoder::context::Context;
use thermal_decoder::graphics::GraphicsCommand;
use thermal_decoder::parser::parse_esc_pos;
use thermal_decoder::render::get_graphics_command;

fn barcode_of(selector: u8, payload: &[u8]) -> GraphicsCommand {
    let mut input = vec![0x1D, 0x6B, selector, payload.len() as u8];
    input.extend_from_slice(payload);
    let catalog = standard_catalog();
    let cmds = parse_esc_pos(&catalog, &input);
    let ctx = Context::new();
    get_graphics_command(&cmds[1], &ctx).unwrap()
}

fn expect_bars(g: GraphicsCommand) -> Vec<u8> {
    match g {
        GraphicsCommand::Barcode(b) => b.points,
        GraphicsCommand::Error(e) => panic!("encode refused: {}", e),
        _ => panic!("expected a barcode"),
    }
}

#[test]
fn ean13_encodes_thirteen_digits() {
    // 12 digits plus the right check digit
    let bars = expect_bars(barcode_of(0x43, b"0123456123458"));
    assert_eq!(bars.len(), 95);
}

#[test]
fn ean13_reads_only_the_first_twelve_digits() {
    // the encoder computes its own check digit from the first twelve
    // digits; the thirteenth byte never reaches it
    let with_right = expect_bars(barcode_of(0x43, b"0123456123458"));
    let with_wrong = expect_bars(barcode_of(0x43, b"0123456123457"));
    let twelve = expect_bars(barcode_of(0x43, b"012345612345"));
    assert_eq!(with_right, with_wrong);
    assert_eq!(with_right, twelve);
}

#[test]
fn ean8_encodes_seven_digits() {
    let bars = expect_bars(barcode_of(0x44, b"9031101"));
    assert!(bars.len() > 50);
}

#[test]
fn code93_encodes_alphanumerics() {
    let bars = expect_bars(barcode_of(0x48, b"TEST93"));
    assert!(bars.len() > 50);
}

#[test]
fn codabar_encodes_guarded_digits() {
    let bars = expect_bars(barcode_of(0x47, b"A40156B"));
    assert!(bars.len() > 40);
}

#[test]
fn itf_encodes_digit_pairs() {
    let bars = expect_bars(barcode_of(0x46, b"1234"));
    assert!(bars.len() > 20);
}

#[test]
fn code39_character_outside_alphabet_is_refused() {
    match barcode_of(0x45, b"lower") {
        GraphicsCommand::Error(e) => {
            assert_eq!(e, "CODE 39 Barcode data is invalid --> lower");
        }
        _ => panic!("expected a character error"),
    }
}

#[test]
fn code39_asterisk_guards_are_stripped_for_encoding() {
    let guarded = expect_bars(barcode_of(0x45, b"*FOO*"));
    let bare = expect_bars(barcode_of(0x45, b"FOO"));
    assert_eq!(guarded, bare);
    // the human-readable text keeps the asterisks as written
    match barcode_of(0x45, b"*FOO*") {
        GraphicsCommand::Barcode(b) => assert_eq!(b.text.text, "*FOO*"),
        _ => panic!("expected a barcode"),
    }
}

#[test]
fn empty_stream_parses_to_markers_only() {
    let catalog = standard_catalog();
    let cmds = parse_esc_pos(&catalog, &Vec::new());
    assert_eq!(cmds.len(), 2);
    assert!(cmds.iter().all(|c| c.raw.is_empty()));
}

#[test]
fn truncated_command_is_kept_best_effort() {
    // a raster image cut off in its header still comes back, and every
    // byte is accounted for
    let input = vec![0x1D, 0x76, 0x30, 0x03];
    let catalog = standard_catalog();
    let cmds = parse_esc_pos(&catalog, &input);
    assert_eq!(cmds.len(), 3);
    assert!(matches!(cmds[1].handler, Handler::Raster(_)));
    let total: usize = cmds.iter().map(|c| c.raw.len()).sum();
    assert_eq!(total, input.len());
}

#[test]
fn itf_odd_length_computes_check_digit() {
    // an odd digit count appends a computed check digit: same bars as
    // the even payload carrying that digit explicitly
    let odd = expect_bars(barcode_of(0x46, b"123"));
    let even = expect_bars(barcode_of(0x46, b"1234"));
    assert_eq!(odd.len(), even.len());
}

#[test]
fn itf_overflowing_check_digit_is_refused() {
    // 29 nines: the eight-bit weighted checksum accumulation cannot
    // hold this payload, so the encoder is never entered
    let payload = [b'9'; 29];
    match barcode_of(0x46, &payload) {
        GraphicsCommand::Error(e) => {
            assert!(
                e.starts_with("ITF Could not generate barcode data"),
                "{}",
                e
            );
        }
        _ => panic!("expected a refusal"),
    }
}
