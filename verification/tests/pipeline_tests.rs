//! End-to-end behavior: parsing byte streams into commands, barcode
//! encoding, image commands, state updates and the layout engine.
use thermal_decoder::barcode::{BarcodeHandler, BarcodeType, EncodingFunction};
use thermal_decoder::catalog::{standard_catalog, CommandDef, HandlerKind};
use thermal_decoder::command::{CommandType, DataType, DeviceCommand, Handler, SimpleOp};
use thermal_decoder::context::{Context, PrintDirection, TextJustify};
use thermal_decoder::graphics::{GraphicsCommand, ImageFlow, TextSpan};
use thermal_decoder::layout::{barcode_rectangles, break_into_words, layout_spans};
use thermal_decoder::parser::parse_esc_pos;
use thermal_decoder::render::{
    apply_context, apply_device_command, get_device_commands, get_graphics_command, get_text,
};

fn parse(bytes: &[u8]) -> Vec<thermal_decoder::command::Command> {
    let catalog = standard_catalog();
    parse_esc_pos(&catalog, &bytes.to_vec())
}

#[test]
fn byte_conservation_over_mixed_stream() {
    let input: Vec<u8> = vec![
        0x1B, 0x40, // initialize
        b'H', b'i', b' ', // text
        0x1B, 0x45, 0x01, // emphasis on
        b'!', // more text
        0x0A, // linefeed
        0x1D, 0x6B, 0x04, b'A', 0x00, b'Z', // barcode then text
    ];
    let cmds = parse(&input);
    let mut recovered = Vec::new();
    for c in &cmds {
        recovered.extend_from_slice(&c.raw);
    }
    assert_eq!(recovered, input);
    assert!(matches!(
        cmds.first().unwrap().handler,
        Handler::Simple(SimpleOp::BeginPrintOp)
    ));
    assert!(matches!(
        cmds.last().unwrap().handler,
        Handler::Simple(SimpleOp::EndPrintOp)
    ));
}

#[test]
fn prefix_maximality_prefers_longer_prefix() {
    // A catalog where one prefix extends another: the longer must win.
    let defs = vec![
        CommandDef {
            name: "Short",
            prefix: vec![0x1D, 0x76],
            kind: CommandType::Context,
            data_type: DataType::Single,
            handler_kind: HandlerKind::Simple(SimpleOp::SetBarcodeWidth),
        },
        CommandDef {
            name: "Long",
            prefix: vec![0x1D, 0x76, 0x30],
            kind: CommandType::Graphics,
            data_type: DataType::Custom,
            handler_kind: HandlerKind::Raster,
        },
    ];
    let input = vec![0x1D, 0x76, 0x30, 0x00, 0x00, 0x00, 0x00, 0x00];
    let cmds = parse_esc_pos(&defs, &input);
    assert_eq!(cmds[1].prefix, vec![0x1D, 0x76, 0x30]);
    assert_eq!(cmds[1].name, "Long");
    // and when the third byte differs, the shorter one matches
    let input2 = vec![0x1D, 0x76, 0x31];
    let cmds2 = parse_esc_pos(&defs, &input2);
    assert_eq!(cmds2[1].prefix, vec![0x1D, 0x76]);
    assert_eq!(cmds2[1].name, "Short");
}

#[test]
fn nul_terminated_barcode() {
    // selector 4 picks Code39; the payload runs to the NUL
    let input = vec![0x1D, 0x6B, 0x04, b'A', b'B', b'C', 0x00];
    let cmds = parse(&input);
    assert_eq!(cmds.len(), 3);
    let cmd = &cmds[1];
    assert_eq!(cmd.data, b"ABC".to_vec());
    let h = match &cmd.handler {
        Handler::Barcode(h) => h,
        _ => panic!("not a barcode command"),
    };
    assert_eq!(h.kind, BarcodeType::Code39);
    assert_eq!(h.encoding, EncodingFunction::NulTerminated);
    let ctx = Context::new();
    let g = get_graphics_command(cmd, &ctx).unwrap();
    match g {
        GraphicsCommand::Barcode(b) => {
            // default point sizes come from the fresh context
            assert_eq!(b.point_width, 3);
            assert_eq!(b.point_height, 40);
            assert_eq!(b.text.text, "ABC");
            // Code39: guard, three characters and separators, guard
            assert_eq!(b.points.len(), 64);
            assert_eq!(&b.points[0..12], &[1, 0, 0, 1, 0, 1, 1, 0, 1, 1, 0, 1]);
        }
        _ => panic!("expected a barcode"),
    }
}

#[test]
fn sized_barcode() {
    // selector 73 picks Code128 with an explicit five-byte payload
    let input = vec![0x1D, 0x6B, 0x49, 0x05, b'H', b'E', b'L', b'L', b'O'];
    let cmds = parse(&input);
    let cmd = &cmds[1];
    assert_eq!(cmd.data, b"HELLO".to_vec());
    let h = match &cmd.handler {
        Handler::Barcode(h) => h,
        _ => panic!("not a barcode command"),
    };
    assert_eq!(h.kind, BarcodeType::Code128);
    assert_eq!(h.encoding, EncodingFunction::ExplicitSize);
    assert_eq!(h.capacity, 5);
}

#[test]
fn code128_code_set_strip() {
    let payload = b"{BHello{CWorld".to_vec();
    let hri = thermal_decoder::barcode::code128_strip_bytes(&payload);
    assert_eq!(hri, b"HelloWorld".to_vec());
    let adjusted = thermal_decoder::barcode::code128_adjust_bytes(&payload);
    let mut expected = Vec::new();
    expected.extend_from_slice("Ɓ".as_bytes());
    expected.extend_from_slice(b"Hello");
    expected.extend_from_slice("Ć".as_bytes());
    expected.extend_from_slice(b"World");
    assert_eq!(adjusted, expected);
}

#[test]
fn code128_encodes_with_switches_preserved() {
    let mut ctx = Context::new();
    ctx.barcode.human_readable = thermal_decoder::context::HumanReadableInterface::Below;
    let input = vec![
        0x1D, 0x6B, 0x49, 0x08, b'{', b'B', b'H', b'e', b'l', b'l', b'o', b'!',
    ];
    let cmds = parse(&input);
    let g = get_graphics_command(&cmds[1], &ctx).unwrap();
    match g {
        GraphicsCommand::Barcode(b) => {
            assert_eq!(b.text.text, "Hello!");
            assert!(b.points.len() > 0);
            assert_eq!(
                b.hri,
                thermal_decoder::context::HumanReadableInterface::Below
            );
        }
        other => {
            if let GraphicsCommand::Error(e) = other {
                panic!("encode refused: {}", e);
            }
            panic!("expected a barcode");
        }
    }
}

#[test]
fn barcode_invalid_length_is_decorated() {
    // UPC-A takes 11 or 12 digits; three is refused before encoding
    let input = vec![0x1D, 0x6B, 0x41, 0x03, b'1', b'2', b'3'];
    let cmds = parse(&input);
    let ctx = Context::new();
    match get_graphics_command(&cmds[1], &ctx).unwrap() {
        GraphicsCommand::Error(e) => {
            assert_eq!(e, "UPC A Invalid data length --> 123");
        }
        _ => panic!("expected an error"),
    }
}

#[test]
fn upc_a_encodes_twelve_digits() {
    let input = vec![
        0x1D, 0x6B, 0x41, 0x0C, b'0', b'1', b'2', b'3', b'4', b'5', b'6', b'1', b'2', b'3',
        b'4', b'5',
    ];
    let cmds = parse(&input);
    let ctx = Context::new();
    match get_graphics_command(&cmds[1], &ctx).unwrap() {
        GraphicsCommand::Barcode(b) => {
            assert!(b.points.len() > 50);
        }
        GraphicsCommand::Error(e) => panic!("refused: {}", e),
        _ => panic!("expected a barcode"),
    }
}

#[test]
fn unknown_symbology_reports_type() {
    // selector 1 picks UPC-E, a symbology this build cannot encode
    let input = vec![0x1D, 0x6B, 0x01, b'1', b'2', b'3', b'4', b'5', b'6', 0x00];
    let cmds = parse(&input);
    let ctx = Context::new();
    match get_graphics_command(&cmds[1], &ctx).unwrap() {
        GraphicsCommand::Error(e) => {
            assert!(e.starts_with("UPC E Unknown barcode type"), "{}", e);
        }
        _ => panic!("expected an error"),
    }
    // a selector with no symbology at all reports the same way
    let input2 = vec![0x1D, 0x6B, 0x4A, 0x02, b'1', b'2'];
    let cmds2 = parse(&input2);
    match get_graphics_command(&cmds2[1], &ctx).unwrap() {
        GraphicsCommand::Error(e) => {
            assert!(e.starts_with("Unknown Unknown barcode type"), "{}", e);
        }
        _ => panic!("expected an error"),
    }
}

#[test]
fn validate_data_length_agrees_with_table() {
    let table: &[(BarcodeType, fn(usize) -> bool)] = &[
        (BarcodeType::UpcA, |n| n == 11 || n == 12),
        (BarcodeType::UpcE, |n| {
            n == 6 || n == 7 || n == 8 || n == 11 || n == 12
        }),
        (BarcodeType::Ean13, |n| n == 12 || n == 13),
        (BarcodeType::Ean8, |n| n == 7 || n == 8),
        (BarcodeType::Code39, |n| n > 0),
        (BarcodeType::Itf, |n| n > 2),
        (BarcodeType::Nw7Codabar, |n| n > 2),
        (BarcodeType::Gs1DatabarOmni, |n| n == 13),
        (BarcodeType::Gs1DatabarTruncated, |n| n == 13),
        (BarcodeType::Gs1DatabarLimited, |n| n == 13),
        (BarcodeType::Code128, |n| n > 1),
        (BarcodeType::Gs1128, |n| n > 1),
        (BarcodeType::Gs1DatabarExpanded, |n| n > 1),
        (BarcodeType::Code128Auto, |n| n > 0),
        (BarcodeType::Unknown, |n| n > 0),
    ];
    for (kind, rule) in table {
        let mut h = BarcodeHandler::fresh();
        h.kind = *kind;
        for n in 0..=256usize {
            let expected = n <= 255 && rule(n);
            assert_eq!(h.validate_data_length(n), expected, "{:?} at {}", kind, n);
        }
    }
}

#[test]
fn raster_image_scaling() {
    // five header bytes: scaling 3 (double both ways), two bytes per
    // row, one row; then two bit-packed bytes of pixels
    let input = vec![
        0x1D, 0x76, 0x30, 0x03, 0x02, 0x00, 0x01, 0x00, 0xF0, 0x0F,
    ];
    let cmds = parse(&input);
    let cmd = &cmds[1];
    match &cmd.handler {
        Handler::Raster(h) => {
            assert_eq!(h.width, 16);
            assert_eq!(h.height, 1);
            assert_eq!(h.scaling, 3);
        }
        _ => panic!("not a raster command"),
    }
    let ctx = Context::new();
    match get_graphics_command(cmd, &ctx).unwrap() {
        GraphicsCommand::Image(img) => {
            assert_eq!((img.w, img.h), (32, 2));
            assert_eq!(img.pixels.len(), 64);
            assert_eq!(img.flow, ImageFlow::Block);
            // first packed byte 0xF0: four black then four white,
            // doubled horizontally
            assert_eq!(&img.pixels[0..8], &[0, 0, 0, 0, 0, 0, 0, 0]);
            assert_eq!(&img.pixels[8..16], &[255; 8]);
        }
        _ => panic!("expected an image"),
    }
}

#[test]
fn bit_image_column_command() {
    // mode 0, two columns of eight dots
    let input = vec![0x1B, 0x2A, 0x00, 0x02, 0x00, 0xFF, 0x00];
    let cmds = parse(&input);
    let cmd = &cmds[1];
    match &cmd.handler {
        Handler::BitImage(h) => {
            assert_eq!(h.width, 2);
            assert_eq!(h.height, 8);
            assert_eq!(h.capacity, 2);
        }
        _ => panic!("not a bit image"),
    }
    let ctx = Context::new();
    match get_graphics_command(cmd, &ctx).unwrap() {
        GraphicsCommand::Image(img) => {
            assert_eq!((img.w, img.h), (2, 8));
            assert_eq!(img.flow, ImageFlow::Inline);
            assert_eq!(img.pixels.len(), 16);
            // first column all set: after rotation and mirroring the
            // left pixel of every row is black
            for row in 0..8 {
                assert_eq!(img.pixels[row * 2], 0);
                assert_eq!(img.pixels[row * 2 + 1], 255);
            }
        }
        _ => panic!("expected an image"),
    }
}

#[test]
fn stored_graphics_define_and_print() {
    let mut ctx = Context::new();
    // define: declared length covers mode, function and ten body bytes
    let mut define = vec![0x1D, 0x28, 0x4C, 12, 0, 48, 83];
    define.extend_from_slice(&[48, 65, 66, 1, 8, 0, 1, 0, 49, 0xAA]);
    let cmds = parse(&define);
    let cmd = &cmds[1];
    match &cmd.handler {
        Handler::Large(h) => {
            assert_eq!(h.function, 83);
            assert_eq!(h.capacity, 10);
        }
        _ => panic!("not a large-graphics command"),
    }
    apply_context(cmd, &mut ctx);
    assert_eq!(ctx.graphics.stored_graphics.len(), 1);

    let print = vec![0x1D, 0x28, 0x4C, 4, 0, 48, 85, 65, 66];
    let cmds2 = parse(&print);
    match get_graphics_command(&cmds2[1], &ctx).unwrap() {
        GraphicsCommand::Image(img) => {
            assert_eq!((img.w, img.h), (8, 1));
            assert_eq!(img.pixels, vec![0xAA]);
            assert_eq!(img.flow, ImageFlow::Block);
        }
        _ => panic!("expected the stored image"),
    }
    // an unknown key prints nothing
    let missing = vec![0x1D, 0x28, 0x4C, 4, 0, 48, 85, 1, 2];
    let cmds3 = parse(&missing);
    assert!(get_graphics_command(&cmds3[1], &ctx).is_none());
}

#[test]
fn style_commands_update_context() {
    let mut ctx = Context::new();
    let input = vec![
        0x1B, 0x45, 0x01, // emphasis on
        0x1B, 0x7B, 0x01, // upside down on
        0x1B, 0x74, 0xFF, // code table 255: UTF-8 passthrough
        0x1B, 0x4D, 0x01, // font B
        0x1D, 0x68, 0x64, // barcode height 100
        0x1D, 0x48, 0x02, // HRI below
    ];
    for cmd in parse(&input) {
        apply_context(&cmd, &mut ctx);
    }
    assert!(ctx.text.bold);
    assert!(ctx.text.upside_down);
    assert_eq!(ctx.text.code_table, 255);
    assert!(ctx.text.decoder.use_utf8_table);
    assert_eq!(ctx.text.font, thermal_decoder::context::Font::B);
    assert_eq!(ctx.text.character_width, 9);
    assert_eq!(ctx.barcode.height, 100);
    assert_eq!(
        ctx.barcode.human_readable,
        thermal_decoder::context::HumanReadableInterface::Below
    );
}

#[test]
fn initialize_resets_via_command() {
    let mut ctx = Context::new();
    ctx.text.bold = true;
    ctx.barcode.height = 9;
    let cmds = parse(&[0x1B, 0x40]);
    apply_context(&cmds[1], &mut ctx);
    assert!(!ctx.text.bold);
    assert_eq!(ctx.barcode.height, 40);
}

#[test]
fn device_commands_from_controls() {
    let ctx = Context::new();
    let cmds = parse(&[0x0A, 0x1B, 0x64, 0x03, 0x1D, 0x21, 0x11, 0x1B, 0x61, 0x02]);
    let lf = get_device_commands(&cmds[1], &ctx).unwrap();
    assert_eq!(lf, vec![DeviceCommand::FeedLine(1)]);
    let feed_lines = get_device_commands(&cmds[2], &ctx).unwrap();
    assert_eq!(feed_lines, vec![DeviceCommand::FeedLine(3)]);
    let size = get_device_commands(&cmds[3], &ctx).unwrap();
    assert_eq!(
        size,
        vec![
            DeviceCommand::SetTextWidth(2),
            DeviceCommand::SetTextHeight(2)
        ]
    );
    let justify = get_device_commands(&cmds[4], &ctx).unwrap();
    assert_eq!(justify, vec![DeviceCommand::Justify(TextJustify::Right)]);
}

#[test]
fn device_commands_move_the_context() {
    let mut ctx = Context::new();
    let y0 = ctx.graphics.render_area.y;
    apply_device_command(&mut ctx, DeviceCommand::FeedLine(2));
    assert_eq!(ctx.graphics.render_area.y, y0 + 48);
    apply_device_command(&mut ctx, DeviceCommand::SetTextWidth(3));
    assert_eq!(ctx.text.width_mult, 3);
    apply_device_command(&mut ctx, DeviceCommand::Justify(TextJustify::Center));
    assert_eq!(ctx.text.justify, TextJustify::Center);
    apply_device_command(&mut ctx, DeviceCommand::BeginPageMode);
    assert!(ctx.page_mode.enabled);
    apply_device_command(&mut ctx, DeviceCommand::EndPageMode);
    assert!(!ctx.page_mode.enabled);
    let buffered = thermal_decoder::graphics::Image {
        pixels: vec![1, 2],
        x: 0,
        y: 0,
        w: 2,
        h: 1,
        pixel_type: thermal_decoder::graphics::PixelType::MonochromeByte,
        stretch: (1, 1),
        flow: ImageFlow::Off,
        upside_down: false,
    };
    ctx.graphics.buffer_graphics.push(buffered);
    apply_device_command(&mut ctx, DeviceCommand::ClearBufferGraphics);
    assert!(ctx.graphics.buffer_graphics.is_empty());
}

#[test]
fn page_mode_sequence_rotates_and_swaps() {
    let mut ctx = Context::new();
    let input = vec![
        0x1B, 0x4C, // enter page mode
        0x1B, 0x54, 0x03, // direction top-right-to-bottom
        0x1B, 0x57, 0, 0, 0, 0, 100, 0, 200, 0, // area w=100 h=200
    ];
    let cmds = parse(&input);
    let mut events = Vec::new();
    for cmd in &cmds {
        apply_context(cmd, &mut ctx);
        if let Some(dcs) = get_device_commands(cmd, &ctx) {
            for dc in dcs {
                if let Some(event) = apply_device_command(&mut ctx, dc) {
                    events.push(event);
                }
            }
        }
    }
    // the direction change turns the page three quarter turns while
    // the area is still empty; programming the area then recomputes
    // the swapped dimensions without further rotation
    assert_eq!(events.len(), 2);
    assert_eq!(events[0].0, thermal_decoder::context::Rotation::R270);
    assert_eq!(events[1].0, thermal_decoder::context::Rotation::R0);
    assert_eq!((events[1].1, events[1].2), (200, 100));
    assert_eq!(ctx.page_mode.direction, PrintDirection::TopRight2Bottom);
    assert_eq!(ctx.page_mode.render_area.w, 200);
    assert_eq!(ctx.page_mode.render_area.h, 100);
}

#[test]
fn text_decodes_per_code_table() {
    let mut ctx = Context::new();
    let cmds = parse(b"Caf\xE9");
    let span = get_text(&cmds[1], &ctx).unwrap();
    // single-byte table: 0xE9 is the accented e
    assert_eq!(span.text, "Café");
    ctx.text.code_table = 255;
    ctx.update_decoder();
    let cmds2 = parse("Café".as_bytes());
    let span2 = get_text(&cmds2[1], &ctx).unwrap();
    assert_eq!(span2.text, "Café");
}

#[test]
fn word_breaking_units() {
    let ctx = Context::new();
    let span = TextSpan::new("ab cd\n\tee".to_string(), &ctx);
    let words = break_into_words(&span);
    let texts: Vec<&str> = words.iter().map(|w| w.text.as_str()).collect();
    assert_eq!(texts, vec!["ab ", "cd", "\n", "\t", "ee"]);
}

#[test]
fn text_wrap_and_right_justify() {
    let mut ctx = Context::new();
    // render width of ten characters at the default cell width
    ctx.graphics.render_area.w = 120;
    ctx.graphics.render_area.x = 0;
    ctx.text.justify = TextJustify::Right;
    let spans = vec![TextSpan::new("abcdefghij klmn".to_string(), &ctx)];
    let lines = layout_spans(&mut ctx, &spans);
    assert_eq!(lines.len(), 2);
    assert_eq!(lines[0].spans.len(), 1);
    assert_eq!(lines[0].spans[0].text, "abcdefghij ");
    assert_eq!(lines[0].x_offset, 0);
    assert_eq!(lines[1].spans[0].text, "klmn");
    assert_eq!(lines[1].x_offset, (10 - 4) * 12);
    assert_eq!(lines[1].justify, TextJustify::Right);
}

#[test]
fn barcode_walk_emits_bar_rectangles() {
    let mut ctx = Context::new();
    ctx.graphics.render_area.w = 609;
    ctx.text.justify = TextJustify::Left;
    let barcode = thermal_decoder::graphics::Barcode {
        points: vec![1, 0, 1, 1, 0],
        point_width: 3,
        point_height: 40,
        hri: thermal_decoder::context::HumanReadableInterface::Off,
        text: TextSpan::new("x".to_string(), &ctx),
    };
    let y0 = ctx.get_y();
    let rects = barcode_rectangles(&mut ctx, &barcode);
    assert_eq!(rects.len(), 3);
    let xs: Vec<u32> = rects
        .iter()
        .map(|g| match g {
            thermal_decoder::graphics::VectorGraphic::Rectangle(r) => {
                assert_eq!(r.w, 3);
                assert_eq!(r.h, 40);
                assert_eq!(r.y, y0);
                r.x
            }
            _ => panic!("expected rectangles"),
        })
        .collect();
    assert_eq!(xs, vec![0, 6, 9]);
    // the cursor came home and moved below the bars
    assert_eq!(ctx.get_x(), 0);
    assert_eq!(ctx.get_y(), y0 + 40);
}

#[test]
fn utility_parsers() {
    let bytes = vec![0x34u8, 0x12, 0x78, 0x56];
    assert_eq!(thermal_decoder::util::parse_u16(&bytes, 0), 0x1234);
    assert_eq!(thermal_decoder::util::parse_u16(&bytes, 2), 0x5678);
    assert_eq!(thermal_decoder::util::parse_u16(&bytes, 9), 0);
    assert_eq!(thermal_decoder::util::parse_u32(&bytes, 0), 0x56781234);
    let flags = thermal_decoder::util::bitflags_lsb(&0b1000_0001);
    assert!(flags.0 && flags.7);
    assert!(!flags.1 && !flags.6);
    let msb = thermal_decoder::util::bitflags_msb(&0b1000_0001);
    assert!(msb.0 && msb.7);
    assert!(!msb.1);
}

#[test]
fn barcode_debug_lines() {
    let mut h = BarcodeHandler::fresh();
    let mut data = Vec::new();
    h.push(&mut data, 4);
    h.push(&mut data, b'O');
    h.push(&mut data, b'K');
    assert_eq!(h.debug(&data), "CODE 39 Barcode with 2 bytes: OK");
    let mut u = BarcodeHandler::fresh();
    let mut nodata = Vec::new();
    u.push(&mut nodata, 200);
    assert_eq!(
        u.debug(&nodata),
        "Unknown Barcode Format with Unknown encoding, a type id of 200 and 0 data bytes"
    );
}

#[test]
fn command_bytes_round_trip() {
    let input = vec![0x1D, 0x6B, 0x04, b'A', b'B', 0x00, b'X'];
    let cmds = parse(&input);
    let cmd = &cmds[1];
    if let Handler::Barcode(h) = &cmd.handler {
        let (params, data) = h.get_command_bytes(&cmd.prefix, &cmd.data);
        assert_eq!(params, vec![0x1D, 0x6B, 0x04]);
        assert_eq!(data, vec![b'A', b'B', 0x00]);
    } else {
        panic!("not a barcode");
    }
}

#[test]
fn tab_moves_to_the_next_strictly_greater_stop() {
    let mut ctx = Context::new();
    ctx.graphics.render_area.w = 609;
    ctx.graphics.render_area.x = 0;
    // from the left edge, the first stop strictly beyond x sits one
    // tab width in: eight characters of twelve pixels
    let spans = vec![TextSpan::new("\t".to_string(), &ctx)];
    layout_spans(&mut ctx, &spans);
    assert_eq!(ctx.get_x(), 96);
    // a tab sitting exactly on a stop still advances to the next one
    ctx.graphics.render_area.x = 96;
    let spans2 = vec![TextSpan::new("\t".to_string(), &ctx)];
    layout_spans(&mut ctx, &spans2);
    assert_eq!(ctx.get_x(), 192);
}

#[test]
fn empty_span_batch_changes_nothing() {
    let mut ctx = Context::new();
    let x0 = ctx.get_x();
    let y0 = ctx.get_y();
    let lines = layout_spans(&mut ctx, &Vec::new());
    assert!(lines.is_empty());
    assert_eq!((ctx.get_x(), ctx.get_y()), (x0, y0));
}

#[test]
fn raster_command_bytes_round_trip() {
    let input = vec![
        0x1D, 0x76, 0x30, 0x00, 0x02, 0x00, 0x01, 0x00, 0xAA, 0x55,
    ];
    let cmds = parse(&input);
    let cmd = &cmds[1];
    if let Handler::Raster(h) = &cmd.handler {
        let (prefix, bytes) = h.get_command_bytes(&cmd.prefix, &cmd.data);
        assert_eq!(prefix, vec![0x1D, 0x76, 0x30]);
        assert_eq!(bytes, vec![0x00, 0x02, 0x00, 0x01, 0x00, 0xAA, 0x55]);
        let mut reconstructed = prefix.clone();
        reconstructed.extend_from_slice(&bytes);
        assert_eq!(reconstructed, cmd.raw);
    } else {
        panic!("not a raster command");
    }
}
