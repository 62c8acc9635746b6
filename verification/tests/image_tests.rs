use base64::Engine;
use termojinal::apc::ApcExtractor;
use termojinal::image_store::{ImagePlacement, ImageStore, TerminalImage};
use termojinal::kitty::{
    parse_kitty_header, process_kitty_command, KittyAccumulator, KittyAction, KittyCommand, KittyFormat,
};
use termojinal::sixel::decode_sixel;

/// HLS (hue 0..360, lightness and saturation 0..100) to RGB, as sixel
/// palettes define it.
fn hls(h: u16, l: u16, s: u16) -> (u8, u8, u8) {
    let h = (h % 360) as f64;
    let l = l.min(100) as f64 / 100.0;
    let s = s.min(100) as f64 / 100.0;
    if s == 0.0 {
        let v = (l * 255.0) as u8;
        return (v, v, v);
    }
    let q = if l < 0.5 { l * (1.0 + s) } else { l + s - l * s };
    let p = 2.0 * l - q;
    let hk = h / 360.0;
    let to_rgb = |t: f64| -> u8 {
        let t = if t < 0.0 {
            t + 1.0
        } else if t > 1.0 {
            t - 1.0
        } else {
            t
        };
        let v = if t < 1.0 / 6.0 {
            p + (q - p) * 6.0 * t
        } else if t < 0.5 {
            q
        } else if t < 2.0 / 3.0 {
            p + (q - p) * (2.0 / 3.0 - t) * 6.0
        } else {
            p
        };
        (v * 255.0).round().min(255.0).max(0.0) as u8
    };
    (to_rgb(hk + 1.0 / 3.0), to_rgb(hk), to_rgb(hk - 1.0 / 3.0))
}

// -- Kitty header parsing --

#[test]
fn test_parse_kitty_header_basic() {
    let cmd = parse_kitty_header("a=T,f=100,i=42,s=100,v=50");
    assert_eq!(cmd.action, KittyAction::TransmitAndDisplay);
    assert_eq!(cmd.format, KittyFormat::Png);
    assert_eq!(cmd.image_id, Some(42));
    assert_eq!(cmd.width, Some(100));
    assert_eq!(cmd.height, Some(50));
    assert!(!cmd.more_chunks);
}

#[test]
fn test_parse_kitty_header_defaults() {
    let cmd = parse_kitty_header("");
    assert_eq!(cmd.action, KittyAction::TransmitAndDisplay);
    assert_eq!(cmd.format, KittyFormat::Rgba);
    assert_eq!(cmd.image_id, None);
}

#[test]
fn test_parse_kitty_header_transmit() {
    let cmd = parse_kitty_header("a=t,f=32,i=1,s=2,v=2");
    assert_eq!(cmd.action, KittyAction::Transmit);
    assert_eq!(cmd.format, KittyFormat::Rgba);
    assert_eq!(cmd.width, Some(2));
    assert_eq!(cmd.height, Some(2));
}

#[test]
fn test_parse_kitty_header_delete() {
    let cmd = parse_kitty_header("a=d,d=i,i=5");
    assert_eq!(cmd.action, KittyAction::Delete);
    assert_eq!(cmd.delete_target, Some('i'));
    assert_eq!(cmd.image_id, Some(5));
}

#[test]
fn test_parse_kitty_header_chunked() {
    let cmd = parse_kitty_header("a=T,f=100,m=1");
    assert!(cmd.more_chunks);
    let cmd2 = parse_kitty_header("m=0");
    assert!(!cmd2.more_chunks);
}

#[test]
fn test_parse_kitty_header_rgb() {
    let cmd = parse_kitty_header("a=T,f=24,s=4,v=4");
    assert_eq!(cmd.format, KittyFormat::Rgb);
}

#[test]
fn test_parse_kitty_header_place() {
    let cmd = parse_kitty_header("a=p,i=10,c=5,r=3");
    assert_eq!(cmd.action, KittyAction::Place);
    assert_eq!(cmd.image_id, Some(10));
    assert_eq!(cmd.cell_cols, Some(5));
    assert_eq!(cmd.cell_rows, Some(3));
}

// -- Kitty accumulator --

#[test]
fn test_kitty_accumulator_single_chunk() {
    let mut acc = KittyAccumulator::new();
    let pixel_data: [u8; 8] = [255, 0, 0, 255, 0, 0, 255, 255];
    let b64 = base64::engine::general_purpose::STANDARD.encode(pixel_data);

    let result = acc.feed("a=T,f=32,s=2,v=1,i=1", &b64);
    assert!(result.is_some());

    let (cmd, data) = result.unwrap();
    assert_eq!(cmd.action, KittyAction::TransmitAndDisplay);
    assert_eq!(data.len(), 8);
    assert_eq!(data, pixel_data.to_vec());
}

#[test]
fn test_kitty_accumulator_chunked() {
    let mut acc = KittyAccumulator::new();
    let pixel_data: [u8; 8] = [255, 0, 0, 255, 0, 255, 0, 255];
    let b64 = base64::engine::general_purpose::STANDARD.encode(pixel_data);

    let mid = b64.len() / 2;
    let chunk1 = &b64[..mid];
    let chunk2 = &b64[mid..];

    let result1 = acc.feed("a=T,f=32,s=2,v=1,i=2,m=1", chunk1);
    assert!(result1.is_none());

    let result2 = acc.feed("m=0", chunk2);
    assert!(result2.is_some());

    let (cmd, data) = result2.unwrap();
    assert_eq!(cmd.action, KittyAction::TransmitAndDisplay);
    assert_eq!(data, pixel_data.to_vec());
}

#[test]
fn kitty_accumulator_bad_base64_gives_empty_data() {
    let mut acc = KittyAccumulator::new();
    let (cmd, data) = acc.feed("a=T,f=32,s=1,v=1", "!!!!").unwrap();
    assert_eq!(cmd.width, Some(1));
    assert!(data.is_empty());
}

// -- Image store --

#[test]
fn test_image_store_basic() {
    let mut store = ImageStore::new();
    store.set_cell_size(8, 16);

    let img = TerminalImage { id: 1, data: vec![255; 32 * 16 * 4], width: 32, height: 16 };
    store.store_image(img);

    assert!(store.get_image(1).is_some());
    assert!(store.get_image(2).is_none());

    store.add_placement(ImagePlacement {
        image_id: 1,
        col: 0,
        row: 0,
        cell_cols: 0,
        cell_rows: 0,
        src_width: 32,
        src_height: 16,
    });

    assert_eq!(store.placements().len(), 1);
    assert_eq!(store.placements()[0].cell_cols, 4);
    assert_eq!(store.placements()[0].cell_rows, 1);

    store.delete_image(1);
    assert!(store.get_image(1).is_none());
    assert_eq!(store.placements().len(), 0);
}

#[test]
fn test_image_store_auto_id() {
    let mut store = ImageStore::new();
    assert_eq!(store.next_id(), 1);
    assert_eq!(store.next_id(), 2);
    assert_eq!(store.next_id(), 3);
}

#[test]
fn test_image_store_delete_all() {
    let mut store = ImageStore::new();
    store.store_image(TerminalImage { id: 1, data: vec![0; 16], width: 2, height: 2 });
    store.store_image(TerminalImage { id: 2, data: vec![0; 16], width: 2, height: 2 });
    store.delete_all();
    assert!(store.images().is_empty());
    assert!(store.placements().is_empty());
}

#[test]
fn image_store_get_after_store_returns_the_image() {
    let mut store = ImageStore::new();
    store.store_image(TerminalImage { id: 7, data: vec![1, 2, 3, 4], width: 1, height: 1 });
    store.store_image(TerminalImage { id: 8, data: vec![9, 9, 9, 9], width: 1, height: 1 });
    let img = store.get_image(7).unwrap();
    assert_eq!(img.data, vec![1, 2, 3, 4]);
    store.store_image(TerminalImage { id: 7, data: vec![5, 6, 7, 8], width: 1, height: 1 });
    assert_eq!(store.get_image(7).unwrap().data, vec![5, 6, 7, 8]);
    assert_eq!(store.get_image(8).unwrap().data, vec![9, 9, 9, 9]);
}

#[test]
fn image_store_take_dirty_resets() {
    let mut store = ImageStore::new();
    store.store_image(TerminalImage { id: 1, data: vec![0; 4], width: 1, height: 1 });
    assert!(store.take_dirty());
    assert!(!store.take_dirty());
}

#[test]
fn image_store_cap_placement_size() {
    let mut store = ImageStore::new();
    store.set_cell_size(8, 16);
    store.add_placement(ImagePlacement {
        image_id: 1,
        col: 0,
        row: 0,
        cell_cols: 100,
        cell_rows: 50,
        src_width: 800,
        src_height: 800,
    });
    store.cap_placement_size(10, 5);
    assert!(store.placements()[0].cell_cols <= 10);
    assert!(store.placements()[0].cell_rows <= 5);
}

// -- Sixel decoding --

#[test]
fn test_sixel_decode_simple() {
    let data = b"#0;2;100;0;0~";
    let result = decode_sixel(data, &hls);
    assert!(result.is_some());
    let img = result.unwrap();
    assert_eq!(img.width, 1);
    assert_eq!(img.height, 6);
    assert_eq!(img.data[0], 255);
    assert_eq!(img.data[1], 0);
    assert_eq!(img.data[2], 0);
    assert_eq!(img.data[3], 255);
}

#[test]
fn test_sixel_decode_repeat() {
    let data = b"#0;2;0;100;0!3~";
    let result = decode_sixel(data, &hls);
    assert!(result.is_some());
    let img = result.unwrap();
    assert_eq!(img.width, 3);
    assert_eq!(img.height, 6);
    let offset = (0 * 3 + 2) * 4;
    assert_eq!(img.data[offset as usize], 0);
    assert_eq!(img.data[offset as usize + 1], 255);
    assert_eq!(img.data[offset as usize + 2], 0);
}

#[test]
fn test_sixel_decode_newline() {
    let data = b"#0;2;100;100;100~-~";
    let result = decode_sixel(data, &hls);
    assert!(result.is_some());
    let img = result.unwrap();
    assert_eq!(img.width, 1);
    assert_eq!(img.height, 12);
}

#[test]
fn test_sixel_decode_partial_bits() {
    let data = b"#0;2;100;100;0@";
    let result = decode_sixel(data, &hls);
    assert!(result.is_some());
    let img = result.unwrap();
    assert_eq!(img.width, 1);
    assert_eq!(img.height, 6);
    assert_eq!(img.data[0], 255);
    assert_eq!(img.data[1], 255);
    assert_eq!(img.data[2], 0);
    assert_eq!(img.data[3], 255);
    assert_eq!(img.data[7], 0);
}

#[test]
fn sixel_image_shape() {
    let data = b"#1;2;0;0;100$!4N-??@$#2;1;120;50;100$A";
    let img = decode_sixel(data, &hls).unwrap();
    assert_eq!(img.width, 4);
    assert_eq!(img.height, 12);
    assert_eq!(img.height % 6, 0);
    assert_eq!(img.data.len(), (img.width * img.height * 4) as usize);
    for i in 0..(img.width * img.height) as usize {
        let a = img.data[4 * i + 3];
        assert!(a == 0 || a == 255);
    }
    assert_eq!(img.data[(5 * 4) * 4 + 3], 0);
    assert_eq!(img.data[(3 * 4 + 1) * 4 + 3], 255);
}

#[test]
fn test_sixel_decode_empty() {
    let result = decode_sixel(b"", &hls);
    assert!(result.is_none());
}

#[test]
fn sixel_hls_color_goes_through_the_converter() {
    // Color 1 in HLS: hue 120 (red in sixel's rotation), full lightness 50, saturation 100.
    let called = std::cell::Cell::new(0u32);
    let conv = |h: u16, l: u16, s: u16| {
        called.set(called.get() + 1);
        assert_eq!((h, l, s), (120, 50, 100));
        (1u8, 2u8, 3u8)
    };
    let img = decode_sixel(b"#1;1;120;50;100~", &conv).unwrap();
    assert_eq!(&img.data[0..4], &[1, 2, 3, 255]);
}

#[test]
fn sixel_default_palette_color_three() {
    // Without a color definition, color 3 of the VGA palette is used.
    let img = decode_sixel(b"#3~", &hls).unwrap();
    assert_eq!(img.width, 1);
    assert_eq!(img.data[3], 255);
}

// -- APC extractor --

#[test]
fn test_apc_extractor_basic() {
    let mut ext = ApcExtractor::new();
    let data = b"\x1b_Ghello\x1b\\world";
    let result = ext.process(data);
    assert_eq!(result.apc_payloads.len(), 1);
    assert_eq!(result.apc_payloads[0], b"Ghello");
    assert_eq!(result.passthrough, b"world");
}

#[test]
fn test_apc_extractor_no_apc() {
    let mut ext = ApcExtractor::new();
    let data = b"Hello, world!";
    let result = ext.process(data);
    assert!(result.apc_payloads.is_empty());
    assert_eq!(result.passthrough, data.to_vec());
}

#[test]
fn test_apc_extractor_esc_not_apc() {
    let mut ext = ApcExtractor::new();
    let data = b"\x1b[1;2H";
    let result = ext.process(data);
    assert!(result.apc_payloads.is_empty());
    assert_eq!(result.passthrough, data.to_vec());
}

#[test]
fn test_apc_extractor_multiple_apc() {
    let mut ext = ApcExtractor::new();
    let data = b"\x1b_Gfirst\x1b\\between\x1b_Gsecond\x1b\\after";
    let result = ext.process(data);
    assert_eq!(result.apc_payloads.len(), 2);
    assert_eq!(result.apc_payloads[0], b"Gfirst");
    assert_eq!(result.apc_payloads[1], b"Gsecond");
    assert_eq!(result.passthrough, b"betweenafter");
}

#[test]
fn test_apc_extractor_split_across_chunks() {
    let mut ext = ApcExtractor::new();
    let result1 = ext.process(b"\x1b_Gpar");
    assert!(result1.apc_payloads.is_empty());
    let result2 = ext.process(b"tial\x1b\\done");
    assert_eq!(result2.apc_payloads.len(), 1);
    assert_eq!(result2.apc_payloads[0], b"Gpartial");
    assert_eq!(result2.passthrough, b"done");
}

#[test]
fn test_apc_extractor_st_c1() {
    let mut ext = ApcExtractor::new();
    let data = b"\x1b_Gdata\x9crest";
    let result = ext.process(data);
    assert_eq!(result.apc_payloads.len(), 1);
    assert_eq!(result.apc_payloads[0], b"Gdata");
    assert_eq!(result.passthrough, b"rest");
}

#[test]
fn apc_chunking_any_split_gives_the_same_result() {
    let data: &[u8] = b"ab\x1b_Gone\x1b\\cd\x1b[0m\x1b_Gtwo\x9cef";
    let mut whole = ApcExtractor::new();
    let all = whole.process(data);
    for split in 0..=data.len() {
        let mut ext = ApcExtractor::new();
        let r1 = ext.process(&data[..split]);
        let r2 = ext.process(&data[split..]);
        let mut pass = r1.passthrough.clone();
        pass.extend_from_slice(&r2.passthrough);
        let mut payloads = r1.apc_payloads.clone();
        payloads.extend(r2.apc_payloads.iter().cloned());
        assert_eq!(pass, all.passthrough, "split at {split}");
        assert_eq!(payloads, all.apc_payloads, "split at {split}");
    }
}

#[test]
fn apc_reset_drops_a_partial_sequence() {
    let mut ext = ApcExtractor::new();
    let _ = ext.process(b"\x1b_Gpar");
    ext.reset();
    let r = ext.process(b"tial\x1b\\x");
    assert!(r.apc_payloads.is_empty());
}

// -- Kitty full pipeline --

#[test]
fn test_kitty_process_rgba() {
    let mut store = ImageStore::new();
    store.set_cell_size(8, 16);

    let pixels: Vec<u8> = vec![255, 0, 0, 255, 0, 255, 0, 255, 0, 0, 255, 255, 255, 255, 0, 255];

    let cmd = KittyCommand {
        action: KittyAction::TransmitAndDisplay,
        format: KittyFormat::Rgba,
        image_id: Some(10),
        width: Some(2),
        height: Some(2),
        transmission: 'd',
        ..KittyCommand::default()
    };

    process_kitty_command(&cmd, &pixels, &mut store, 5, 3);

    assert!(store.get_image(10).is_some());
    let img = store.get_image(10).unwrap();
    assert_eq!(img.width, 2);
    assert_eq!(img.height, 2);
    assert_eq!(img.data.len(), 16);

    assert_eq!(store.placements().len(), 1);
    assert_eq!(store.placements()[0].col, 5);
    assert_eq!(store.placements()[0].row, 3);
}

#[test]
fn test_kitty_process_rgb() {
    let mut store = ImageStore::new();
    store.set_cell_size(8, 16);

    let pixels: Vec<u8> = vec![255, 0, 0, 0, 255, 0];

    let cmd = KittyCommand {
        action: KittyAction::TransmitAndDisplay,
        format: KittyFormat::Rgb,
        image_id: Some(20),
        width: Some(2),
        height: Some(1),
        transmission: 'd',
        ..KittyCommand::default()
    };

    process_kitty_command(&cmd, &pixels, &mut store, 0, 0);

    let img = store.get_image(20).unwrap();
    assert_eq!(img.data.len(), 8);
    assert_eq!(img.data[3], 255);
    assert_eq!(img.data[7], 255);
}

#[test]
fn test_kitty_process_delete() {
    let mut store = ImageStore::new();
    store.store_image(TerminalImage { id: 1, data: vec![0; 16], width: 2, height: 2 });
    store.add_placement(ImagePlacement {
        image_id: 1,
        col: 0,
        row: 0,
        cell_cols: 1,
        cell_rows: 1,
        src_width: 2,
        src_height: 2,
    });

    let cmd = KittyCommand {
        action: KittyAction::Delete,
        image_id: Some(1),
        delete_target: Some('i'),
        ..KittyCommand::default()
    };

    process_kitty_command(&cmd, &[], &mut store, 0, 0);
    assert!(store.get_image(1).is_none());
    assert!(store.placements().is_empty());
}

#[test]
fn test_kitty_transmit_then_place() {
    let mut store = ImageStore::new();
    store.set_cell_size(8, 16);

    let pixels: Vec<u8> = vec![0; 16];

    let cmd_t = KittyCommand {
        action: KittyAction::Transmit,
        format: KittyFormat::Rgba,
        image_id: Some(5),
        width: Some(2),
        height: Some(2),
        transmission: 'd',
        ..KittyCommand::default()
    };
    process_kitty_command(&cmd_t, &pixels, &mut store, 0, 0);
    assert!(store.get_image(5).is_some());
    assert!(store.placements().is_empty());

    let cmd_p = KittyCommand {
        action: KittyAction::Place,
        image_id: Some(5),
        cell_cols: Some(3),
        cell_rows: Some(2),
        ..KittyCommand::default()
    };
    process_kitty_command(&cmd_p, &[], &mut store, 10, 5);
    assert_eq!(store.placements().len(), 1);
    assert_eq!(store.placements()[0].col, 10);
    assert_eq!(store.placements()[0].row, 5);
    assert_eq!(store.placements()[0].cell_cols, 3);
    assert_eq!(store.placements()[0].cell_rows, 2);
}

#[test]
fn kitty_png_payload_that_is_not_png_stores_nothing() {
    let mut store = ImageStore::new();
    let cmd = KittyCommand {
        action: KittyAction::TransmitAndDisplay,
        format: KittyFormat::Png,
        image_id: Some(3),
        transmission: 'd',
        ..KittyCommand::default()
    };
    process_kitty_command(&cmd, b"not a png", &mut store, 0, 0);
    assert!(store.get_image(3).is_none());
}

fn encoded(format: image::ImageFormat) -> Vec<u8> {
    let img = image::RgbaImage::from_pixel(3, 2, image::Rgba([200, 10, 20, 255]));
    let mut out = std::io::Cursor::new(Vec::new());
    image::DynamicImage::ImageRgba8(img).to_rgb8().write_to(&mut out, format).unwrap();
    out.into_inner()
}

#[test]
fn kitty_png_payload_is_decoded() {
    let png = encoded(image::ImageFormat::Png);
    assert!(termojinal::codec::is_png(&png));
    let decoded = termojinal::codec::decode_png(&png).unwrap();
    assert_eq!((decoded.width, decoded.height), (3, 2));
    assert_eq!(&decoded.data[0..4], &[200, 10, 20, 255]);
    let mut store = ImageStore::new();
    store.set_cell_size(8, 16);
    let cmd = KittyCommand {
        action: KittyAction::TransmitAndDisplay,
        format: KittyFormat::Png,
        image_id: Some(4),
        transmission: 'd',
        ..KittyCommand::default()
    };
    process_kitty_command(&cmd, &png, &mut store, 1, 1);
    let img = store.get_image(4).unwrap();
    assert_eq!((img.width, img.height), (3, 2));
    assert_eq!(img.data.len(), 24);
    assert_eq!(store.placements().len(), 1);
}

#[test]
fn jpeg_is_decoded_to_rgba() {
    let jpg = encoded(image::ImageFormat::Jpeg);
    assert!(termojinal::codec::is_jpeg(&jpg));
    assert!(!termojinal::codec::is_png(&jpg));
    let decoded = termojinal::codec::decode_jpeg(&jpg).unwrap();
    assert_eq!((decoded.width, decoded.height), (3, 2));
    assert_eq!(decoded.data.len(), 24);
    assert!(termojinal::codec::decode_png(&jpg).is_none());
}
