use swal_files::files_preview::audio::{check_audio_format, AudioError, AudioFormat, AudioPreviewer};
use swal_files::files_preview::hex::{HexChunkConfig, HexError, HexInspector};
use swal_files::files_preview::image::{
    check_image_format, extract_dimensions, has_alpha, svg_data_url, svg_rgba_placeholder, generate_ascii_art, raster_thumbnail, url_encode, Dimensions, FitMode, ImageError,
    ImageFormat, ThumbnailOptions, ThumbnailOutputFormat,
};
use swal_files::files_preview::syntax::{
    truncate_code, Color, FontStyle, HighlightOptions, SyntaxError, SyntaxHighlighter,
};

// ---------------------------------------------------------------- audio

#[test]
fn test_format_detection() {
    assert_eq!(AudioFormat::from_bytes(b"ID3\x03\x00\x00"), AudioFormat::Mp3);
    assert_eq!(AudioFormat::from_bytes(b"fLaC\x00\x00"), AudioFormat::Flac);
    assert_eq!(AudioFormat::from_bytes(b"RIFF\x00\x00\x00\x00WAVE"), AudioFormat::Wav);
    assert_eq!(AudioFormat::from_bytes(b"OggS\x00\x02"), AudioFormat::Ogg);
    assert_eq!(AudioFormat::from_extension("mp3"), AudioFormat::Mp3);
    assert_eq!(AudioFormat::Mp3.mime_type(), "audio/mpeg");
}

#[test]
fn test_mp3_wav_flac_ogg_waveform() {
    let mut bytes = vec![0u8; 1024];
    bytes[0..3].copy_from_slice(b"ID3");
    let meta = AudioPreviewer::parse_metadata(&bytes, 1024).unwrap();
    assert_eq!(meta.format, AudioFormat::Mp3);
    let wave = AudioPreviewer::waveform_levels(&bytes, 16).unwrap();
    assert_eq!(wave.len(), 16);

    let mut wav = b"RIFF\x00\x00\x00\x00WAVEfmt \x10\x00\x00\x00\x01\x00\x02\x00\x44\xAC\x00\x00\x10\xB1\x02\x00\x04\x00\x10\x00data\x00\x00\x00\x00".to_vec();
    wav.extend_from_slice(b"\nTITLE=Sample Wav\nARTIST=Tester\n");
    let meta_wav = AudioPreviewer::parse_metadata(&wav, wav.len() as u64).unwrap();
    assert_eq!(meta_wav.title, Some("Sample Wav".to_string()));

    let flac = b"fLaC\x00\x00\x00\x22\x10\x00\x10\x00\x00\x00\x00\x00\x00\x0A\xC4\x40\x00\x00\x00\x00\x00\x00\x00\x00\x00\x00\x00\x00\x00\x00\x00\x00\x00\x00\nTITLE=Flac Song\n";
    assert_eq!(
        AudioPreviewer::parse_metadata(flac, flac.len() as u64).unwrap().title,
        Some("Flac Song".to_string())
    );
}

#[test]
fn wav_header_fields() {
    let mut wav = b"RIFF\x00\x00\x00\x00WAVEfmt \x10\x00\x00\x00\x01\x00\x02\x00\x44\xAC\x00\x00\x10\xB1\x02\x00\x04\x00\x10\x00data\x00\x00\x00\x00".to_vec();
    wav.extend_from_slice(b"\nartist=Tester\n");
    let meta = AudioPreviewer::parse_metadata(&wav, 176400).unwrap();
    assert_eq!(meta.channels, Some(2));
    assert_eq!(meta.sample_rate, Some(44100));
    assert_eq!(meta.bitrate_kbps, Some(1411));
    assert_eq!(meta.duration, Some((176400, 176400)));
    assert_eq!(meta.artist, Some("Tester".to_string()));
    assert_eq!(meta.title, None);
}

#[test]
fn mp3_id3_frames_and_nominal_values() {
    let mut b = b"ID3\x03\x00\x00\x00\x00\x00\x20".to_vec();
    b.extend_from_slice(b"TIT2\x00\x00\x00\x06\x00\x00\x00Song\x00");
    b.extend_from_slice(b"TPE1\x00\x00\x00\x04\x00\x00\x00Bob");
    b.resize(64, 0);
    let meta = AudioPreviewer::parse_metadata(&b, 24000).unwrap();
    assert_eq!(meta.title, Some("Song".to_string()));
    assert_eq!(meta.artist, Some("Bob".to_string()));
    assert_eq!(meta.album, None);
    assert_eq!(meta.bitrate_kbps, Some(192));
    assert_eq!(meta.duration, Some((192000, 192000)));
}

#[test]
fn flac_stream_info() {
    let mut flac = b"fLaC\x00\x00\x00\x22\x10\x00\x10\x00\x00\x00\x00\x00\x00\x00\x0A\xC4\x42\x00\x00\x00\xAC\x44".to_vec();
    flac.resize(42, 0);
    let meta = AudioPreviewer::parse_metadata(&flac, 1000).unwrap();
    assert_eq!(meta.sample_rate, Some(44100));
    assert_eq!(meta.channels, Some(2));
    assert_eq!(meta.duration, Some((44100, 44100)));
    assert_eq!(meta.bitrate_kbps, None);
}

#[test]
fn audio_errors() {
    assert_eq!(
        AudioPreviewer::parse_metadata(b"junk", 4),
        Err(AudioError::UnsupportedFormat("Unknown audio format".into()))
    );
    assert_eq!(check_audio_format(b""), Ok(AudioFormat::Unknown));
    assert_eq!(
        AudioPreviewer::waveform_levels(b"", 8),
        Err(AudioError::ParsingFailed("Empty payload".into()))
    );
    assert_eq!(AudioError::InvalidHeader.to_string(), "Invalid audio header");
}

#[test]
fn waveform_levels_values() {
    let mut b = b"OggS".to_vec();
    b.extend_from_slice(&[128, 0, 255, 128]);
    let levels = AudioPreviewer::waveform_levels(&b, 8).unwrap();
    assert_eq!(levels.len(), 8);
    assert_eq!(levels[4], 0);
    assert_eq!(levels[5], 128);
    assert_eq!(levels[6], 127);
}

// ---------------------------------------------------------------- hex

#[test]
fn test_inspect_bytes_default() {
    let inspector = HexInspector::default();
    let rows = inspector.inspect_bytes(b"Hello, World!");
    assert_eq!(rows.len(), 1);
    assert_eq!(rows[0].offset, 0);
    assert_eq!(rows[0].ascii, "Hello, World!");
    assert_eq!(rows[0].hex_bytes, "48 65 6c 6c 6f 2c 20 57 6f 72 6c 64 21");
    let line = rows[0].format_line(16);
    assert!(line.starts_with("00000000"));
    assert!(line.contains("|Hello, World!|"));
}

#[test]
fn test_custom_config_and_uppercase() {
    let config = HexChunkConfig { bytes_per_row: 8, max_bytes: 100, uppercase: true };
    let inspector = HexInspector::new(config);
    let rows = inspector.inspect_bytes(b"ABCDEFGH1234");
    assert_eq!(rows.len(), 2);
    assert_eq!(rows[0].hex_bytes, "41 42 43 44 45 46 47 48");
    assert_eq!(rows[1].offset, 8);
    assert_eq!(rows[1].hex_bytes, "31 32 33 34");
}

#[test]
fn test_max_bytes_and_non_printable() {
    let config = HexChunkConfig { bytes_per_row: 16, max_bytes: 4, uppercase: false };
    let inspector = HexInspector::new(config);
    let rows = inspector.inspect_bytes(&[0x00, 0x07, b'A', 0xFF, 0x10, 0x20]);
    assert_eq!(rows.len(), 1);
    assert_eq!(rows[0].bytes.len(), 4);
    assert_eq!(rows[0].ascii, "..A.");
}

#[test]
fn inspector_reports_its_read_limit() {
    let inspector = HexInspector::new(HexChunkConfig { bytes_per_row: 4, max_bytes: 12, uppercase: false });
    assert_eq!(inspector.max_bytes(), 12);
    assert_eq!(HexInspector::default().max_bytes(), 1_000_000);
}

#[test]
fn test_empty_input_and_errors() {
    let inspector = HexInspector::default();
    assert!(inspector.inspect_bytes(&[]).is_empty());
    let err1 = HexError::IoError("not found".to_string());
    assert_eq!(err1.to_string(), "IO Error: not found");
    let err2 = HexError::ExceedsLimit { size: 200, limit: 100 };
    assert_eq!(err2.to_string(), "Size (200 bytes) exceeds limit (100 bytes)");
}

#[test]
fn hex_uppercase_letters() {
    let config = HexChunkConfig { bytes_per_row: 4, max_bytes: 10, uppercase: true };
    let rows = HexInspector::new(config).inspect_bytes(&[0xab, 0x0f]);
    assert_eq!(rows[0].hex_bytes, "AB 0F");
}

// ---------------------------------------------------------------- image

#[test]
fn test_format_detection_from_bytes() {
    assert_eq!(ImageFormat::from_bytes(&[0x89, 0x50, 0x4E, 0x47, 0x0D, 0x0A, 0x1A, 0x0A]), ImageFormat::Png);
    assert_eq!(ImageFormat::from_bytes(&[0xFF, 0xD8, 0xFF, 0xE0]), ImageFormat::Jpeg);
    assert_eq!(ImageFormat::from_bytes(b"GIF89a..."), ImageFormat::Gif);
    assert_eq!(ImageFormat::from_bytes(b"BM...."), ImageFormat::Bmp);
    assert_eq!(ImageFormat::from_bytes(b"RIFF\x00\x00\x00\x00WEBP"), ImageFormat::WebP);
    assert_eq!(ImageFormat::from_bytes(b"<svg xmlns='http://www.w3.org/2000/svg'></svg>"), ImageFormat::Svg);
    assert_eq!(ImageFormat::from_bytes(&[0x00, 0x00, 0x01, 0x00]), ImageFormat::Ico);
    assert_eq!(ImageFormat::from_bytes(b"unknown data"), ImageFormat::Unknown);
}

#[test]
fn test_format_from_extension() {
    assert_eq!(ImageFormat::from_extension("png"), ImageFormat::Png);
    assert_eq!(ImageFormat::from_extension("JPG"), ImageFormat::Jpeg);
    assert_eq!(ImageFormat::from_extension("svg"), ImageFormat::Svg);
    assert_eq!(ImageFormat::from_extension("webp"), ImageFormat::WebP);
    assert_eq!(ImageFormat::from_extension("xyz"), ImageFormat::Unknown);
}

#[test]
fn test_mime_type() {
    assert_eq!(ImageFormat::Png.mime_type(), "image/png");
    assert_eq!(ImageFormat::Jpeg.mime_type(), "image/jpeg");
    assert_eq!(ImageFormat::Svg.mime_type(), "image/svg+xml");
}

fn png_header(w: u32, h: u32, color_type: u8) -> Vec<u8> {
    let mut png_bytes = vec![0x89, 0x50, 0x4E, 0x47, 0x0D, 0x0A, 0x1A, 0x0A];
    png_bytes.extend_from_slice(&[0; 8]);
    png_bytes.extend_from_slice(&w.to_be_bytes());
    png_bytes.extend_from_slice(&h.to_be_bytes());
    png_bytes.extend_from_slice(&[8, color_type, 0, 0, 0]);
    png_bytes
}

#[test]
fn test_png_dimensions_extraction() {
    let png_bytes = png_header(640, 480, 6);
    let dims = extract_dimensions(&png_bytes, None).unwrap();
    assert_eq!(dims, Dimensions::new(640, 480));
}

#[test]
fn test_gif_dimensions_extraction() {
    let mut gif_bytes = b"GIF89a".to_vec();
    gif_bytes.extend_from_slice(&320u16.to_le_bytes());
    gif_bytes.extend_from_slice(&240u16.to_le_bytes());

    let dims = extract_dimensions(&gif_bytes, None).unwrap();
    assert_eq!(dims, Dimensions::new(320, 240));
}

#[test]
fn test_bmp_dimensions_extraction() {
    let mut bmp_bytes = b"BM".to_vec();
    bmp_bytes.resize(18, 0);
    bmp_bytes.extend_from_slice(&800i32.to_le_bytes());
    bmp_bytes.extend_from_slice(&600i32.to_le_bytes());

    let dims = extract_dimensions(&bmp_bytes, None).unwrap();
    assert_eq!(dims, Dimensions::new(800, 600));
}

#[test]
fn short_headers_have_no_dimensions() {
    assert_eq!(extract_dimensions(b"GIF89a\x01", None), None);
    assert_eq!(extract_dimensions(b"<svg></svg>", Some(Dimensions::new(3, 4))), Some(Dimensions::new(3, 4)));
}

#[test]
fn test_ascii_art_generation() {
    let dummy_bytes = vec![0u8, 50, 100, 150, 200, 255];
    let ascii = generate_ascii_art(&dummy_bytes, 20, 10).unwrap();
    assert_eq!(ascii.lines().count(), 10);
    assert!(ascii.contains('#') || ascii.contains('@') || ascii.contains('.'));
}

#[test]
fn ascii_art_of_empty_buffer_fails() {
    assert_eq!(
        generate_ascii_art(&[], 20, 10),
        Err(ImageError::ProcessingFailed("Empty buffer provided".into()))
    );
}

#[test]
fn raster_thumbnail_keeps_target_and_format() {
    let png = png_header(800, 600, 2);
    let options = ThumbnailOptions {
        max_width: 200,
        max_height: 200,
        fit_mode: FitMode::Fit,
        output_format: ThumbnailOutputFormat::DataUrlSvg,
    };
    let original = extract_dimensions(&png, None);
    let thumb = raster_thumbnail(&png, &options, original, Dimensions::new(200, 150)).unwrap();
    assert_eq!(thumb.dimensions, Dimensions::new(200, 150));
    assert_eq!(thumb.original_dimensions, Some(Dimensions::new(800, 600)));
    assert_eq!(thumb.format, ImageFormat::Png);
    assert!(thumb.data.starts_with("data:image/svg+xml;utf8,"));
}

#[test]
fn url_encoding() {
    assert_eq!(url_encode("a b<"), "a%20b%3C");
    assert_eq!(url_encode("é"), "%C3%A9");
}

#[test]
fn image_alpha_and_format_check() {
    assert!(has_alpha(&png_header(4, 4, 6)));
    assert!(has_alpha(&png_header(4, 4, 4)));
    assert!(!has_alpha(&png_header(4, 4, 2)));
    assert!(has_alpha(b"GIF89a\x01\x00\x01\x00"));
    assert!(has_alpha(b"<svg width='1' height='1'></svg>"));
    assert!(!has_alpha(b"BM\x00\x00"));
    assert_eq!(check_image_format(b""), Ok(ImageFormat::Unknown));
    assert_eq!(check_image_format(&png_header(1, 1, 6)), Ok(ImageFormat::Png));
    assert_eq!(
        check_image_format(b"\x01\x02\x03"),
        Err(ImageError::UnsupportedFormat("Unknown image binary format".to_string()))
    );
}

#[test]
fn image_test_error_formatting() {
    let err = ImageError::UnsupportedFormat("TIFF".to_string());
    assert_eq!(err.to_string(), "Unsupported image format: TIFF");
}

// ---------------------------------------------------------------- syntax

#[test]
fn test_color_and_font_style() {
    let c = Color::new(255, 128, 0, 255);
    assert_eq!(c.to_hex_string(), "#ff8000ff");
    assert_eq!(c.to_rgb_hex_string(), "#ff8000");

    let syntect_c = syntect::highlighting::Color { r: 10, g: 20, b: 30, a: 255 };
    let c2 = Color::from_syntect(syntect_c);
    assert_eq!(c2.r, 10);
    assert_eq!(c2.g, 20);
    assert_eq!(c2.b, 30);

    let fs = FontStyle::from_syntect(
        syntect::highlighting::FontStyle::BOLD | syntect::highlighting::FontStyle::ITALIC,
    );
    assert!(fs.bold);
    assert!(fs.italic);
    assert!(!fs.underline);
}

#[test]
fn test_language_detection() {
    let highlighter = SyntaxHighlighter::new();
    assert_eq!(highlighter.detect_language("main.rs", None), "Rust");
    assert_eq!(highlighter.detect_language("script.py", None), "Python");
    assert_eq!(highlighter.detect_language("index.js", None), "JavaScript");
    assert_eq!(
        highlighter.detect_language("unknown.xyz_123", Some("#!/bin/bash")),
        "Bourne Again Shell (bash)"
    );
    assert_eq!(highlighter.detect_language("unknown.xyz_123", None), "Plain Text");
}

#[test]
fn test_highlight_to_html() {
    let highlighter = SyntaxHighlighter::new();
    let options = HighlightOptions::default();
    let code = "fn main() {\n    println!(\"Hello, world!\");\n}";
    let output = highlighter.highlight_to_html(code, "main.rs", &options).unwrap();
    assert_eq!(output.language, "Rust");
    assert_eq!(output.line_count, 3);
    assert!(!output.truncated);
    assert!(output.content.contains("<span"));
    assert!(output.content.contains("main"));
}

#[test]
fn test_highlight_to_ansi() {
    let highlighter = SyntaxHighlighter::new();
    let mut options = HighlightOptions::default();
    options.render_line_numbers = true;
    let code = "let x = 42;";
    let output = highlighter.highlight_to_ansi(code, "test.rs", &options).unwrap();
    assert_eq!(output.language, "Rust");
    assert!(output.content.contains("1 |"));
    assert!(output.content.contains("x"));
}

#[test]
fn ansi_lines_are_numbered_in_four_columns() {
    let highlighter = SyntaxHighlighter::new();
    let mut options = HighlightOptions::default();
    options.render_line_numbers = true;
    let output = highlighter.highlight_to_ansi("a\nb", "notes.txt", &options).unwrap();
    assert!(output.content.starts_with("   1 | "));
    assert!(output.content.contains("\n   2 | "));
    assert!(output.content.ends_with('\n'));
    assert_eq!(output.content.matches('\n').count(), 2);
}

#[test]
fn test_highlight_to_lines() {
    let highlighter = SyntaxHighlighter::new();
    let options = HighlightOptions::default();
    let code = "struct Point {\n    x: i32,\n}";
    let lines = highlighter.highlight_to_lines(code, "point.rs", &options).unwrap();
    assert_eq!(lines.len(), 3);
    assert_eq!(lines[0].line_number, 1);
    assert!(!lines[0].spans.is_empty());
    let joined: String = lines[0].spans.iter().map(|s| s.text.as_str()).collect();
    assert_eq!(joined, "struct Point {");
}

#[test]
fn test_highlight_to_html_lines() {
    let highlighter = SyntaxHighlighter::new();
    let options = HighlightOptions::default();
    let code = "let a = 10;\nlet b = 20;";
    let html_lines = highlighter.highlight_to_html_lines(code, "test.rs", &options).unwrap();
    assert_eq!(html_lines.len(), 2);
    assert!(html_lines[0].contains("<span"));
}

#[test]
fn test_truncation() {
    let highlighter = SyntaxHighlighter::new();
    let mut options = HighlightOptions::default();
    options.max_lines = Some(2);
    let code = "line 1\nline 2\nline 3\nline 4";
    let output = highlighter.highlight_to_html(code, "file.txt", &options).unwrap();
    assert_eq!(output.line_count, 4);
    assert!(output.truncated);
}

#[test]
fn test_empty_string() {
    let highlighter = SyntaxHighlighter::new();
    let options = HighlightOptions::default();
    let output = highlighter.highlight_to_html("", "empty.rs", &options).unwrap();
    assert_eq!(output.line_count, 0);
    assert!(!output.truncated);
}

#[test]
fn cloned_highlighter_gives_same_output() {
    let highlighter = SyntaxHighlighter::new();
    let copy = highlighter.clone();
    let options = HighlightOptions::default();
    let a = highlighter.highlight_to_html("let v = 1;", "v.rs", &options).unwrap();
    let b = copy.highlight_to_html("let v = 1;", "v.rs", &options).unwrap();
    assert_eq!(a, b);
    assert_eq!(copy.list_themes(), highlighter.list_themes());
}

#[test]
fn bundled_syntax_names_are_distinct() {
    let names = SyntaxHighlighter::new().list_syntaxes();
    let mut sorted = names.clone();
    sorted.sort();
    sorted.dedup();
    assert_eq!(sorted.len(), names.len());
}

#[test]
fn language_falls_back_in_order() {
    let highlighter = SyntaxHighlighter::new();
    assert_eq!(highlighter.detect_language("..rs", None), "Rust");
    assert_eq!(highlighter.detect_language("no_such_dir/x.zzz", Some("#!/usr/bin/env python3")), "Python");
}

#[test]
fn test_list_themes_and_syntaxes() {
    let highlighter = SyntaxHighlighter::new();
    let themes = highlighter.list_themes();
    assert!(themes.contains(&"base16-ocean.dark".to_string()));
    assert_eq!(themes.len(), 7);
    let syntaxes = highlighter.list_syntaxes();
    assert!(syntaxes.contains(&"Rust".to_string()));
}

#[test]
fn unknown_theme_falls_back_to_default() {
    let highlighter = SyntaxHighlighter::new();
    let mut options = HighlightOptions::default();
    options.theme = "no-such-theme".to_string();
    let output = highlighter.highlight_to_html("x", "a.txt", &options).unwrap();
    assert_eq!(output.line_count, 1);
}

#[test]
fn truncate_code_keeps_first_lines() {
    let (text, count, truncated) = truncate_code("line 1\nline 2\nline 3\nline 4", Some(2));
    assert_eq!(count, 4);
    assert!(truncated);
    assert_eq!(text, "line 1\nline 2");
    let (text, count, truncated) = truncate_code("", None);
    assert_eq!(count, 0);
    assert!(!truncated);
    assert_eq!(text, "");
}

#[test]
fn syntax_error_message() {
    let e = SyntaxError::ThemeNotFound("zz".to_string());
    assert!(e.to_string().contains("zz"));
    let e = SyntaxError::FileTooLarge { size: 20, limit: 10 };
    assert_eq!(e.to_string(), "File size (20 bytes) exceeds maximum limit (10 bytes)");
}

#[test]
fn svg_thumbnail_wrapper_and_placeholder() {
    let url = svg_data_url("<?xml?><svg width='4'><rect/></svg>", Dimensions::new(2, 3), "viewBox=\"0 0 4 4\"");
    let expected_doc = "<svg xmlns='http://www.w3.org/2000/svg' width='2' height='3' viewBox=\"0 0 4 4\"><rect/></svg></svg>";
    assert_eq!(url, format!("data:image/svg+xml;utf8,{}", url_encode(expected_doc)));
    let plain = svg_data_url("no tag here", Dimensions::new(1, 1), "v");
    assert_eq!(plain, format!("data:image/svg+xml;utf8,{}", url_encode("<svg xmlns='http://www.w3.org/2000/svg' width='1' height='1' v>no tag here</svg>")));
    assert_eq!(svg_rgba_placeholder(Dimensions::new(64, 32)), "RGBA_THUMBNAIL_64x32");
}
