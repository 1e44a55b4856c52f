use nezha_cyber::tools::ocr::{
    extension_of, extraction_kind, is_image_ext, is_safe_path, is_text_ext, ocr_result,
    parse_at_references, probe_result, truncate_content, ExtractionKind,
};

#[test]
fn parse_at_basic() {
    let (cleaned, files) = parse_at_references("hello @file.txt world");
    assert_eq!(cleaned, "hello  world");
    assert_eq!(files, vec!["file.txt"]);
}

#[test]
fn parse_at_quoted() {
    let (cleaned, files) = parse_at_references("check @\"my file.pdf\" please");
    assert_eq!(cleaned, "check  please");
    assert_eq!(files, vec!["my file.pdf"]);
}

#[test]
fn parse_multiple_at() {
    let (cleaned, files) =
        parse_at_references("@src/main.rs and @docs/readme.md and @\"my doc.pdf\"");
    assert_eq!(cleaned, " and  and ");
    assert_eq!(files, vec!["src/main.rs", "docs/readme.md", "my doc.pdf"]);
}

#[test]
fn parse_no_at() {
    let (cleaned, files) = parse_at_references("hello world");
    assert_eq!(cleaned, "hello world");
    assert!(files.is_empty());
}

#[test]
fn parse_at_only() {
    let (cleaned, files) = parse_at_references("@file.txt");
    assert_eq!(cleaned, "");
    assert_eq!(files, vec!["file.txt"]);
}

#[test]
fn extension_detection() {
    assert!(is_image_ext("png"));
    assert!(is_image_ext("jpg"));
    assert!(!is_image_ext("pdf"));
    assert!(is_text_ext("rs"));
    assert!(is_text_ext("py"));
    assert!(is_text_ext("txt"));
}

#[test]
fn truncate_short_content() {
    let text = "hello\nworld";
    assert_eq!(truncate_content(text), "hello\nworld");
}

#[test]
fn parse_at_followed_by_space_is_text() {
    let (cleaned, files) = parse_at_references("mail me @ home");
    assert_eq!(cleaned, "mail me @ home");
    assert!(files.is_empty());
}

#[test]
fn parse_at_unclosed_quote_reads_to_space() {
    let (cleaned, files) = parse_at_references("see @\"open file");
    assert_eq!(cleaned, "see  file");
    assert_eq!(files, vec!["\"open"]);
}

#[test]
fn parse_at_empty_quotes_are_dropped() {
    let (cleaned, files) = parse_at_references("a @\"\" b");
    assert_eq!(cleaned, "a  b");
    assert!(files.is_empty());
}

#[test]
fn truncate_long_content_keeps_500_lines() {
    let text: Vec<String> = (0..600).map(|i| format!("line{}", i)).collect();
    let joined = text.join("\n");
    let out = truncate_content(&joined);
    let expected = format!("{}\n... (已截断，原始 600 行)", text[..500].join("\n"));
    assert_eq!(out, expected);
}

#[test]
fn truncate_exactly_500_lines_is_unchanged() {
    let text: Vec<String> = (0..500).map(|i| format!("l{}", i)).collect();
    let joined = text.join("\n") + "\n";
    assert_eq!(truncate_content(&joined), joined);
}

#[test]
fn extension_of_lowercases() {
    assert_eq!(extension_of("docs/Report.PDF"), "pdf");
    assert_eq!(extension_of("a/b.tar.GZ"), "gz");
}

#[test]
fn extension_of_without_extension() {
    assert_eq!(extension_of("Makefile"), "");
    assert_eq!(extension_of(".bashrc"), "");
    assert_eq!(extension_of("dir/.."), "");
    assert_eq!(extension_of("/"), "");
    assert_eq!(extension_of("notes."), "");
    assert_eq!(extension_of("a.txt/"), "txt");
}

#[test]
fn extraction_kind_by_extension() {
    assert_eq!(extraction_kind("pdf"), ExtractionKind::Pdf);
    assert_eq!(extraction_kind("webp"), ExtractionKind::Image);
    assert_eq!(extraction_kind("zig"), ExtractionKind::Text);
    assert_eq!(extraction_kind(""), ExtractionKind::Text);
    assert_eq!(extraction_kind("bin"), ExtractionKind::Probe);
}

#[test]
fn probe_rejects_nul() {
    assert_eq!(probe_result("a\0b", "bin"), Err("不支持的文件格式: bin".to_string()));
    assert_eq!(probe_result("plain", "dat"), Ok("plain".to_string()));
}

#[test]
fn ocr_blank_is_error() {
    assert_eq!(ocr_result("  \n "), Err("OCR 未识别到文字".to_string()));
    assert_eq!(ocr_result("文字"), Ok("文字".to_string()));
}

#[test]
fn safe_path_inside_and_outside() {
    assert_eq!(
        is_safe_path("/home/u/proj", "/home/u/proj/a.txt", 5, "/home/u/proj/a.txt"),
        Ok("/home/u/proj/a.txt".to_string())
    );
    assert_eq!(
        is_safe_path("/home/u/proj", "/home/u/proj/../x", 6, "/home/u/x"),
        Err("路径越界: /home/u/proj/../x".to_string())
    );
    assert_eq!(
        is_safe_path("/home/u/proj", "/home/u/project2/a", 3, "/home/u"),
        Err("路径越界: /home/u/project2/a".to_string())
    );
}

#[test]
fn referenced_missing_file_cannot_climb_out() {
    assert_eq!(
        is_safe_path("/home/u/proj", "/home/u/proj/../x", 4, "/home/u/proj"),
        Err("路径越界: /home/u/proj/../x".to_string())
    );
}
