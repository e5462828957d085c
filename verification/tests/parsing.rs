use shiromana_cli::text::{chars_eq, contains_any_char, eq_ignore_ascii_case, join, parse_u64, trim};
use shiromana_cli::media::{
    classify, classify_content, is_valid_media_type, media_type_name, media_type_of_mime,
    parse_media_type, MediaType,
};
use shiromana_cli::manifest::{
    file_verdict, is_existed_as_file, probe_files, resolve_file_list, resolve_manifest,
    validate_existence,
};
use shiromana_cli::config::{AppConfig, CreateType};

#[test]
fn chars_eq_decides_string_equality() {
    assert!(chars_eq("abc", "abc"));
    assert!(!chars_eq("abc", "abd"));
    assert!(!chars_eq("abc", "ab"));
    assert!(chars_eq("", ""));
}

#[test]
fn eq_ignore_ascii_case_folds_only_ascii() {
    assert!(eq_ignore_ascii_case("FiLe", "file"));
    assert!(eq_ignore_ascii_case("SERIES", "series"));
    assert!(!eq_ignore_ascii_case("files", "file"));
    assert!(!eq_ignore_ascii_case("tag", "tab"));
}

#[test]
fn trim_strips_surrounding_whitespace() {
    assert_eq!(trim("  a b \t"), "a b");
    assert_eq!(trim("abc"), "abc");
    assert_eq!(trim(" \r\n "), "");
    assert_eq!(trim(""), "");
}

#[test]
fn trim_strips_unicode_whitespace_like_std() {
    let samples = ["\u{a0}42\u{a0}", "\u{2003}x y\u{2028}", "\u{3000}id\u{205f}", "\u{85}q\u{b}"];
    for s in samples {
        assert_eq!(trim(s), s.trim());
    }
}

#[test]
fn parse_u64_accepts_decimal_numbers() {
    assert_eq!(parse_u64("42"), Some(42));
    assert_eq!(parse_u64("+7"), Some(7));
    assert_eq!(parse_u64("0"), Some(0));
    assert_eq!(parse_u64("18446744073709551615"), Some(u64::MAX));
}

#[test]
fn parse_u64_rejects_everything_else() {
    assert_eq!(parse_u64(""), None);
    assert_eq!(parse_u64("+"), None);
    assert_eq!(parse_u64("12a"), None);
    assert_eq!(parse_u64("-3"), None);
    assert_eq!(parse_u64("18446744073709551616"), None);
    let sixty_four_digits = "1111111111111111111111111111111111111111111111111111111111111111";
    assert_eq!(sixty_four_digits.len(), 64);
    assert_eq!(parse_u64(sixty_four_digits), None);
}

#[test]
fn join_uses_the_separator_between_parts() {
    let parts = vec!["a".to_string(), "b".to_string(), "c".to_string()];
    assert_eq!(join(&parts, ","), "a,b,c");
    let one = vec!["only".to_string()];
    assert_eq!(join(&one, ","), "only");
    let none: Vec<String> = Vec::new();
    assert_eq!(join(&none, ","), "");
}

#[test]
fn contains_any_char_finds_forbidden_characters() {
    assert!(contains_any_char("a:b", &vec![':']));
    assert!(!contains_any_char("ab", &vec![':', '*']));
    assert!(contains_any_char("x*y", &vec![':', '*']));
    assert!(!contains_any_char("", &vec![':']));
}

#[test]
fn mime_mapping_uses_the_top_level_component() {
    assert_eq!(media_type_of_mime("image/png"), MediaType::Image);
    assert_eq!(media_type_of_mime("audio/flac"), MediaType::Audio);
    assert_eq!(media_type_of_mime("video/mp4"), MediaType::Video);
    assert_eq!(media_type_of_mime("text/plain"), MediaType::Text);
    assert_eq!(media_type_of_mime("application/pdf"), MediaType::Other);
}

#[test]
fn mime_mapping_is_total() {
    assert_eq!(media_type_of_mime(""), MediaType::Other);
    assert_eq!(media_type_of_mime("text"), MediaType::Text);
    assert_eq!(media_type_of_mime("/odd"), MediaType::Other);
    assert_eq!(media_type_of_mime("weird/unknown/extra"), MediaType::Other);
}

#[test]
fn explicit_hint_always_wins() {
    assert_eq!(classify(Some(MediaType::Video), "image/png"), MediaType::Video);
    assert_eq!(classify(None, "image/png"), MediaType::Image);
    let garbage = vec![0u8, 1, 2, 3];
    assert_eq!(classify_content(Some(MediaType::Audio), &garbage), MediaType::Audio);
}

#[test]
fn classify_content_sniffs_png_bytes() {
    let png = vec![0x89u8, 0x50, 0x4E, 0x47, 0x0D, 0x0A, 0x1A, 0x0A, 0, 0, 0, 0x0D, 0x49, 0x48,
        0x44, 0x52];
    assert_eq!(classify_content(None, &png), MediaType::Image);
}

#[test]
fn media_type_names() {
    assert_eq!(media_type_name(MediaType::Image), "Image");
    assert_eq!(media_type_name(MediaType::Other), "Other");
}

#[test]
fn parse_media_type_accepts_the_five_names() {
    assert_eq!(parse_media_type("image"), Some(MediaType::Image));
    assert_eq!(parse_media_type(" Video "), Some(MediaType::Video));
    assert_eq!(parse_media_type("OTHER"), Some(MediaType::Other));
    assert_eq!(parse_media_type("audio"), Some(MediaType::Audio));
    assert_eq!(parse_media_type("text"), Some(MediaType::Text));
    assert_eq!(parse_media_type("bogus"), None);
}

#[test]
fn is_valid_media_type_reports_bad_names() {
    assert!(is_valid_media_type("Image").is_ok());
    assert_eq!(is_valid_media_type("bogus"), Err("Not a valid Media Type.".to_string()));
}

#[test]
fn manifest_lines_keep_their_order() {
    let text = "a.png\nfile:///tmp/b.png\nc.jpg";
    let resolved = resolve_manifest(text).unwrap();
    assert_eq!(resolved, vec!["a.png".to_string(), "/tmp/b.png".to_string(), "c.jpg".to_string()]);
}

#[test]
fn manifest_skips_empty_lines_and_strips_carriage_returns() {
    let text = "a.png\r\n\r\n\nb.png\n";
    let resolved = resolve_manifest(text).unwrap();
    assert_eq!(resolved, vec!["a.png".to_string(), "b.png".to_string()]);
}

#[test]
fn manifest_file_url_is_replaced_by_its_path() {
    let resolved = resolve_manifest("file:///var/data/x.png").unwrap();
    assert_eq!(resolved, vec!["/var/data/x.png".to_string()]);
}

#[test]
fn manifest_fails_on_an_unparseable_file_url() {
    let text = "good.png\nfile://[bad";
    assert_eq!(resolve_manifest(text), Err("file://[bad".to_string()));
}

#[test]
fn validate_existence_accepts_only_all_present() {
    let paths = vec!["a".to_string(), "b".to_string(), "c".to_string()];
    assert!(validate_existence(&paths, &vec![true, true, true]).is_ok());
    let err = validate_existence(&paths, &vec![true, false, false]).unwrap_err();
    assert_eq!(err, "b,c are not existed or not a file.");
}

#[test]
fn probe_files_answers_once_per_path() {
    let paths = vec!["/proc/self/status".to_string(), "no_such_file_here".to_string()];
    let flags = probe_files(&paths);
    assert_eq!(flags, vec![true, false]);
}

#[test]
fn file_verdict_names_the_failure() {
    assert!(file_verdict(true, true).is_ok());
    assert_eq!(file_verdict(true, false), Err("Not a file.".to_string()));
    assert_eq!(file_verdict(false, false), Err("Not Exists".to_string()));
}

#[test]
fn is_existed_as_file_checks_the_file_system() {
    assert!(is_existed_as_file("/proc/self/status").is_ok());
    assert_eq!(is_existed_as_file("/"), Err("Not a file.".to_string()));
    assert_eq!(is_existed_as_file("no_such_file_here"), Err("Not Exists".to_string()));
}

#[test]
fn resolve_file_list_takes_the_explicit_list_as_is() {
    let files = vec!["/proc/self/status".to_string()];
    assert_eq!(resolve_file_list(files.clone(), None), Ok(files));
}

#[test]
fn resolve_file_list_fails_on_any_missing_file() {
    let files = vec!["/proc/self/status".to_string(), "missing_one".to_string()];
    let err = resolve_file_list(files, None).unwrap_err();
    assert_eq!(err, "missing_one are not existed or not a file.");
}

#[test]
fn resolve_file_list_reports_the_first_bad_manifest_line() {
    let text = "file:///ok.png\nfile://[one\nfile://[two".to_string();
    let err = resolve_file_list(Vec::new(), Some(&text)).unwrap_err();
    assert_eq!(err, "file://[one cannot be parsed as a file:// URI.");
}

#[test]
fn resolve_file_list_accepts_an_empty_explicit_list() {
    assert_eq!(resolve_file_list(Vec::new(), None), Ok(Vec::new()));
}

#[test]
fn create_type_parses_series_and_tag() {
    assert_eq!(CreateType::from_text("series"), Ok(CreateType::Series));
    assert_eq!(CreateType::from_text("S"), Ok(CreateType::Series));
    assert_eq!(CreateType::from_text("TAG"), Ok(CreateType::Tag));
    assert_eq!(CreateType::from_text("t"), Ok(CreateType::Tag));
    assert_eq!(
        CreateType::from_text("x"),
        Err("x cannot be parsed into type annotation.".to_string())
    );
}

#[test]
fn app_config_with_path_uses_the_default_name() {
    let c = AppConfig::with_path("/pictures".to_string());
    assert_eq!(c.version, 1);
    assert_eq!(c.library_path, "/pictures");
    assert_eq!(c.library_name, "shiro-lib");
}
