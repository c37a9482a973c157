use zdmr::naming::{
    append_suffix, choose_non_colliding_filename, decode_filename_like, filename_from_headers_and_url,
    parse_content_disposition_filename, temp_file_name,
};
use zdmr::url::UrlParts;

#[test]
fn content_disposition_filename_star_does_not_consume_following_params() {
    let cd = "attachment; filename*=UTF-8''Qwen3-4B-Q5_K_M.gguf; filename=Qwen3-4B-Q5_K_M.gguf";
    let got = parse_content_disposition_filename(cd).unwrap();
    assert_eq!(got, "Qwen3-4B-Q5_K_M.gguf");
}

#[test]
fn content_disposition_filename_basic() {
    let cd = r#"attachment; filename="Qwen3-4B-Q5_K_M.gguf""#;
    let got = parse_content_disposition_filename(cd).unwrap();
    assert_eq!(got, "Qwen3-4B-Q5_K_M.gguf");
}

#[test]
fn content_disposition_filename_star_percent_decodes() {
    let cd = "attachment; filename*=UTF-8''a%20b.txt; filename=a b.txt";
    let got = parse_content_disposition_filename(cd).unwrap();
    assert_eq!(got, "a b.txt");
}

#[test]
fn content_disposition_case_insensitive_and_absent() {
    assert_eq!(parse_content_disposition_filename("Attachment; FILENAME=report.pdf").unwrap(), "report.pdf");
    assert_eq!(parse_content_disposition_filename("inline"), None);
    assert_eq!(parse_content_disposition_filename("attachment; filename=\"\""), None);
}

#[test]
fn content_disposition_quoted_semicolon_kept_in_extended_value() {
    let cd = "attachment; filename*=\"UTF-8''x%3By.txt\"; filename=z.txt";
    assert_eq!(parse_content_disposition_filename(cd).unwrap(), "x;y.txt");
}

#[test]
fn filename_from_url_path_segment() {
    let u = UrlParts::parse("https://example.com/files/data%20set.bin?x=1").unwrap();
    assert_eq!(filename_from_headers_and_url(&u, None, None), "data set.bin");
}

#[test]
fn filename_prefers_content_disposition() {
    let u = UrlParts::parse("https://example.com/files/data.bin").unwrap();
    assert_eq!(
        filename_from_headers_and_url(&u, Some("attachment; filename=\"real.iso\""), None),
        "real.iso"
    );
}

#[test]
fn derived_names_are_single_path_components() {
    let u = UrlParts::parse("https://example.com/files/x").unwrap();
    let name = filename_from_headers_and_url(&u, Some("attachment; filename=\"../etc/pass:wd\""), None);
    assert_eq!(name, "..etcpasswd");
    let v = UrlParts::parse("https://example.com/a/b%2Fc.txt").unwrap();
    assert_eq!(filename_from_headers_and_url(&v, None, None), "bc.txt");
}

#[test]
fn filename_default_with_content_type_extension() {
    let u = UrlParts::parse("https://example.com/").unwrap();
    let name = filename_from_headers_and_url(&u, None, Some("application/pdf"));
    assert_eq!(name, "download.pdf");
    assert_eq!(filename_from_headers_and_url(&u, None, None), "download");
    assert_eq!(filename_from_headers_and_url(&u, None, Some("x-unknown/nothing")), "download");
}

#[test]
fn decode_filename_like_lenient() {
    assert_eq!(decode_filename_like("a%20b"), "a b");
    assert_eq!(decode_filename_like("a+b"), "a+b");
    assert_eq!(decode_filename_like("%FF%20x"), "%FF x");
}

#[test]
fn append_suffix_before_extension() {
    assert_eq!(append_suffix("file.ext", 1), "file (1).ext");
    assert_eq!(append_suffix("archive.tar.gz", 12), "archive.tar (12).gz");
    assert_eq!(append_suffix("file", 3), "file (3)");
    assert_eq!(append_suffix(".hidden", 2), ".hidden (2)");
}

#[test]
fn non_colliding_filename_skips_taken_names() {
    let existing = vec!["a.txt".to_string(), "a (1).txt".to_string()];
    assert_eq!(choose_non_colliding_filename("a.txt", &existing), Some("a (2).txt".to_string()));
    assert_eq!(choose_non_colliding_filename("b.txt", &existing), Some("b.txt".to_string()));
    assert_eq!(choose_non_colliding_filename("", &vec![]), Some("download".to_string()));
}

#[test]
fn non_colliding_filename_gives_up_after_cap() {
    let mut existing = vec!["x".to_string()];
    for n in 1..10000 {
        existing.push(format!("x ({n})"));
    }
    assert_eq!(choose_non_colliding_filename("x", &existing), None);
    existing.pop();
    assert_eq!(choose_non_colliding_filename("x", &existing), Some("x (9999)".to_string()));
}

#[test]
fn temp_file_name_is_hidden_and_id_scoped() {
    assert_eq!(temp_file_name("abc-123"), ".zdmr-abc-123.part");
}
