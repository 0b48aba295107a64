use miassistant::download::{
    choose_url, download_file_name, latest_from, md5_matches, parse_latest_from_json,
    DownloadError, LatestInfo,
};
use miassistant::json::Json;

#[test]
fn latest_rom_and_mirrors() {
    let json = "{\"LatestRom\":{\"filename\":\"miui_GARNET.zip?t=1&s=2\",\"md5\":\"5eb63bbbe01eeed093cb22bb8f5acdc3\"},\"PkgRom\":{\"filename\":\"other.zip\",\"md5\":\"00\"},\"MirrorList\":[\"http://a.example\",7,\"https://b.example/\",null]}";
    let (latest, mirrors) = parse_latest_from_json(json).unwrap();
    assert_eq!(
        latest,
        LatestInfo {
            filename: "miui_GARNET.zip?t=1&s=2".to_string(),
            md5: "5eb63bbbe01eeed093cb22bb8f5acdc3".to_string()
        }
    );
    assert_eq!(mirrors, vec!["http://a.example".to_string(), "https://b.example/".to_string()]);
}

#[test]
fn pkgrom_stands_in_for_a_missing_latest_rom() {
    let (latest, mirrors) =
        parse_latest_from_json("{\"PkgRom\":{\"filename\":\"p.zip\",\"md5\":\"ab\"}}").unwrap();
    assert_eq!(latest.filename, "p.zip");
    assert_eq!(latest.md5, "ab");
    assert!(mirrors.is_empty());
    let (_, mirrors) = parse_latest_from_json(
        "{\"PkgRom\":{\"filename\":\"p.zip\",\"md5\":\"ab\"},\"MirrorList\":\"https://x\"}",
    )
    .unwrap();
    assert!(mirrors.is_empty());
}

#[test]
fn latest_errors() {
    assert_eq!(parse_latest_from_json("nope"), Err(DownloadError::Json));
    assert_eq!(parse_latest_from_json(""), Err(DownloadError::Json));
    assert_eq!(parse_latest_from_json("{}"), Err(DownloadError::MissingLatest));
    assert_eq!(parse_latest_from_json("[1]"), Err(DownloadError::MissingLatest));
    assert_eq!(
        parse_latest_from_json("{\"LatestRom\":null,\"PkgRom\":{\"filename\":\"p\",\"md5\":\"m\"}}"),
        Err(DownloadError::MissingFilename)
    );
    assert_eq!(
        parse_latest_from_json("{\"LatestRom\":{\"filename\":5,\"md5\":\"m\"}}"),
        Err(DownloadError::MissingFilename)
    );
    assert_eq!(
        parse_latest_from_json("{\"LatestRom\":{\"filename\":\"f\"}}"),
        Err(DownloadError::MissingMd5)
    );
    assert_eq!(
        parse_latest_from_json("{\"LatestRom\":{\"filename\":\"f\",\"md5\":[]}}"),
        Err(DownloadError::MissingMd5)
    );
}

#[test]
fn latest_from_a_parsed_answer() {
    let root = Json::Object(vec![
        (
            "PkgRom".to_string(),
            Json::Object(vec![
                ("md5".to_string(), Json::Str("m".to_string())),
                ("filename".to_string(), Json::Str("f".to_string())),
            ]),
        ),
        (
            "MirrorList".to_string(),
            Json::Array(vec![Json::Bool(true), Json::Str("https://m".to_string())]),
        ),
    ]);
    let (latest, mirrors) = latest_from(&root).unwrap();
    assert_eq!(latest, LatestInfo { filename: "f".to_string(), md5: "m".to_string() });
    assert_eq!(mirrors, vec!["https://m".to_string()]);
    assert_eq!(latest_from(&Json::Null), Err(DownloadError::MissingLatest));
}

fn strings(items: &[&str]) -> Vec<String> {
    items.iter().map(|s| s.to_string()).collect()
}

#[test]
fn secure_mirror_is_preferred() {
    let mirrors = strings(&["http://a.example/", "https://b.example//", "https://c.example"]);
    assert_eq!(
        choose_url(&mirrors, "//rom/file.zip"),
        Some("https://b.example/rom/file.zip".to_string())
    );
    assert_eq!(
        choose_url(&mirrors[1..], "file.zip?t=1"),
        Some("https://b.example/file.zip?t=1".to_string())
    );
}

#[test]
fn first_mirror_is_the_fallback() {
    let mirrors = strings(&["http://a.example/", "ftp://b.example"]);
    assert_eq!(
        choose_url(&mirrors, "/file.zip"),
        Some("http://a.example//file.zip".to_string())
    );
    assert_eq!(choose_url(&strings(&["HTTPS://up.example"]), "f"), Some("HTTPS://up.example/f".to_string()));
    assert_eq!(choose_url(&strings(&["///"]), ""), Some("/".to_string()));
    assert_eq!(choose_url(&[], "file.zip"), None);
}

#[test]
fn file_name_of_a_url() {
    assert_eq!(download_file_name("https://b.example/rom/file.zip?t=1&s=2"), "file.zip");
    assert_eq!(download_file_name("https://b.example/rom/file.zip"), "file.zip");
    assert_eq!(download_file_name("file.zip"), "file.zip");
    assert_eq!(download_file_name("https://b.example/rom/"), "");
    assert_eq!(download_file_name("https://b.example/a?x=/y"), "y");
    assert_eq!(download_file_name("a/b?c?d"), "b");
    assert_eq!(download_file_name(""), "");
}

#[test]
fn md5_sums_match_in_any_case() {
    assert!(md5_matches(
        "5eb63bbbe01eeed093cb22bb8f5acdc3",
        "5EB63BBBE01EEED093CB22BB8F5ACDC3"
    ));
    assert!(md5_matches("", ""));
    assert!(!md5_matches(
        "5eb63bbbe01eeed093cb22bb8f5acdc3",
        "5eb63bbbe01eeed093cb22bb8f5acdc4"
    ));
    assert!(!md5_matches("ab", "abc"));
}
