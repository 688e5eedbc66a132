use kernel_service::codec::parse_document;
use kernel_service::text::{decimal_text, has_suffix, join, same_text, trim_leading};
use kernel_service::update::{check_update, UpdateError, UpdateInfo};

fn check(current: &str, release: &str) -> Result<UpdateInfo, UpdateError> {
    check_update(current, &parse_document(release).unwrap())
}

const RELEASE: &str = "{\"tag_name\":\"v1.2.3\",\"assets\":[{\"name\":\"notes.txt\",\"browser_download_url\":\"https://example.com/notes.txt\"},{\"name\":\"setup.exe\",\"browser_download_url\":\"https://example.com/setup.exe\"},{\"name\":\"other.exe\",\"browser_download_url\":\"https://example.com/other.exe\"}]}";

#[test]
fn a_newer_release_is_an_update() {
    assert_eq!(
        check("1.2.2", RELEASE),
        Ok(UpdateInfo {
            latest_version: "1.2.3".to_string(),
            download_url: "https://example.com/setup.exe".to_string(),
            has_update: true,
        })
    );
}

#[test]
fn the_same_version_is_no_update() {
    let info = check("1.2.3", RELEASE).unwrap();
    assert!(!info.has_update);
    assert_eq!(info.latest_version, "1.2.3");
    assert!(check("v1.2.3", RELEASE).unwrap().has_update);
}

#[test]
fn every_leading_v_is_taken_off() {
    let release = "{\"tag_name\":\"vvv2.0\",\"assets\":[{\"name\":\"a.exe\",\"browser_download_url\":\"u\"}]}";
    assert_eq!(check("2.0", release).unwrap().latest_version, "2.0");
    let bare = "{\"tag_name\":\"2.0v\",\"assets\":[{\"name\":\"a.exe\",\"browser_download_url\":\"u\"}]}";
    assert_eq!(check("2.0", bare).unwrap().latest_version, "2.0v");
    let only = "{\"tag_name\":\"vv\",\"assets\":[{\"name\":\"a.exe\",\"browser_download_url\":\"u\"}]}";
    assert_eq!(check("", only).unwrap().latest_version, "");
    assert!(!check("", only).unwrap().has_update);
}

#[test]
fn a_release_without_a_tag_has_no_version() {
    assert_eq!(check("1", "{\"assets\":[]}"), Err(UpdateError::MissingVersion));
    assert_eq!(check("1", "{\"tag_name\":5,\"assets\":[]}"), Err(UpdateError::MissingVersion));
    assert_eq!(check("1", "[]"), Err(UpdateError::MissingVersion));
    assert_eq!(check("1", "null"), Err(UpdateError::MissingVersion));
}

#[test]
fn a_release_without_assets_has_none() {
    assert_eq!(check("1", "{\"tag_name\":\"v1\"}"), Err(UpdateError::MissingAssets));
    assert_eq!(
        check("1", "{\"tag_name\":\"v1\",\"assets\":{}}"),
        Err(UpdateError::MissingAssets)
    );
}

#[test]
fn a_release_without_an_installer_has_none() {
    assert_eq!(check("1", "{\"tag_name\":\"v1\",\"assets\":[]}"), Err(UpdateError::NoExecutable));
    assert_eq!(
        check(
            "1",
            "{\"tag_name\":\"v1\",\"assets\":[{\"name\":\"a.zip\"},{\"name\":7},{},5,{\"name\":\"exe\"},{\"name\":\"a.EXE\"}]}"
        ),
        Err(UpdateError::NoExecutable)
    );
}

#[test]
fn an_installer_without_an_address_cannot_be_downloaded() {
    assert_eq!(
        check("1", "{\"tag_name\":\"v1\",\"assets\":[{\"name\":\"a.exe\"},{\"name\":\"b.exe\",\"browser_download_url\":\"u\"}]}"),
        Err(UpdateError::MissingDownloadUrl)
    );
    assert_eq!(
        check("1", "{\"tag_name\":\"v1\",\"assets\":[{\"name\":\".exe\",\"browser_download_url\":null}]}"),
        Err(UpdateError::MissingDownloadUrl)
    );
}

#[test]
fn update_errors_have_words() {
    assert_eq!(UpdateError::MissingVersion.message(), "无法获取最新版本号");
    assert_eq!(UpdateError::MissingAssets.message(), "无法获取发布资源");
    assert_eq!(UpdateError::NoExecutable.message(), "未找到可执行文件");
    assert_eq!(UpdateError::MissingDownloadUrl.message(), "无法获取下载链接");
}

#[test]
fn text_helpers_agree_with_the_standard_library() {
    for s in ["", "v", "vv1", "1v", "版本v", "v版本"] {
        assert_eq!(trim_leading(s, 'v'), s.trim_start_matches('v'));
    }
    for (s, suffix) in [("a.exe", ".exe"), (".exe", ".exe"), ("exe", ".exe"), ("", ""), ("a", ""), ("安装.exe", ".exe"), ("a.exe ", ".exe")] {
        assert_eq!(has_suffix(s, suffix), s.ends_with(suffix));
    }
    for n in [0u64, 7, 9, 10, 11, 99, 100, 2080, 1234567890, u64::MAX] {
        assert_eq!(decimal_text(n), n.to_string());
    }
    assert_eq!(join("ab", "cd"), "abcd");
    assert!(same_text("x86_64", "x86_64"));
    assert!(!same_text("x86_64", "x86"));
}
