use browser_manager::parse_for_url;
use browser_manager::urls::UrlRequest;

fn request(application: &str, platform: &str, bitness: &str, version: &str) -> UrlRequest {
    UrlRequest {
        application: application.to_string(),
        platform: platform.to_string(),
        bitness: bitness.to_string(),
        version: version.to_string(),
    }
}

#[test]
fn scraper_test_can_parse_version_to_url_for_linux_x86_64() {
    let data = request("firefox", "linux", "x86_64", "latest");
    let result = parse_for_url(&data).unwrap();
    let expected =
        "https://download.mozilla.org/?product=firefox-latest&os=linux64&lang=en-US".to_string();
    assert_eq!(result, expected)
}

#[test]
fn scraper_test_can_parse_version_to_url_for_windows_x86_64() {
    let data = request("firefox", "windows", "x86_64", "latest");
    let result = parse_for_url(&data).unwrap();
    let expected =
        "https://download.mozilla.org/?product=firefox-latest&os=win64&lang=en-US".to_string();
    assert_eq!(result, expected)
}

#[test]
fn scraper_test_can_parse_version_to_url_for_windows_x86() {
    let data = request("firefox", "windows", "x86", "latest");
    let result = parse_for_url(&data).unwrap();
    let expected =
        "https://download.mozilla.org/?product=firefox-latest&os=win&lang=en-US".to_string();
    assert_eq!(result, expected)
}

#[test]
fn scraper_test_can_parse_version_to_url_for_mac_os() {
    let data = request("firefox", "mac", "x86_64", "latest");
    let result = parse_for_url(&data).unwrap();
    let expected =
        "https://download.mozilla.org/?product=firefox-latest&os=osx&lang=en-US".to_string();
    assert_eq!(result, expected)
}
