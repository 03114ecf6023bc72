use browser_manager::discovery::{get_available_browsers, DiscoveryProbe};
use browser_manager::find_browser_for;

fn probe(os: &str) -> DiscoveryProbe {
    DiscoveryProbe {
        firefox_path: None,
        chrome_path: None,
        geckodriver_path: None,
        chromedriver_path: None,
        firefox_fallback: false,
        chrome_fallback: false,
        os: os.to_string(),
        bitness: "x86_64".to_string(),
    }
}

#[test]
fn browsers_available_on_each_platform() {
    // We need to mostly check that we don't get Safari on other platforms
    let mut linux_probe = probe("linux");
    linux_probe.firefox_path = Some("/usr/bin/firefox".to_string());
    let available_browsers = get_available_browsers(&linux_probe);
    assert!(available_browsers.len() >= 1);
    assert!(available_browsers.iter().all(|b| b.name != "Safari"));

    let mut mac_probe = probe("macos");
    mac_probe.firefox_path = Some("/usr/local/bin/firefox".to_string());
    let available_browsers = get_available_browsers(&mac_probe);
    // Safari is always available on Mac.
    assert!(available_browsers.len() >= 2);
    assert_eq!(available_browsers.last().unwrap().name, "Safari");
}

#[test]
fn safari_is_reported_unconditionally_on_mac() {
    let available = get_available_browsers(&probe("macos"));
    assert_eq!(available.len(), 1);
    assert_eq!(available[0].name, "Safari");
    assert_eq!(available[0].driver_path, "/usr/bin/safaridriver");
    assert_eq!(
        available[0].browser_path,
        "/Applications/Safari.app/Contents/MacOS/Safari"
    );
}

#[test]
fn safari_is_never_reported_off_mac() {
    for os in ["linux", "windows"] {
        let mut p = probe(os);
        p.firefox_path = Some("/usr/bin/firefox".to_string());
        p.chrome_path = Some("/usr/bin/google-chrome".to_string());
        let available = get_available_browsers(&p);
        assert_eq!(available.len(), 2);
        assert!(available.iter().all(|b| b.name != "Safari"));
    }
}

#[test]
fn discovery_pairs_browsers_with_their_drivers() {
    let mut p = probe("linux");
    p.firefox_path = Some("/usr/bin/firefox".to_string());
    p.chrome_path = Some("/opt/chrome/chrome".to_string());
    p.geckodriver_path = Some("/usr/bin/geckodriver".to_string());
    let available = get_available_browsers(&p);
    assert_eq!(available.len(), 2);
    assert_eq!(available[0].name, "firefox");
    assert_eq!(available[0].driver_path, "/usr/bin/geckodriver");
    assert_eq!(available[0].browser_path, "/usr/bin/firefox");
    assert_eq!(available[0].version, "latest");
    // A missing driver is reported as an empty path, not a failure.
    assert_eq!(available[1].name, "chrome");
    assert_eq!(available[1].driver_path, "");
    assert_eq!(available[1].browser_path, "/opt/chrome/chrome");
}

#[test]
fn fixed_locations_are_probed_only_on_search_path_miss() {
    // Nothing on the search path: the fixed install locations are used.
    let mut p = probe("macos");
    p.firefox_fallback = true;
    let available = get_available_browsers(&p);
    assert_eq!(available.len(), 2);
    assert_eq!(available[0].name, "firefox");
    assert_eq!(
        available[0].browser_path,
        "/Applications/Firefox.app/Contents/MacOS/firefox-bin"
    );
    assert_eq!(available[1].name, "Safari");

    // A search-path hit wins over the fixed locations.
    let mut p = probe("linux");
    p.firefox_path = Some("/usr/bin/firefox".to_string());
    p.chrome_fallback = true;
    let available = get_available_browsers(&p);
    assert_eq!(available.len(), 1);
    assert_eq!(available[0].name, "firefox");
}

#[test]
fn discovery_reports_each_family_at_most_once() {
    let mut p = probe("macos");
    p.firefox_path = Some("/usr/local/bin/firefox".to_string());
    p.chrome_path = Some("/usr/local/bin/google-chrome".to_string());
    p.geckodriver_path = Some("/usr/local/bin/geckodriver".to_string());
    p.chromedriver_path = Some("/usr/local/bin/chromedriver".to_string());
    p.firefox_fallback = true;
    p.chrome_fallback = true;
    let available = get_available_browsers(&p);
    for i in 0..available.len() {
        for j in (i + 1)..available.len() {
            assert_ne!(available[i].name, available[j].name);
        }
    }
}

#[test]
fn should_be_found_and_returned() {
    // This test assumes that there is a browser available and found
    let mut p = probe("linux");
    p.firefox_path = Some("/usr/bin/firefox".to_string());
    p.geckodriver_path = Some("/usr/bin/geckodriver".to_string());
    let available = get_available_browsers(&p);

    let found_browser = find_browser_for("firefox".to_string(), &available);
    match found_browser {
        Some(browser) => {
            assert_eq!(browser.name, "firefox".to_string())
        }
        None => assert!(false, "Was not able to find browsers on the machine"),
    }
}

#[test]
fn find_browser_for_misses_unknown_names() {
    let available = get_available_browsers(&probe("linux"));
    assert!(find_browser_for("firefox".to_string(), &available).is_none());
}
