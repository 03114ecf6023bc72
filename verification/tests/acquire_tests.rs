use browser_manager::acquire::{plan_acquire, AcquirePlan};
use browser_manager::browser::Browser;
use browser_manager::discovery::{get_available_browsers, DiscoveryProbe};
use browser_manager::errors::ResolveError;
use browser_manager::platform::{describe, installer_token, Arch, BrowserKind, Os};
use browser_manager::version::parse_spec;

#[test]
fn parse_splits_name_and_version() {
    let req = parse_spec("firefox@69").unwrap();
    assert_eq!(req.name, "firefox");
    assert_eq!(req.version, "69");

    let req = parse_spec("firefox@latest").unwrap();
    assert_eq!(req.name, "firefox");
    assert_eq!(req.version, "latest");

    let req = parse_spec("firefox").unwrap();
    assert_eq!(req.name, "firefox");
    assert_eq!(req.version, "latest");
}

#[test]
fn parse_honors_only_the_first_separator() {
    let req = parse_spec("chrome@114@beta").unwrap();
    assert_eq!(req.name, "chrome");
    assert_eq!(req.version, "114@beta");
}

#[test]
fn parse_reassembles_the_spec() {
    for spec in ["firefox@69", "chrome@114@beta", "safari@latest"] {
        let req = parse_spec(spec).unwrap();
        assert_eq!(format!("{}@{}", req.name, req.version), spec);
    }
}

#[test]
fn parse_rejects_empty_names() {
    for spec in ["", "@69"] {
        match parse_spec(spec) {
            Ok(_) => panic!("{:?} holds no browser name", spec),
            Err(e) => assert_eq!(e, ResolveError::Parse),
        }
    }
}

#[test]
fn platform_tokens_come_from_the_fixed_set() {
    let tokens = [
        "linux", "linux64", "win", "win32", "win64", "mac64", "macos", "osx",
    ];
    for kind in [BrowserKind::Firefox, BrowserKind::Chrome] {
        for os in [Os::Linux, Os::Windows, Os::MacOs] {
            for arch in [Arch::X86, Arch::X86_64, Arch::Other] {
                assert!(tokens.contains(&describe(kind, os, arch)));
                assert!(tokens.contains(&installer_token(os, arch)));
                // The mapping is pure: the same input gives the same output.
                assert_eq!(describe(kind, os, arch), describe(kind, os, arch));
            }
        }
    }
    assert_eq!(describe(BrowserKind::Chrome, Os::Windows, Arch::X86_64), "win32");
    assert_eq!(describe(BrowserKind::Firefox, Os::Windows, Arch::X86_64), "win64");
    assert_eq!(describe(BrowserKind::Chrome, Os::MacOs, Arch::X86_64), "mac64");
    assert_eq!(describe(BrowserKind::Firefox, Os::MacOs, Arch::X86_64), "macos");
    assert_eq!(installer_token(Os::MacOs, Arch::X86_64), "osx");
}

fn empty_probe(os: &str) -> DiscoveryProbe {
    DiscoveryProbe {
        firefox_path: None,
        chrome_path: None,
        geckodriver_path: None,
        chromedriver_path: None,
        firefox_fallback: false,
        chrome_fallback: false,
        os: os.to_string(),
        bitness: "x86_64".to_string(),
    }
}

#[test]
fn acquire_against_empty_directory_plans_a_fetch() {
    let available = get_available_browsers(&empty_probe("linux"));
    let plan = plan_acquire(
        "firefox@latest",
        "/tmp/target",
        &available,
        Some("v0.33.0"),
        "linux",
        "x86_64",
    )
    .unwrap();
    match plan {
        AcquirePlan::UseExisting(_) => panic!("nothing was available to reuse"),
        AcquirePlan::Fetch(fp) => {
            assert_eq!(fp.record.name, "firefox");
            assert_eq!(fp.record.driver_path, "/tmp/target");
            assert_eq!(fp.record.browser_path, "/tmp/target");
            // The resolved version is concrete, never the sentinel.
            assert_eq!(fp.record.version, "v0.33.0");
            assert_ne!(fp.record.version, "latest");
            assert!(fp.record.version.starts_with('v'));
            assert_eq!(
                fp.driver_archive_path,
                "/tmp/target/geckodriver-v0.33.0-linux64.tar.gz"
            );
            assert_eq!(fp.browser_archive_path, "/tmp/target/firefox_browser.zip");
            assert!(fp.browser_download_needed);
            assert_eq!(
                fp.links.browser_url,
                "https://download.mozilla.org/?product=firefox-latest&os=linux64&lang=en-US"
            );
        }
    }
}

#[test]
fn acquire_skips_browser_download_when_directory_names_it() {
    let available: Vec<Browser> = Vec::new();
    let plan = plan_acquire(
        "firefox@latest",
        "/opt/Firefox/install",
        &available,
        Some("v0.33.0"),
        "linux",
        "x86_64",
    )
    .unwrap();
    match plan {
        AcquirePlan::Fetch(fp) => assert!(!fp.browser_download_needed),
        AcquirePlan::UseExisting(_) => panic!("nothing was available to reuse"),
    }
}

#[test]
fn acquire_returns_existing_record_unchanged() {
    let mut probe = empty_probe("linux");
    probe.firefox_path = Some("/usr/bin/firefox".to_string());
    probe.geckodriver_path = Some("/usr/bin/geckodriver".to_string());
    let available = get_available_browsers(&probe);
    let plan = plan_acquire(
        "firefox",
        "/tmp/target",
        &available,
        None,
        "linux",
        "x86_64",
    )
    .unwrap();
    match plan {
        AcquirePlan::UseExisting(b) => {
            assert_eq!(b.name, "firefox");
            assert_eq!(b.driver_path, "/usr/bin/geckodriver");
            assert_eq!(b.browser_path, "/usr/bin/firefox");
        }
        AcquirePlan::Fetch(_) => panic!("a discovered browser must not be fetched again"),
    }
}

#[test]
fn acquire_is_idempotent_once_the_record_exists() {
    // First call: nothing available, a fetch is planned.
    let mut available: Vec<Browser> = Vec::new();
    let first = plan_acquire(
        "firefox@latest",
        "/tmp/target",
        &available,
        Some("v0.33.0"),
        "linux",
        "x86_64",
    )
    .unwrap();
    let record = match first {
        AcquirePlan::Fetch(fp) => fp.record,
        AcquirePlan::UseExisting(_) => panic!("nothing was available to reuse"),
    };

    // The acquired record now exists; a second call for the same spec and
    // directory returns it without planning another download.
    available.push(record);
    for _ in 0..2 {
        let again = plan_acquire(
            "firefox@latest",
            "/tmp/target",
            &available,
            Some("v0.33.0"),
            "linux",
            "x86_64",
        )
        .unwrap();
        match again {
            AcquirePlan::UseExisting(b) => {
                assert_eq!(b.name, "firefox");
                assert_eq!(b.version, "v0.33.0");
                assert_eq!(b.driver_path, "/tmp/target");
            }
            AcquirePlan::Fetch(_) => panic!("a second acquisition must not re-download"),
        }
    }
}

#[test]
fn acquire_propagates_resolver_failures() {
    let available: Vec<Browser> = Vec::new();
    let cases: [(&str, Option<&str>, &str, ResolveError); 4] = [
        ("@69", Some("v0.33.0"), "linux", ResolveError::Parse),
        ("opera", Some("1.2"), "linux", ResolveError::UnsupportedBrowser),
        ("firefox", Some("v0.33.0"), "plan9", ResolveError::UnsupportedPlatform),
        ("firefox", None, "linux", ResolveError::UpstreamLookup),
    ];
    for (spec, lookup, os, expected) in cases {
        match plan_acquire(spec, "/tmp/target", &available, lookup, os, "x86_64") {
            Ok(_) => panic!("{:?} on {:?} must fail", spec, os),
            Err(e) => assert_eq!(e, expected),
        }
    }
}

#[test]
fn error_messages_name_the_failure() {
    assert_eq!(
        ResolveError::UpstreamLookup.message(),
        "latest-version lookup failed"
    );
    assert_eq!(
        browser_manager::errors::ArchiveError::NotFound.message(),
        "archive not found"
    );
}
