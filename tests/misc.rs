use gateau::archive::{comma_separated, default_format, ArchiveFormat};
use gateau::browser::Browser;
use gateau::cli::{OutputFormat, WrappedCmd};
use gateau::chrome::{variant_base_folder, ChromeVariant, Platform};
use gateau::cookie::{same_site_from_code, SameSite};
use gateau::dpapi::{dpapi_buffer_len, encrypted_key_blob, DecryptDpapiKeyError};
use gateau::firefox::FirefoxCookie;
use gateau::profiles::{default_profile_path, IniSection};
use gateau::timestamp::{clamp_unix_seconds, MAX_UNIX_SECONDS, MIN_UNIX_SECONDS};

const WINDOWS_PROFILE: &str = r#"
[Install308046B0AF4A39CB]
Default=Profiles/i5izpoj2.default-release
Locked=1

[Profile1]
Name=default
IsRelative=1
Path=Profiles/3u2tt9lg.default
Default=1

[Profile0]
Name=default-release
IsRelative=1
Path=Profiles/i5izpoj2.default-release

[General]
StartWithLastProfile=1
Version=2

[BackgroundTasksProfiles]
MozillaBackgroundTask-308046B0AF4A39CB-backgroundupdate=2flhubqu.MozillaBackgroundTask-308046B0AF4A39CB-backgroundupdate"#;

const LINUX_PROFILE: &str = r#"
[Install4F96D1932A9F858E]
Default=npf4bci2.default-release-1602083895780
Locked=1

[Profile1]
Name=default
IsRelative=1
Path=1fi7auz8.default
Default=1

[Profile0]
Name=default-release
IsRelative=1
Path=npf4bci2.default-release-1602083895780

[General]
StartWithLastProfile=1
Version=2"#;

fn sections(text: &str) -> Vec<IniSection> {
    let ini = tini::Ini::from_string(text).unwrap();
    ini.iter()
        .map(|(name, section)| IniSection {
            name: name.clone(),
            entries: section.iter().map(|(k, v)| (k.clone(), v.clone())).collect(),
        })
        .collect()
}

fn section(name: &str, entries: &[(&str, &str)]) -> IniSection {
    IniSection {
        name: name.to_string(),
        entries: entries.iter().map(|(k, v)| (k.to_string(), v.to_string())).collect(),
    }
}

#[test]
fn test_get_default_profile() {
    assert_eq!(
        default_profile_path(&sections(WINDOWS_PROFILE)),
        Some("Profiles/i5izpoj2.default-release".to_string())
    );
    assert_eq!(
        default_profile_path(&sections(LINUX_PROFILE)),
        Some("npf4bci2.default-release-1602083895780".to_string())
    );
}

#[test]
fn default_profile_without_install_section() {
    let secs = vec![
        section("General", &[("Version", "2")]),
        section("Profile0", &[("Path", "a.default"), ("Default", "0")]),
        section("Profile1", &[("Path", "b.default"), ("Default", "1")]),
    ];
    assert_eq!(default_profile_path(&secs), Some("b.default".to_string()));
    let without_default = vec![
        section("General", &[("Version", "2")]),
        section("Profile0", &[("Path", "a.default"), ("Default", "0")]),
    ];
    assert_eq!(default_profile_path(&without_default), None);
    assert_eq!(default_profile_path(&Vec::new()), None);
}

#[test]
fn browser_names() {
    assert_eq!(Browser::parse("firefox"), Ok(Browser::Firefox));
    assert_eq!(Browser::parse("edge"), Ok(Browser::ChromeVariant(ChromeVariant::Edge)));
    assert_eq!("chromium".parse::<Browser>(), Ok(Browser::ChromeVariant(ChromeVariant::Chromium)));
    assert_eq!(
        Browser::parse("safari"),
        Err(String::from(
            "'safari' is not one of the supported browsers (firefox, chromium, chrome, edge)"
        ))
    );
    assert_eq!(Browser::ChromeVariant(ChromeVariant::Chrome).display_name(), "Google Chrome");
}

#[test]
fn same_site_codes() {
    assert_eq!(same_site_from_code(0), SameSite::NoRestriction);
    assert_eq!(same_site_from_code(1), SameSite::Lax);
    assert_eq!(same_site_from_code(2), SameSite::Strict);
    assert_eq!(same_site_from_code(-1), SameSite::Strict);
}

#[test]
fn firefox_expiry_is_clamped() {
    let c = FirefoxCookie {
        name: "n".into(),
        value: "v".into(),
        host: "example.com".into(),
        path: "/".into(),
        expiry: i64::MAX,
        is_secure: 1,
        same_site: 0,
        is_http_only: 2,
    }
    .into_cookie();
    assert_eq!(c.expires_nanos, 253_402_300_799 * 1_000_000_000);
    assert!(c.secure && c.http_only);
    assert_eq!(c.same_site, SameSite::NoRestriction);
    assert_eq!(c.value, "v");
    assert_eq!(clamp_unix_seconds(i64::MIN), MIN_UNIX_SECONDS);
    assert_eq!(clamp_unix_seconds(MAX_UNIX_SECONDS + 1), MAX_UNIX_SECONDS);
    assert_eq!(clamp_unix_seconds(1_700_000_000), 1_700_000_000);
}

#[test]
fn dpapi_key_blob_strips_marker() {
    assert_eq!(encrypted_key_blob("RFBBUElzZWNyZXQ=").unwrap(), b"secret".to_vec());
}

#[test]
fn dpapi_key_errors() {
    match encrypted_key_blob("WFBBUElzZWNyZXQ=") {
        Err(DecryptDpapiKeyError::InvalidKeyPrefix { key }) => assert_eq!(key, b"XPAPIsecret".to_vec()),
        other => panic!("unexpected {other:?}"),
    }
    match encrypted_key_blob("RFBB") {
        Err(DecryptDpapiKeyError::InvalidKeyPrefix { key }) => assert_eq!(key, b"DPA".to_vec()),
        other => panic!("unexpected {other:?}"),
    }
    match encrypted_key_blob("not base64!") {
        Err(DecryptDpapiKeyError::InvalidKeyFormat { key, .. }) => assert_eq!(key, "not base64!"),
        other => panic!("unexpected {other:?}"),
    }
    assert_eq!(dpapi_buffer_len(&[0u8; 7]).unwrap(), 7);
}

#[test]
fn archive_options() {
    assert_eq!(default_format(true), ArchiveFormat::Zip);
    assert_eq!(default_format(false), ArchiveFormat::TarGz);
    assert_eq!(ArchiveFormat::parse("tgz"), Ok(ArchiveFormat::TarGz));
    assert_eq!(ArchiveFormat::TarGz.extension(), "tar.gz");
    assert!(ArchiveFormat::parse("rar").is_err());
    assert_eq!(comma_separated(None), Vec::<String>::new());
    assert_eq!(comma_separated(Some("a,b,,c".into())), vec!["a", "b", "", "c"]);
    assert_eq!(comma_separated(Some(String::new())), vec![""]);
}

#[test]
fn immutable_uri_wraps_path() {
    assert_eq!(
        gateau::database::immutable_uri("/home/u/.config/chromium/Default/Cookies"),
        "file:/home/u/.config/chromium/Default/Cookies?immutable=1"
    );
}

#[test]
fn chrome_base_folders() {
    assert_eq!(variant_base_folder(ChromeVariant::Chrome, Platform::Linux), "google-chrome");
    assert_eq!(variant_base_folder(ChromeVariant::Edge, Platform::Windows), "Microsoft/Edge");
    assert_eq!(variant_base_folder(ChromeVariant::Chromium, Platform::MacOs), "Chromium");
}

#[test]
fn wrapped_commands() {
    assert_eq!(WrappedCmd::parse("curl"), Ok(WrappedCmd::Curl));
    assert_eq!(WrappedCmd::parse("httpie"), Ok(WrappedCmd::HttpieHttps));
    assert_eq!(WrappedCmd::parse("http"), Ok(WrappedCmd::HttpieHttp));
    assert_eq!(
        WrappedCmd::parse("lynx"),
        Err(String::from("'lynx' is not one of the supported commands (curl, wget, http(s))"))
    );
    assert_eq!(WrappedCmd::Wget.invocation(), ("wget", "--load-cookies", OutputFormat::Netscape));
    assert_eq!(WrappedCmd::HttpieHttps.invocation(), ("https", "--session", OutputFormat::HttpieSession));
}

#[test]
fn output_formats() {
    assert_eq!(OutputFormat::parse("netscape"), Ok(OutputFormat::Netscape));
    assert_eq!(OutputFormat::parse("httpie"), Ok(OutputFormat::HttpieSession));
    assert_eq!("human".parse::<OutputFormat>(), Ok(OutputFormat::Human));
    assert!(OutputFormat::parse("json").is_err());
}

fn lib_cookie(domain: &str, secure: bool, expires_nanos: i128) -> gateau::Cookie {
    gateau::Cookie {
        name: String::from("sid"),
        value: String::from("abc"),
        domain: String::from(domain),
        path: String::from("/"),
        expires_nanos,
        secure,
        http_only: false,
        same_site: SameSite::Lax,
    }
}

#[test]
fn netscape_text() {
    let cookies = vec![
        lib_cookie(".example.com", true, 1_700_000_000_500_000_000),
        lib_cookie("example.org", false, -500_000_000),
    ];
    assert_eq!(
        gateau::netscape::netscape(&cookies),
        "# Netscape HTTP Cookie File\n\
         .example.com\tTRUE\t/\tTRUE\t1700000000\tsid\tabc\n\
         example.org\tFALSE\t/\tFALSE\t-1\tsid\tabc\n"
    );
    assert_eq!(gateau::netscape::netscape(&Vec::new()), "# Netscape HTTP Cookie File\n");
}

#[test]
fn netscape_seconds_round_down() {
    assert_eq!(gateau::netscape::seconds_of(0), 0);
    assert_eq!(gateau::netscape::seconds_of(999_999_999), 0);
    assert_eq!(gateau::netscape::seconds_of(-1), -1);
    assert_eq!(gateau::netscape::seconds_of(-1_000_000_000), -1);
    assert_eq!(gateau::netscape::seconds_of(-1_000_000_001), -2);
    assert_eq!(gateau::netscape::seconds_of(i128::MIN), i128::MIN / 1_000_000_000 - 1);
}
