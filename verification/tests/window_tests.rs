use udpfwd::version::{encode_version, VERSION_BUILD, VERSION_MAJOR, VERSION_MINOR};
use udpfwd::window::{centered_origin, encode_utf16_nul, tray_tip_field, window_style, Rect};

#[test]
fn style_has_minimize_without_maximize() {
    assert_eq!(window_style(0), 0x0002_0000);
    assert_eq!(window_style(0x0001_0000), 0x0002_0000);
    assert_eq!(window_style(0x00CF_0000), 0x00CE_0000);
    assert_eq!(window_style(-1), -1 & !0x0001_0000);
}

#[test]
fn centring() {
    let r = Rect { left: 100, top: 50, right: 384, bottom: 198 };
    assert_eq!(centered_origin(1920, 1080, r), ((1920 - 284) / 2, (1080 - 148) / 2));
    let big = Rect { left: 0, top: 0, right: 103, bottom: 10 };
    assert_eq!(centered_origin(100, 7, big), (-1, -1));
}

#[test]
fn utf16_text() {
    assert_eq!(encode_utf16_nul("TaskbarCreated"), "TaskbarCreated\0".encode_utf16().collect::<Vec<u16>>());
    let s = "A\u{e9}\u{1F600}";
    assert_eq!(encode_utf16_nul(s), format!("{s}\0").encode_utf16().collect::<Vec<u16>>());
    assert_eq!(encode_utf16_nul(""), vec![0u16]);
}

#[test]
fn tray_tip() {
    let tip: Vec<u16> = "UDP Forwarder\0".encode_utf16().collect();
    let field = tray_tip_field(&tip);
    assert_eq!(field.len(), 128);
    assert_eq!(&field[..13], &tip[..13]);
    assert!(field[13..].iter().all(|&u| u == 0));
    let long: Vec<u16> = vec![65; 300];
    let field = tray_tip_field(&long);
    assert!(field[..127].iter().all(|&u| u == 65));
    assert_eq!(field[127], 0);
    assert!(tray_tip_field(&[]).iter().all(|&u| u == 0));
}

#[test]
fn version_number() {
    assert_eq!(encode_version(VERSION_MAJOR, VERSION_MINOR, VERSION_BUILD), 0x0001_0000_0000_0001);
    assert_eq!(encode_version(2, 3, 4), (2u64 << 48) | (3u64 << 32) | 4);
}
