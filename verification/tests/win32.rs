use spark::theme::{border_shade, preferred_font, rgb, Shade};
use spark::win32::{
    clsid_desktop_manager, clsid_desktop_manager_legacy, desktop_guid, desktop_manager_ready,
    focus_steps, iid_desktop_manager, is_already_running, retry_with_legacy_class, to_wide,
    FocusStep,
};

#[test]
fn to_wide_matches_encode_utf16() {
    for s in ["", "\u{26A1} Spark", "Global\\Mutex", "a\u{1F600}b", "\u{10FFFF}\u{FFFF}"] {
        let expected: Vec<u16> = s.encode_utf16().chain(std::iter::once(0)).collect();
        assert_eq!(to_wide(s), expected);
    }
}

#[test]
fn desktop_guid_decodes_little_endian() {
    let bytes: [u8; 16] = [1, 2, 3, 4, 5, 6, 7, 8, 9, 10, 11, 12, 13, 14, 15, 16];
    let g = desktop_guid(0, 16, &bytes).unwrap();
    assert_eq!(g.data1, 0x04030201);
    assert_eq!(g.data2, 0x0605);
    assert_eq!(g.data3, 0x0807);
    assert_eq!(g.data4, [9, 10, 11, 12, 13, 14, 15, 16]);
    assert!(desktop_guid(2, 16, &bytes).is_none());
    assert!(desktop_guid(0, 15, &bytes).is_none());
    let g = desktop_guid(0, 16, &[0xFF; 16]).unwrap();
    assert_eq!((g.data1, g.data2, g.data3), (u32::MAX, u16::MAX, u16::MAX));
}

#[test]
fn already_running() {
    assert!(is_already_running(183));
    assert!(!is_already_running(0));
}

#[test]
fn focus_attaches_input_only_across_threads() {
    assert_eq!(
        focus_steps(1, 2),
        vec![
            FocusStep::AttachInput,
            FocusStep::Restore,
            FocusStep::BringToTop,
            FocusStep::SetForeground,
            FocusStep::SwitchTo,
            FocusStep::DetachInput
        ]
    );
    assert_eq!(focus_steps(7, 7), vec![FocusStep::Restore, FocusStep::BringToTop, FocusStep::SetForeground]);
}

#[test]
fn palette() {
    assert_eq!(rgb(Shade::Background), (10, 12, 16));
    assert_eq!(rgb(border_shade(true)), (245, 158, 11));
    assert_eq!(rgb(border_shade(false)), (40, 47, 63));
    assert_eq!(rgb(Shade::Muted), (100, 116, 139));
}

#[test]
fn first_existing_font_wins() {
    assert_eq!(preferred_font(&vec![false, true, true]), Some(1));
    assert_eq!(preferred_font(&vec![false, false]), None);
    assert_eq!(preferred_font(&vec![]), None);
}

#[test]
fn desktop_manager_decisions() {
    assert!(!retry_with_legacy_class(0));
    assert!(retry_with_legacy_class(-2147221164));
    assert!(desktop_manager_ready(0, false));
    assert!(!desktop_manager_ready(0, true));
    assert!(!desktop_manager_ready(1, false));
    assert_eq!(clsid_desktop_manager().data1, 0xAA509086);
    assert_eq!(clsid_desktop_manager_legacy().data1, 0xAA509085);
    assert_eq!(clsid_desktop_manager().data4, [0x8F, 0x95, 0x58, 0x9D, 0x3C, 0x07, 0xB4, 0x8A]);
    let i = iid_desktop_manager();
    assert_eq!((i.data1, i.data2, i.data3), (0xA5CD92FF, 0x29BE, 0x454C));
    assert_eq!(i.data4, [0x8D, 0x04, 0xD8, 0x28, 0x79, 0xFB, 0x3F, 0x1B]);
}
