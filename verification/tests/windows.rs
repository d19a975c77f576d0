use codex_usage_tray::settings::Platform;
use codex_usage_tray::window::{
    click_action, menu_action, menu_entries, popup_fits, popup_position, tray_image, ClickAction,
    MenuAction, WorkArea,
};

#[test]
fn icon_is_a_disc_in_a_disc() {
    let rgba = tray_image();
    assert_eq!(rgba.len(), 32 * 32 * 4);
    for y in 0..32usize {
        for x in 0..32usize {
            let dx = x as f32 - 16.0;
            let dy = y as f32 - 16.0;
            let dist = (dx * dx + dy * dy).sqrt();
            let alpha = if dist <= 14.0 { 255 } else { 0 };
            let (r, g, b) = if dist < 8.0 { (28, 214, 187) } else { (32, 77, 98) };
            let at = 4 * (32 * y + x);
            assert_eq!(rgba[at..at + 4], [r, g, b, alpha], "{} {}", x, y);
        }
    }
}

#[test]
fn popup_goes_where_it_is_wanted() {
    assert_eq!(popup_position(700, 500, None), (700, 500));
    assert_eq!(popup_position(8, 652, None), (8, 652));
}

#[test]
fn popup_stays_inside() {
    assert_eq!(popup_position(-100, 5_000, None), (8, 652));
    assert_eq!(popup_position(i64::MAX, i64::MIN, None), (1442, 8));
    let area = WorkArea { left: -1920, top: -40, width: 486, height: 436 };
    assert!(popup_fits(Some(area)));
    assert_eq!(popup_position(0, 0, Some(area)), (-1912, -32));
    assert!(!popup_fits(Some(WorkArea { width: 485, ..area })));
    assert!(!popup_fits(Some(WorkArea { height: 435, ..area })));
    assert!(popup_fits(None));
    let far = WorkArea { left: i32::MAX, top: i32::MIN, width: u32::MAX, height: u32::MAX };
    assert_eq!(popup_position(i64::MAX, i64::MIN, Some(far)), (i32::MAX, i32::MIN + 8));
}

#[test]
fn popup_agrees_with_floats() {
    let area = WorkArea { left: -300, top: 25, width: 1440, height: 875 };
    let (left, top) = (area.left as f64, area.top as f64);
    let (right, bottom) = (left + area.width as f64, top + area.height as f64);
    for step in -4_000..4_000 {
        let cursor = step as f64 * 0.75 + 0.125;
        let x = (cursor - 470.0 + 18.0).clamp(left + 8.0, right - 470.0 - 8.0).round() as i32;
        let y = (cursor - 420.0 - 12.0).clamp(top + 8.0, bottom - 420.0 - 8.0).round() as i32;
        let wanted_x = (cursor - 470.0 + 18.0).round() as i64;
        let wanted_y = (cursor - 420.0 - 12.0).round() as i64;
        assert_eq!(popup_position(wanted_x, wanted_y, Some(area)), (x, y));
    }
}

#[test]
fn menu_by_system() {
    let texts = |platform| -> Vec<(&'static str, &'static str)> {
        menu_entries(platform).iter().map(|e| (e.id, e.title)).collect()
    };
    assert_eq!(
        texts(Platform::Windows),
        vec![("refresh", "刷新"), ("settings", "设置"), ("autostart", "切换开机启动"), ("quit", "退出")]
    );
    assert_eq!(texts(Platform::MacOs), vec![("refresh", "刷新"), ("settings", "设置"), ("quit", "退出")]);
    assert_eq!(texts(Platform::Other), texts(Platform::MacOs));
}

#[test]
fn every_entry_acts() {
    let actions = |platform| -> Vec<MenuAction> {
        menu_entries(platform).iter().map(|e| menu_action(platform, e.id)).collect()
    };
    assert_eq!(
        actions(Platform::Windows),
        vec![MenuAction::Refresh, MenuAction::OpenSettings, MenuAction::ToggleAutostart, MenuAction::Quit]
    );
    assert_eq!(
        actions(Platform::Other),
        vec![MenuAction::Refresh, MenuAction::OpenSettings, MenuAction::Quit]
    );
    assert_eq!(menu_action(Platform::MacOs, "autostart"), MenuAction::Ignore);
    assert_eq!(menu_action(Platform::Windows, "Quit"), MenuAction::Ignore);
}

#[test]
fn released_left_button_toggles_the_popup() {
    assert_eq!(click_action(true, true, true), ClickAction::Hide);
    assert_eq!(click_action(true, true, false), ClickAction::Show);
    for visible in [false, true] {
        assert_eq!(click_action(true, false, visible), ClickAction::Ignore);
        assert_eq!(click_action(false, true, visible), ClickAction::Ignore);
        assert_eq!(click_action(false, false, visible), ClickAction::Ignore);
    }
}
