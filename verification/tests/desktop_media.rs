use yado_notch::icons::{bgra_to_rgba, icon_file_name, icon_image, png_data_url, ICON_SIZE};
use yado_notch::media::{pick_session, pretty_app};
use yado_notch::shelf::{
    drag_failed, query_continue_drag, DragEffect, DragStep, ShelfItem, DRAGDROP_S_CANCEL, DRAGDROP_S_DROP,
};
use yado_notch::windows::{
    is_app_window, is_shell_wallpaper, point_covered_by_other, skip_taskbar_style,
    z_order_insert_after, WinRect, WindowProbe,
};

#[test]
fn pretty_app_names() {
    assert_eq!(pretty_app("Microsoft.ZuneMusic_8wekyb3d8bbwe!App"), "ZuneMusic");
    assert_eq!(pretty_app("chrome"), "Chrome");
    assert_eq!(pretty_app("Spotify.exe"), "Exe");
    assert_eq!(pretty_app("C:\\Apps\\player"), "Player");
    assert_eq!(pretty_app(""), "");
    assert_eq!(pretty_app("a."), "");
    assert_eq!(pretty_app("ßtore"), "SStore");
}

#[test]
fn session_pick_prefers_playing() {
    assert_eq!(pick_session(&vec![]), None);
    assert_eq!(pick_session(&vec![false, false]), Some(0));
    assert_eq!(pick_session(&vec![false, true, true]), Some(1));
}

#[test]
fn icon_names_and_urls() {
    assert_eq!(icon_file_name("Chrome.EXE"), "chrome.exe.png");
    assert_eq!(png_data_url(&[]), "data:image/png;base64,");
    assert_eq!(png_data_url(b"abc"), "data:image/png;base64,YWJj");
    assert_eq!(png_data_url(b"ab"), "data:image/png;base64,YWI=");
    assert_eq!(png_data_url(b"M"), "data:image/png;base64,TQ==");
    assert_eq!(png_data_url(b"ManM"), "data:image/png;base64,TWFuTQ==");
    assert_eq!(png_data_url(&[251, 255, 191]), "data:image/png;base64,+/+/");
}

#[test]
fn pixels_swap_blue_and_red() {
    let mut p = vec![1, 2, 3, 4, 5, 6, 7, 8, 9, 10];
    bgra_to_rgba(&mut p);
    assert_eq!(p, vec![3, 2, 1, 4, 7, 6, 5, 8, 9, 10]);
}

#[test]
fn drag_effects() {
    assert_eq!(DragEffect::from_drop_effect(2), DragEffect::Move);
    assert_eq!(DragEffect::from_drop_effect(3), DragEffect::Move);
    assert_eq!(DragEffect::from_drop_effect(5), DragEffect::Copy);
    assert_eq!(DragEffect::from_drop_effect(4), DragEffect::Link);
    assert_eq!(DragEffect::from_drop_effect(0), DragEffect::NoEffect);
    assert_eq!(DragEffect::Move.as_str(), "move");
    assert_eq!(DragEffect::NoEffect.as_str(), "none");
    let item = ShelfItem { path: "p".to_string(), name: "n".to_string(), added_at: 3 };
    assert_eq!(item.clone().added_at, 3);
}

#[test]
fn drag_loop_steps() {
    assert_eq!(query_continue_drag(true, 0, 0), DragStep::Cancel);
    assert_eq!(query_continue_drag(false, 0, 250_000_001), DragStep::Drop);
    assert_eq!(query_continue_drag(false, 0, 250_000_000), DragStep::Continue);
    assert_eq!(query_continue_drag(false, 1, 900_000_000), DragStep::Continue);
}

#[test]
fn taskbar_style_and_z_order() {
    assert_eq!(skip_taskbar_style(0x4_0000), 0x80);
    assert_eq!(skip_taskbar_style(0x4_0101), 0x181);
    assert_eq!(z_order_insert_after(true), 1);
    assert_eq!(z_order_insert_after(false), 0);
}

#[test]
fn window_classification() {
    assert!(is_shell_wallpaper("Progman"));
    assert!(is_shell_wallpaper("WorkerW"));
    assert!(!is_shell_wallpaper("Chrome_WidgetWin_1"));
    assert!(is_app_window(true, false, 0x100, false, false));
    assert!(!is_app_window(true, false, 0x20, false, false));
    assert!(!is_app_window(true, false, 0x80, false, false));
    assert!(!is_app_window(true, true, 0, false, false));
    assert!(!is_app_window(true, false, 0, false, true));
}

fn full(handle: isize) -> WindowProbe {
    WindowProbe { handle, app_window: true, rect: Some(WinRect { left: -8, top: -8, right: 1928, bottom: 1088 }) }
}

#[test]
fn fullscreen_cover_detection() {
    let none = WindowProbe { handle: 0, app_window: false, rect: None };
    let small = WindowProbe { handle: 5, app_window: true, rect: Some(WinRect { left: 0, top: 0, right: 800, bottom: 600 }) };
    // Foreground fullscreen app covers.
    assert!(point_covered_by_other(960, 0, 1, 1920, 1080, &full(7), &vec![]));
    // Our own window in the foreground does not count.
    assert!(!point_covered_by_other(960, 0, 7, 1920, 1080, &full(7), &vec![]));
    // A fullscreen window above ours covers; one below does not.
    assert!(point_covered_by_other(960, 0, 1, 1920, 1080, &none, &vec![small, full(9), full(1)]));
    assert!(!point_covered_by_other(960, 0, 1, 1920, 1080, &none, &vec![small, full(1), full(9)]));
    assert!(!point_covered_by_other(960, 0, 1, 1920, 1080, &none, &vec![small]));
}

#[test]
fn icon_image_is_rgba_square() {
    let n = (4 * ICON_SIZE * ICON_SIZE) as usize;
    let bgra: Vec<u8> = (0..n).map(|i| (i % 251) as u8).collect();
    let icon = icon_image(bgra.clone()).unwrap();
    let png = icon.png().unwrap();
    assert_eq!(&png[..8], b"\x89PNG\r\n\x1a\n");
    let decoded = image::load_from_memory(&png).unwrap().to_rgba8();
    assert_eq!(decoded.width(), 48);
    assert_eq!(decoded.height(), 48);
    let raw = decoded.as_raw();
    assert_eq!(raw.len(), n);
    for p in 0..n / 4 {
        let i = 4 * p;
        assert_eq!(&raw[i..i + 4], &[bgra[i + 2], bgra[i + 1], bgra[i], bgra[i + 3]]);
    }
    assert!(icon_image(vec![0u8; n - 1]).is_none());
    assert!(icon_image(Vec::new()).is_none());
}

#[test]
fn drag_result_codes() {
    assert!(!drag_failed(0));
    assert!(!drag_failed(DRAGDROP_S_DROP));
    assert!(!drag_failed(DRAGDROP_S_CANCEL));
    assert!(!drag_failed(0x0004_0102));
    // E_OUTOFMEMORY
    assert!(drag_failed(0x8007_000Eu32 as i32));
    assert!(drag_failed(-1));
}

#[test]
fn greeting_names_caller() {
    assert_eq!(yado_notch::widget::greet("Ada"), "Hello, Ada! You've been greeted from Rust!");
}
