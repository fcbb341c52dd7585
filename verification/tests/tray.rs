use std::sync::mpsc;

use rust_autossh::tray::{click_shows, menu_command, tray_icon, TrayCommand, WindowsTray, MENU_EXIT, MENU_SHOW};

fn pixel(rgba: &[u8], x: usize, y: usize) -> [u8; 4] {
    let i = (y * 32 + x) * 4;
    [rgba[i], rgba[i + 1], rgba[i + 2], rgba[i + 3]]
}

#[test]
fn tray_icon_draws_white_arrows_on_a_blue_disc() {
    let rgba = tray_icon();
    assert_eq!(rgba.len(), 32 * 32 * 4);
    assert_eq!(pixel(&rgba, 0, 0), [0, 0, 0, 0]);
    assert_eq!(pixel(&rgba, 15, 15), [24, 132, 166, 255]);
    assert_eq!(pixel(&rgba, 8, 10), [245, 248, 250, 255]);
    assert_eq!(pixel(&rgba, 23, 21), [245, 248, 250, 255]);
    assert_eq!(pixel(&rgba, 7, 11), [245, 248, 250, 255], "left arrowhead tip");
    assert_eq!(pixel(&rgba, 24, 20), [245, 248, 250, 255], "right arrowhead tip");
    assert_eq!(pixel(&rgba, 15, 1), [24, 132, 166, 255]);
    assert_eq!(pixel(&rgba, 15, 0), [0, 0, 0, 0]);
}

#[test]
fn menu_ids_map_to_commands() {
    assert_eq!(menu_command(MENU_SHOW), Some(TrayCommand::Show));
    assert_eq!(menu_command(MENU_EXIT), Some(TrayCommand::Exit));
    assert_eq!(menu_command("other"), None);
    assert!(click_shows(true, true, false));
    assert!(click_shows(true, false, true));
    assert!(!click_shows(false, true, true));
    assert!(!click_shows(true, false, false));
}

#[test]
fn tray_commands_arrive_in_order() {
    let (sender, receiver) = mpsc::channel();
    let tray = WindowsTray::from_receiver(receiver);
    assert_eq!(tray.try_recv(), None);
    sender.send(TrayCommand::Show).unwrap();
    sender.send(TrayCommand::Exit).unwrap();
    assert_eq!(tray.try_recv(), Some(TrayCommand::Show));
    assert_eq!(tray.try_recv(), Some(TrayCommand::Exit));
    assert_eq!(tray.try_recv(), None);
}
