use chip8::screen::Screen;

#[test]
fn clear() {
    let mut screen = Screen::new();
    screen.set_pixel(0, 0, true);
    screen.set_pixel(36, 1, true);
    screen.set_pixel(59, 1, true);
    screen.set_pixel(63, 31, true);

    screen.clear();
    for y in 0..32 {
        for x in 0..64 {
            assert_eq!(false, screen.get_pixel(x, y));
        }
    }
}

#[test]
fn set_pixel() {
    let mut screen = Screen::new();
    assert_eq!(false, screen.get_pixel(10, 0));

    let mut changed = screen.set_pixel(10, 0, false);
    assert_eq!(false, screen.get_pixel(10, 0));
    assert_eq!(false, changed);

    changed = screen.set_pixel(10, 0, true);
    assert_eq!(true, screen.get_pixel(10, 0));
    assert_eq!(true, changed);

    changed = screen.set_pixel(10, 0, true);
    assert_eq!(true, screen.get_pixel(10, 0));
    assert_eq!(false, changed);
}

#[test]
fn draw_sprite_line() {
    let line = 0b00111100;
    let mut screen = Screen::new();
    let mut changed = screen.draw_sprite_line(10, 0, line);

    assert_eq!(false, screen.get_pixel(10, 0));
    assert_eq!(false, screen.get_pixel(11, 0));
    assert_eq!(true, screen.get_pixel(12, 0));
    assert_eq!(true, screen.get_pixel(13, 0));
    assert_eq!(true, screen.get_pixel(14, 0));
    assert_eq!(true, screen.get_pixel(15, 0));
    assert_eq!(false, screen.get_pixel(16, 0));
    assert_eq!(false, screen.get_pixel(17, 0));
    assert_eq!(true, changed);

    changed = screen.draw_sprite_line(10, 0, line);
    assert_eq!(false, changed);
}

#[test]
fn draw_sprite_line_clips_at_right_edge() {
    let mut screen = Screen::new();
    let changed = screen.draw_sprite_line(60, 5, 0xFF);
    assert!(changed);
    for x in 60..64 {
        assert_eq!(true, screen.get_pixel(x, 5));
    }
    assert_eq!(false, screen.get_pixel(59, 5));

    let no_change = screen.draw_sprite_line(64, 5, 0xFF);
    assert_eq!(false, no_change);
}

#[test]
fn draw_sprite_line_overwrites_rather_than_toggles() {
    let mut screen = Screen::new();
    screen.set_pixel(3, 2, true);
    let changed = screen.draw_sprite_line(0, 2, 0b11110000);
    assert!(changed);
    assert_eq!(true, screen.get_pixel(0, 2));
    assert_eq!(true, screen.get_pixel(1, 2));
    assert_eq!(true, screen.get_pixel(2, 2));
    assert_eq!(true, screen.get_pixel(3, 2));
    assert_eq!(false, screen.get_pixel(4, 2));
}
