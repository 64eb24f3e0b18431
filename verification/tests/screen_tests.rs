use chip8::screen::Screen;

fn lit(screen: &Screen) -> Vec<(u8, u8)> {
    Screen::iter_coord().into_iter().filter(|(x, y)| screen.is_on(*x, *y)).collect()
}

#[test]
fn new_screen_is_dark() {
    let screen = Screen::new();
    assert_eq!(lit(&screen), vec![]);
}

#[test]
fn set_turns_one_pixel_on_and_off() {
    let mut screen = Screen::new();
    screen.set(63, 31, true);
    screen.set(0, 0, true);
    screen.set(5, 7, true);
    assert!(screen.is_on(63, 31));
    assert!(screen.is_on(0, 0));
    assert!(screen.is_on(5, 7));
    assert!(!screen.is_on(7, 5));
    assert_eq!(lit(&screen), vec![(0, 0), (5, 7), (63, 31)]);
    screen.set(5, 7, false);
    assert_eq!(lit(&screen), vec![(0, 0), (63, 31)]);
}

#[test]
fn clear_turns_every_pixel_off() {
    let mut screen = Screen::new();
    for (x, y) in Screen::iter_coord() {
        screen.set(x, y, (x + y) % 3 == 0);
    }
    assert!(!lit(&screen).is_empty());
    screen.clear();
    for y in 0..32 {
        for x in 0..64 {
            assert!(!screen.is_on(x, y));
        }
    }
    screen.clear();
    assert_eq!(lit(&screen), vec![]);
}

#[test]
fn iter_coord_walks_row_by_row() {
    let coordinates = Screen::iter_coord();
    assert_eq!(coordinates.len(), 2048);
    assert_eq!(coordinates[0], (0, 0));
    assert_eq!(coordinates[1], (1, 0));
    assert_eq!(coordinates[63], (63, 0));
    assert_eq!(coordinates[64], (0, 1));
    assert_eq!(coordinates[2047], (63, 31));
    for (i, (x, y)) in coordinates.iter().enumerate() {
        assert_eq!(*x as usize, i % 64);
        assert_eq!(*y as usize, i / 64);
    }
}

#[test]
fn draw_sprite_most_significant_bit_is_leftmost() {
    let mut screen = Screen::new();
    let (collided, changed) = screen.draw_sprite(10, 5, &[0b1000_0001, 0b0100_0000]);
    assert!(!collided);
    assert_eq!(changed, vec![(10, 5), (17, 5), (11, 6)]);
    assert_eq!(lit(&screen), vec![(10, 5), (17, 5), (11, 6)]);
}

#[test]
fn draw_sprite_toggles_and_reports_collision() {
    let mut screen = Screen::new();
    screen.set(1, 0, true);
    screen.set(20, 20, true);
    let (collided, changed) = screen.draw_sprite(0, 0, &[0b1100_0000]);
    assert!(collided);
    assert_eq!(changed, vec![(0, 0), (1, 0)]);
    assert_eq!(lit(&screen), vec![(0, 0), (20, 20)]);
}

#[test]
fn draw_sprite_without_overlap_does_not_collide() {
    let mut screen = Screen::new();
    screen.set(2, 0, true);
    let (collided, changed) = screen.draw_sprite(0, 0, &[0b1101_0000]);
    assert!(!collided);
    assert_eq!(changed, vec![(0, 0), (1, 0), (3, 0)]);
    assert_eq!(lit(&screen), vec![(0, 0), (1, 0), (2, 0), (3, 0)]);
}

#[test]
fn draw_sprite_twice_restores_the_screen() {
    let mut screen = Screen::new();
    screen.set(12, 9, true);
    screen.set(13, 10, true);
    screen.set(40, 3, true);
    let before = lit(&screen);
    let sprite = [0xF0, 0x90, 0x90, 0x90, 0xF0];
    let (first, changed_first) = screen.draw_sprite(10, 8, &sprite);
    assert!(first);
    let (second, changed_second) = screen.draw_sprite(10, 8, &sprite);
    assert!(second);
    assert_eq!(changed_first, changed_second);
    assert_eq!(lit(&screen), before);
}

#[test]
fn second_draw_collides_iff_first_lit_a_pixel() {
    // Every covered pixel was lit: the first draw turns them all off, so
    // the second finds nothing lit under the sprite.
    let mut screen = Screen::new();
    screen.set(0, 0, true);
    screen.set(1, 0, true);
    let (first, _) = screen.draw_sprite(0, 0, &[0b1100_0000]);
    assert!(first);
    assert_eq!(lit(&screen), vec![]);
    let (second, _) = screen.draw_sprite(0, 0, &[0b1100_0000]);
    assert!(!second);
    assert_eq!(lit(&screen), vec![(0, 0), (1, 0)]);
    // An empty sprite never collides, whatever is lit elsewhere.
    let (third, changed) = screen.draw_sprite(0, 0, &[0, 0]);
    assert!(!third);
    assert_eq!(changed, vec![]);
}

#[test]
fn draw_sprite_clips_at_the_right_edge() {
    let mut screen = Screen::new();
    let (collided, changed) = screen.draw_sprite(60, 0, &[0xFF]);
    assert!(!collided);
    assert_eq!(changed, vec![(60, 0), (61, 0), (62, 0), (63, 0)]);
    assert_eq!(lit(&screen), vec![(60, 0), (61, 0), (62, 0), (63, 0)]);
}

#[test]
fn draw_sprite_clips_at_the_bottom_edge() {
    let mut screen = Screen::new();
    let (collided, changed) = screen.draw_sprite(0, 30, &[0x80, 0x80, 0x80, 0x80]);
    assert!(!collided);
    assert_eq!(changed, vec![(0, 30), (0, 31)]);
    assert_eq!(lit(&screen), vec![(0, 30), (0, 31)]);
}

#[test]
fn draw_sprite_wraps_the_origin() {
    let mut screen = Screen::new();
    let (_, changed) = screen.draw_sprite(64 + 3, 32 + 4, &[0x80]);
    assert_eq!(changed, vec![(3, 4)]);
    let (_, changed) = screen.draw_sprite(255, 255, &[0xC0, 0xC0]);
    assert_eq!(changed, vec![(63, 31)]);
    assert_eq!(lit(&screen), vec![(3, 4), (63, 31)]);
}

#[test]
fn draw_sprite_of_no_rows_changes_nothing() {
    let mut screen = Screen::new();
    screen.set(1, 1, true);
    let (collided, changed) = screen.draw_sprite(1, 1, &[]);
    assert!(!collided);
    assert_eq!(changed, vec![]);
    assert_eq!(lit(&screen), vec![(1, 1)]);
}

#[test]
fn draw_sprite_taller_than_the_screen() {
    let mut screen = Screen::new();
    let rows = vec![0x01u8; 40];
    let (collided, changed) = screen.draw_sprite(0, 0, &rows);
    assert!(!collided);
    assert_eq!(changed.len(), 32);
    assert_eq!(changed[0], (7, 0));
    assert_eq!(changed[31], (7, 31));
}
