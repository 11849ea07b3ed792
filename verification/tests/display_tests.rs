use chip8::display::Display;
use chip8::exceptions::ExceptionType;
use chip8::sprite::Sprite;

#[test]
fn fresh_display_is_blank_and_clean() {
    let mut d = Display::new();
    for y in 0..32u8 {
        for x in 0..64u8 {
            assert_eq!(d.pixel(x, y), Some(false));
        }
    }
    assert!(!d.update());
}

#[test]
fn pixel_outside_grid_is_none() {
    let d = Display::new();
    assert_eq!(d.pixel(64, 0), None);
    assert_eq!(d.pixel(0, 32), None);
    assert_eq!(d.pixel(255, 255), None);
}

#[test]
fn draw_sets_pixels_and_reports_no_collision_on_blank_field() {
    let mut d = Display::new();
    let s = Sprite::new_with_content(vec![0b1010_0000]);
    let flag = d.draw(&s, 0, 0);
    assert_eq!(flag, 0);
    assert_eq!(d.pixel(0, 0), Some(true));
    assert_eq!(d.pixel(1, 0), Some(false));
    assert_eq!(d.pixel(2, 0), Some(true));
    assert_eq!(d.pixel(3, 0), Some(false));
    assert!(d.update());
}

#[test]
fn double_draw_collides_and_restores_blank_field() {
    let mut d = Display::new();
    let s = Sprite::new_with_content(vec![0xF0, 0x90, 0x90, 0x90, 0xF0]);
    let first = d.draw(&s, 10, 5);
    assert_eq!(first, 0);
    assert_eq!(d.pixel(10, 5), Some(true));
    let second = d.draw(&s, 10, 5);
    assert_eq!(second, 1);
    for y in 0..32u8 {
        for x in 0..64u8 {
            assert_eq!(d.pixel(x, y), Some(false));
        }
    }
}

#[test]
fn partial_overlap_collides_and_xors() {
    let mut d = Display::new();
    let s = Sprite::new_with_content(vec![0b1100_0000]);
    assert_eq!(d.draw(&s, 0, 0), 0);
    // one column overlaps: pixel 1 collides and turns off, pixel 2 turns on
    assert_eq!(d.draw(&s, 1, 0), 1);
    assert_eq!(d.pixel(0, 0), Some(true));
    assert_eq!(d.pixel(1, 0), Some(false));
    assert_eq!(d.pixel(2, 0), Some(true));
}

#[test]
fn draw_wraps_past_right_edge_instead_of_clipping() {
    let mut d = Display::new();
    let s = Sprite::new_with_content(vec![0xFF]);
    assert_eq!(d.draw(&s, 60, 3), 0);
    for x in 60..64u8 {
        assert_eq!(d.pixel(x, 3), Some(true));
    }
    for x in 0..4u8 {
        assert_eq!(d.pixel(x, 3), Some(true));
    }
    assert_eq!(d.pixel(4, 3), Some(false));
    assert_eq!(d.pixel(59, 3), Some(false));
}

#[test]
fn draw_wraps_past_bottom_edge_instead_of_clipping() {
    let mut d = Display::new();
    let s = Sprite::new_with_content(vec![0x80, 0x80, 0x80]);
    assert_eq!(d.draw(&s, 5, 30), 0);
    assert_eq!(d.pixel(5, 30), Some(true));
    assert_eq!(d.pixel(5, 31), Some(true));
    assert_eq!(d.pixel(5, 0), Some(true));
    assert_eq!(d.pixel(5, 1), Some(false));
}

#[test]
fn coordinates_wrap_before_drawing() {
    let mut d = Display::new();
    let s = Sprite::new_with_content(vec![0x80]);
    assert_eq!(d.draw(&s, 64, 32), 0);
    assert_eq!(d.pixel(0, 0), Some(true));
}

#[test]
fn sprite_without_set_bits_changes_nothing_and_keeps_display_clean() {
    let mut d = Display::new();
    let s = Sprite::new_with_content(vec![0x00, 0x00]);
    assert_eq!(d.draw(&s, 0, 0), 0);
    assert!(!d.update());
    assert_eq!(d.pixel(0, 0), Some(false));
}

#[test]
fn clear_dirties_only_when_some_pixel_was_on() {
    let mut d = Display::new();
    d.clear();
    assert!(!d.update());
    let s = Sprite::new_with_content(vec![0x80]);
    d.draw(&s, 0, 0);
    assert!(d.update());
    d.clear();
    assert!(d.update());
    d.clear();
    assert!(!d.update());
}

#[test]
fn update_presents_once_per_change() {
    let mut d = Display::new();
    let s = Sprite::new_with_content(vec![0x80]);
    d.draw(&s, 0, 0);
    assert!(d.update());
    assert!(!d.update());
}

#[test]
fn sprite_accessors_follow_contents() {
    let s = Sprite::new_with_content(vec![1, 2, 3]);
    assert_eq!(s.length(), 3);
    assert_eq!(s.get(0).unwrap(), 1);
    assert_eq!(s.get(2).unwrap(), 3);
    let e = s.get(3).unwrap_err();
    assert_eq!(e.exception_type, ExceptionType::BadArgument);
}

#[test]
fn sprite_add_respects_capacity() {
    let mut s = Sprite::new(2);
    assert_eq!(s.length(), 0);
    s.add(7).unwrap();
    s.add(8).unwrap();
    let e = s.add(9).unwrap_err();
    assert_eq!(e.exception_type, ExceptionType::BadArgument);
    assert_eq!(s.length(), 2);
    assert_eq!(s.get(1).unwrap(), 8);
}

#[test]
fn sprite_set_replaces_contents_up_to_capacity() {
    let mut s = Sprite::new(3);
    s.add(1).unwrap();
    s.set(vec![4, 5]).unwrap();
    assert_eq!(s.length(), 2);
    assert_eq!(s.get(0).unwrap(), 4);
    let e = s.set(vec![1, 2, 3, 4]).unwrap_err();
    assert_eq!(e.exception_type, ExceptionType::BadArgument);
    assert_eq!(s.length(), 3);
}
