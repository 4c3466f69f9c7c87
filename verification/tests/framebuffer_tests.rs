use astro_raster::framebuffer::{Framebuffer, DEPTH_FAR};

fn assert_cleared(fb: &Framebuffer, bg: u32) {
    for p in fb.buffer.iter() {
        assert_eq!(*p, bg);
    }
    for d in fb.zbuffer.iter() {
        assert_eq!(*d, DEPTH_FAR);
    }
    for e in fb.emission_buffer.iter() {
        assert_eq!(*e, 0);
    }
}

#[test]
fn clear_resets_every_plane() {
    let mut fb = Framebuffer::new(4, 4);
    fb.set_background_color(0x333355);
    fb.set_current_color(0xFF0000);
    fb.point_with_emission(1, 2, 100, 0x00FF00);
    fb.clear();
    assert_cleared(&fb, 0x333355);
}

#[test]
fn clear_twice_equals_clear_once() {
    let mut fb = Framebuffer::new(3, 5);
    fb.set_background_color(0x102030);
    fb.point_with_emission(0, 0, 5, 7);
    fb.clear();
    let buffer_once = fb.buffer.clone();
    let zbuffer_once = fb.zbuffer.clone();
    let emission_once = fb.emission_buffer.clone();
    fb.clear();
    assert_eq!(fb.buffer, buffer_once);
    assert_eq!(fb.zbuffer, zbuffer_once);
    assert_eq!(fb.emission_buffer, emission_once);
}

#[test]
fn nearer_write_wins() {
    let mut fb = Framebuffer::new(2, 2);
    fb.set_current_color(0x111111);
    fb.point_with_emission(1, 1, 1000, 5);
    fb.set_current_color(0x222222);
    fb.point_with_emission(1, 1, 500, 9);
    assert_eq!(fb.buffer[3], 0x222222);
    assert_eq!(fb.zbuffer[3], 500);
    assert_eq!(fb.emission_buffer[3], 9);
}

#[test]
fn farther_write_is_ignored() {
    let mut fb = Framebuffer::new(2, 2);
    fb.set_current_color(0x111111);
    fb.point_with_emission(0, 1, 500, 5);
    fb.set_current_color(0x222222);
    fb.point_with_emission(0, 1, 1000, 9);
    assert_eq!(fb.buffer[2], 0x111111);
    assert_eq!(fb.zbuffer[2], 500);
    assert_eq!(fb.emission_buffer[2], 5);
}

#[test]
fn equal_depth_keeps_first_writer() {
    let mut fb = Framebuffer::new(1, 1);
    fb.set_current_color(0xAAAAAA);
    fb.point_with_emission(0, 0, 700, 1);
    fb.set_current_color(0xBBBBBB);
    fb.point_with_emission(0, 0, 700, 2);
    assert_eq!(fb.buffer[0], 0xAAAAAA);
    assert_eq!(fb.emission_buffer[0], 1);
}

#[test]
fn out_of_bounds_write_is_a_no_op() {
    let mut fb = Framebuffer::new(2, 3);
    let buffer = fb.buffer.clone();
    let zbuffer = fb.zbuffer.clone();
    let emission = fb.emission_buffer.clone();
    fb.point_with_emission(2, 0, 1, 0xFF);
    fb.point_with_emission(0, 3, 1, 0xFF);
    fb.point_with_emission(99, 99, 1, 0xFF);
    assert_eq!(fb.buffer, buffer);
    assert_eq!(fb.zbuffer, zbuffer);
    assert_eq!(fb.emission_buffer, emission);
}
