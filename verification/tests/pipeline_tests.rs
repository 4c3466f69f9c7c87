use astro_raster::color::Color;
use astro_raster::framebuffer::Framebuffer;
use astro_raster::geom::{Vec2Fx, Vec3Fx, Vertex, Mat4Fx, Uniforms, vertex_shader};
use astro_raster::noise::NoiseField;
use astro_raster::pipeline::{blend_emission, post_process, render};
use astro_raster::raster::triangle;
use astro_raster::geom::create_viewport_matrix;
use astro_raster::fixed::FX_ONE;

fn screen_vertex(x: i64, y: i64, depth: i64) -> Vertex {
    Vertex {
        position: Vec3Fx { x: 0, y: 0, z: 0 },
        normal: Vec3Fx { x: 0, y: 0, z: FX_ONE },
        tex_coords: Vec2Fx { x: 0, y: 0 },
        color: Color::new(255, 255, 255),
        transformed_position: Vec3Fx { x, y, z: depth },
        transformed_normal: Vec3Fx { x: 0, y: 0, z: FX_ONE },
    }
}

/// A single triangle fully covering a 4 by 4 target at one depth, drawn
/// in a fixed solid color with no emission: every pixel ends red at that
/// depth.
#[test]
fn full_cover_triangle_paints_every_pixel() {
    let mut fb = Framebuffer::new(4, 4);
    fb.clear();
    let half = FX_ONE / 2;
    let v0 = screen_vertex(-FX_ONE, -FX_ONE, half);
    let v1 = screen_vertex(10 * FX_ONE, -FX_ONE, half);
    let v2 = screen_vertex(-FX_ONE, 10 * FX_ONE, half);
    let frags = triangle(&v0, &v1, &v2, 4, 4);
    assert_eq!(frags.len(), 16);
    fb.set_current_color(0xFF0000);
    for f in frags.iter() {
        fb.point_with_emission(f.x, f.y, f.depth, 0);
    }
    post_process(&mut fb);
    for p in fb.buffer.iter() {
        assert_eq!(*p, 0xFF0000);
    }
    for d in fb.zbuffer.iter() {
        assert_eq!(*d, half);
    }
}

/// The same full-cover triangle with a green emission on every fragment:
/// after compositing, every channel equals round(0.8 c + 0.2 e) clamped.
#[test]
fn emission_composites_into_every_pixel() {
    let mut fb = Framebuffer::new(4, 4);
    fb.clear();
    let half = FX_ONE / 2;
    let v0 = screen_vertex(-FX_ONE, -FX_ONE, half);
    let v1 = screen_vertex(10 * FX_ONE, -FX_ONE, half);
    let v2 = screen_vertex(-FX_ONE, 10 * FX_ONE, half);
    let frags = triangle(&v0, &v1, &v2, 4, 4);
    fb.set_current_color(0xFF0000);
    for f in frags.iter() {
        fb.point_with_emission(f.x, f.y, f.depth, 0x00FF00);
    }
    post_process(&mut fb);
    // round(0.8 * 255 + 0.2 * 0) = 204; round(0.8 * 0 + 0.2 * 255) = 51.
    for p in fb.buffer.iter() {
        assert_eq!(*p, 0xCC3300);
    }
}

/// Two overlapping triangles at different depths: the nearer one owns the
/// shared pixels whatever the draw order.
#[test]
fn front_triangle_wins_either_order() {
    let front_depth = 19661; // 0.3
    let back_depth = 45875; // 0.7
    for order in 0..2 {
        let mut fb = Framebuffer::new(4, 4);
        fb.clear();
        let f0 = screen_vertex(-FX_ONE, -FX_ONE, front_depth);
        let f1 = screen_vertex(10 * FX_ONE, -FX_ONE, front_depth);
        let f2 = screen_vertex(-FX_ONE, 10 * FX_ONE, front_depth);
        let b0 = screen_vertex(-FX_ONE, -FX_ONE, back_depth);
        let b1 = screen_vertex(10 * FX_ONE, -FX_ONE, back_depth);
        let b2 = screen_vertex(-FX_ONE, 10 * FX_ONE, back_depth);
        let passes: [(u32, u32, &Vertex, &Vertex, &Vertex); 2] = if order == 0 {
            [(0x00FF00, 7, &f0, &f1, &f2), (0x0000FF, 9, &b0, &b1, &b2)]
        } else {
            [(0x0000FF, 9, &b0, &b1, &b2), (0x00FF00, 7, &f0, &f1, &f2)]
        };
        for (color, emission, a, b, c) in passes.iter() {
            let frags = triangle(a, b, c, 4, 4);
            fb.set_current_color(*color);
            for f in frags.iter() {
                fb.point_with_emission(f.x, f.y, f.depth, *emission);
            }
        }
        for p in fb.buffer.iter() {
            assert_eq!(*p, 0x00FF00);
        }
        for d in fb.zbuffer.iter() {
            assert_eq!(*d, front_depth);
        }
        for e in fb.emission_buffer.iter() {
            assert_eq!(*e, 7);
        }
    }
}

#[test]
fn blend_emission_rounds_and_clamps() {
    // 0.8 * 0xFF + 0.2 * 0 = 204 = 0xCC per red channel, and so on.
    assert_eq!(blend_emission(0xFF0000, 0x00FF00), 0xCC3300);
    assert_eq!(blend_emission(0x000000, 0x0000FF), 0x000033);
    // round(0.8 * 250 + 0.2 * 250) = 250: blending a value with itself keeps it.
    assert_eq!(blend_emission(0xFAFAFA, 0xFAFAFA), 0xFAFAFA);
}

#[test]
fn post_process_leaves_zero_emission_pixels_alone() {
    let mut fb = Framebuffer::new(2, 2);
    fb.clear();
    fb.set_current_color(0x123456);
    fb.point_with_emission(0, 0, 5, 0);
    fb.set_current_color(0x654321);
    fb.point_with_emission(1, 1, 5, 0x0000FF);
    let before = fb.buffer.clone();
    post_process(&mut fb);
    assert_eq!(fb.buffer[0], before[0]);
    assert_eq!(fb.buffer[1], before[1]);
    assert_eq!(fb.buffer[2], before[2]);
    assert_eq!(fb.buffer[3], blend_emission(before[3], 0x0000FF));
}

#[test]
fn degenerate_triangle_produces_no_fragments() {
    let v0 = screen_vertex(0, 0, 100);
    let v1 = screen_vertex(2 * FX_ONE, 2 * FX_ONE, 100);
    let v2 = screen_vertex(4 * FX_ONE, 4 * FX_ONE, 100);
    let frags = triangle(&v0, &v1, &v2, 8, 8);
    assert_eq!(frags.len(), 0);
}

#[test]
fn vertex_shader_keeps_model_attributes_and_maps_to_screen() {
    let noise = NoiseField::with_seed(1337);
    let viewport = Mat4Fx::new(
        astro_raster::geom::Vec4Fx { x: 2 * FX_ONE, y: 0, z: 0, w: 2 * FX_ONE },
        astro_raster::geom::Vec4Fx { x: 0, y: -2 * FX_ONE, z: 0, w: 2 * FX_ONE },
        astro_raster::geom::Vec4Fx { x: 0, y: 0, z: FX_ONE, w: 0 },
        astro_raster::geom::Vec4Fx { x: 0, y: 0, z: 0, w: FX_ONE },
    );
    let uniforms = Uniforms::new(
        Mat4Fx::identity(),
        Mat4Fx::identity(),
        Mat4Fx::identity(),
        viewport,
        0,
        noise,
    );
    let v = Vertex::new(
        Vec3Fx::new(FX_ONE / 2, -FX_ONE / 2, FX_ONE / 4),
        Vec3Fx::new(0, 0, FX_ONE),
        Vec2Fx { x: 0, y: 0 },
        Color::new(9, 9, 9),
    );
    let t = vertex_shader(&v, &uniforms).expect("vertex in view");
    assert_eq!(t.position, v.position);
    assert_eq!(t.normal, v.normal);
    // With identity transforms and time zero, w = 1: the viewport maps
    // x = 0.5 to 2 * 0.5 + 2 = 3 and y = -0.5 to -2 * -0.5 + 2 = 3.
    assert_eq!(t.transformed_position.x, 3 * FX_ONE);
    assert_eq!(t.transformed_position.y, 3 * FX_ONE);
    assert_eq!(t.transformed_position.z, FX_ONE / 4);
    assert_eq!(t.transformed_normal, v.normal);
}

#[test]
fn render_draws_a_sun_disk_with_emission() {
    let noise = NoiseField::with_seed(1337);
    let viewport = Mat4Fx::new(
        astro_raster::geom::Vec4Fx { x: 4 * FX_ONE, y: 0, z: 0, w: 4 * FX_ONE },
        astro_raster::geom::Vec4Fx { x: 0, y: -4 * FX_ONE, z: 0, w: 4 * FX_ONE },
        astro_raster::geom::Vec4Fx { x: 0, y: 0, z: FX_ONE, w: 0 },
        astro_raster::geom::Vec4Fx { x: 0, y: 0, z: 0, w: FX_ONE },
    );
    let uniforms = Uniforms::new(
        Mat4Fx::identity(),
        Mat4Fx::identity(),
        Mat4Fx::identity(),
        viewport,
        3,
        noise,
    );
    let make = |x: i64, y: i64| Vertex::new(
        Vec3Fx::new(x, y, FX_ONE / 2),
        Vec3Fx::new(0, 0, FX_ONE),
        Vec2Fx { x: 0, y: 0 },
        Color::new(255, 255, 255),
    );
    // One triangle covering the middle of the 8 by 8 target.
    let vertices = vec![
        make(-FX_ONE / 2, -FX_ONE / 2),
        make(FX_ONE / 2, -FX_ONE / 2),
        make(0, FX_ONE / 2),
    ];
    let mut fb = Framebuffer::new(8, 8);
    fb.clear();
    render(&mut fb, &uniforms, &vertices, 0);
    let touched = fb.zbuffer.iter().filter(|d| **d != astro_raster::framebuffer::DEPTH_FAR).count();
    assert!(touched > 0);
    // The sun is emissive: every touched pixel carries its color as emission.
    for i in 0..64 {
        if fb.zbuffer[i] != astro_raster::framebuffer::DEPTH_FAR {
            assert_eq!(fb.emission_buffer[i], fb.buffer[i]);
            assert_ne!(fb.emission_buffer[i], 0);
        }
    }
}

#[test]
fn viewport_matrix_maps_the_corners() {
    let m = create_viewport_matrix(4, 4);
    // Half the width in fixed point stands on the diagonal and in the
    // translation column.
    assert_eq!(m.r0.x, 2 * FX_ONE);
    assert_eq!(m.r0.w, 2 * FX_ONE);
    assert_eq!(m.r1.y, -2 * FX_ONE);
    assert_eq!(m.r1.w, 2 * FX_ONE);
    assert_eq!(m.r2.z, FX_ONE);
    assert_eq!(m.r3.w, FX_ONE);
}

#[test]
fn model_matrix_with_no_rotation_is_exactly_scale_and_translation() {
    let m = astro_raster::geom::create_model_matrix(
        Vec3Fx { x: FX_ONE, y: 2 * FX_ONE, z: 0 },
        FX_ONE,
        Vec3Fx { x: 0, y: 0, z: 0 },
    );
    assert_eq!((m.r0.x, m.r0.y, m.r0.z, m.r0.w), (FX_ONE, 0, 0, FX_ONE));
    assert_eq!((m.r1.x, m.r1.y, m.r1.z, m.r1.w), (0, FX_ONE, 0, 2 * FX_ONE));
    assert_eq!((m.r2.x, m.r2.y, m.r2.z, m.r2.w), (0, 0, FX_ONE, 0));
    assert_eq!((m.r3.x, m.r3.y, m.r3.z, m.r3.w), (0, 0, 0, FX_ONE));
}

#[test]
fn render_with_fewer_than_three_vertices_changes_nothing() {
    let noise = NoiseField::with_seed(1337);
    let uniforms = Uniforms::new(
        Mat4Fx::identity(),
        Mat4Fx::identity(),
        Mat4Fx::identity(),
        create_viewport_matrix(4, 4),
        5,
        noise,
    );
    let make = |x: i64| Vertex::new(
        Vec3Fx::new(x, 0, FX_ONE / 2),
        Vec3Fx::new(0, 0, FX_ONE),
        Vec2Fx { x: 0, y: 0 },
        Color::new(255, 255, 255),
    );
    let mut fb = Framebuffer::new(4, 4);
    fb.set_background_color(0x123456);
    fb.clear();
    let buffer = fb.buffer.clone();
    let zbuffer = fb.zbuffer.clone();
    let emission = fb.emission_buffer.clone();
    let two = vec![make(0), make(FX_ONE / 4)];
    render(&mut fb, &uniforms, &two, 1);
    assert_eq!(fb.buffer, buffer);
    assert_eq!(fb.zbuffer, zbuffer);
    assert_eq!(fb.emission_buffer, emission);
}

#[test]
fn only_the_sun_writes_emission() {
    let noise = NoiseField::with_seed(1337);
    let uniforms = Uniforms::new(
        Mat4Fx::identity(),
        Mat4Fx::identity(),
        Mat4Fx::identity(),
        create_viewport_matrix(8, 8),
        3,
        noise,
    );
    let make = |x: i64, y: i64| Vertex::new(
        Vec3Fx::new(x, y, FX_ONE / 2),
        Vec3Fx::new(0, 0, FX_ONE),
        Vec2Fx { x: 0, y: 0 },
        Color::new(255, 255, 255),
    );
    let vertices = vec![
        make(-FX_ONE / 2, -FX_ONE / 2),
        make(FX_ONE / 2, -FX_ONE / 2),
        make(0, FX_ONE / 2),
    ];
    for shader_index in 1..=6usize {
        let mut fb = Framebuffer::new(8, 8);
        fb.clear();
        render(&mut fb, &uniforms, &vertices, shader_index);
        for e in fb.emission_buffer.iter() {
            assert_eq!(*e, 0);
        }
    }
}
