use cgl::{
    compute_tangent_space, read_bmp, write_bmp, Bary, CheckerShader, Color, FlatShader, Mat2,
    Mat3, Model, Renderer, Vec2, Vec3, Vert, Vertex,
};

#[test]
fn triangle_depth_test_rejects_second_draw() {
    let mut r = Renderer::with_dimensions(4, 4);
    r.triangle(Vec3(0, 0, 10), Vec3(8, 0, 10), Vec3(0, 8, 10), Color::green());
    assert_eq!(r.image().get(1, 1), Color::green());
    r.triangle(Vec3(0, 0, 5), Vec3(8, 0, 5), Vec3(0, 8, 5), Color::red());
    for x in 0..4 {
        for y in 0..4 {
            assert_ne!(r.image().get(x, y), Color::red());
        }
    }
    r.triangle(Vec3(0, 0, 20), Vec3(8, 0, 20), Vec3(0, 8, 20), Color::blue());
    assert_eq!(r.image().get(1, 1), Color::blue());
}

#[test]
fn checker_shader_quadrants() {
    let mut r = Renderer::with_dimensions(4, 4);
    let fx = 65536;
    let v = |x: i64, y: i64, u: i64, w: i64| Vert {
        pos: Vec3(x, y, 0),
        tex: Vec2(u, w),
        norm: Vec3(0, 0, fx),
    };
    let c00 = v(0, 0, 0, 0);
    let c01 = v(0, 4, 0, fx);
    let c11 = v(4, 4, fx, fx);
    let c10 = v(4, 0, fx, 0);
    r.tri(&CheckerShader, &Color::black(), c00, c01, c11);
    r.tri(&CheckerShader, &Color::black(), c00, c11, c10);
    for x in 0..4usize {
        for y in 0..4usize {
            let expect = if ((2 * x / 4) + (2 * y / 4)) % 2 == 0 {
                Color::red()
            } else {
                Color::blue()
            };
            assert_eq!(r.image().get(x, y), expect, "pixel {} {}", x, y);
        }
    }
}

#[test]
fn flat_shader_fills() {
    let mut r = Renderer::with_dimensions(4, 4);
    r.tri(&FlatShader, &Color::white(), Vec3(0, 0, 1), Vec3(8, 0, 1), Vec3(0, 8, 1));
    assert_eq!(r.image().get(0, 0), Color::white());
}

#[test]
fn interpolate_at_corners() {
    let t0 = Vec3(10, 20, 30);
    let t1 = Vec3(40, 50, 60);
    let t2 = Vec3(70, 80, 90);
    let w0 = Bary { n0: 7, n1: 0, n2: 0, den: 7 };
    let w1 = Bary { n0: 0, n1: 7, n2: 0, den: 7 };
    let w2 = Bary { n0: 0, n1: 0, n2: 7, den: 7 };
    assert_eq!(Vertex::interpolate(&w0, &t0, &t1, &t2), t0);
    assert_eq!(Vertex::interpolate(&w1, &t0, &t1, &t2), t1);
    assert_eq!(Vertex::interpolate(&w2, &t0, &t1, &t2), t2);
}

#[test]
fn mat_inverse_scales_identity() {
    let m = Mat2 { r0: Vec2(3, 1), r1: Vec2(2, 5) };
    let (n, d) = m.inverted().unwrap();
    assert_eq!(d, 13);
    // m * n == d * identity, checked entry by entry
    assert_eq!(m.r0.0 * n.r0.0 + m.r0.1 * n.r1.0, d);
    assert_eq!(m.r0.0 * n.r0.1 + m.r0.1 * n.r1.1, 0);
    assert_eq!(m.r1.0 * n.r0.0 + m.r1.1 * n.r1.0, 0);
    assert_eq!(m.r1.0 * n.r0.1 + m.r1.1 * n.r1.1, d);

    let s = Mat3 {
        r0: Vec3(1, 2, 3),
        r1: Vec3(0, 1, 4),
        r2: Vec3(5, 6, 0),
    };
    let (n3, d3) = s.inverted().unwrap();
    assert_eq!(d3, 1);
    let mv = s.mul_vec(Vec3(9, -7, 2));
    assert_eq!(n3.mul_vec(mv), Vec3(9, -7, 2));
    assert!(Mat3::diagonal(0).inverted().is_err());
}

#[test]
fn normalized_has_unit_length() {
    let v = Vec3(3 << 16, 4 << 16, 0);
    let n = v.normalized();
    assert!(v.dot(n) > 0);
    let fx = 65536i64;
    let l2 = n.len2();
    assert!((l2 - fx * fx).abs() < fx * fx / 100);
    let axis = Vec3(17, 0, 0).normalized();
    assert_eq!(axis, Vec3(fx, 0, 0));
}

#[test]
fn bmp_round_trip() {
    let mut im: cgl::Image<Color> = cgl::Image::<Color>::with_dimensions(3, 2);
    im.set(0, 0, Color::rgb(1, 2, 3));
    im.set(2, 1, Color::rgb(200, 100, 50));
    let bytes = write_bmp(&im);
    assert_eq!(&bytes[0..2], b"BM");
    assert_eq!(bytes.len(), 54 + 12 * 2);
    let back = read_bmp(&bytes).unwrap();
    assert_eq!(back.width, 3);
    assert_eq!(back.height, 2);
    for x in 0..3 {
        for y in 0..2 {
            assert_eq!(back.get(x, y), im.get(x, y));
        }
    }
    assert!(read_bmp(&bytes[..10]).is_err());
}

#[test]
fn tangent_space_square() {
    let fx = 65536i64;
    let v = |x: i64, y: i64, u: i64, w: i64| Vert {
        pos: Vec3(x, y, 0),
        tex: Vec2(u, w),
        norm: Vec3(0, 0, 256),
    };
    // a unit square in the xy plane, texture axes aligned with x and y
    let verts = vec![
        v(0, 0, 0, 0),
        v(256, 0, fx, 0),
        v(256, 256, fx, fx),
        v(0, 256, 0, fx),
    ];
    let model = Model::new(verts, vec![(0, 1, 2), (0, 2, 3)]).unwrap();
    let out = compute_tangent_space(model).unwrap();
    assert_eq!(out.vertices.len(), 4);
    assert_eq!(out.triangles, vec![(0, 1, 2), (0, 2, 3)]);
    for tv in &out.vertices {
        // tangents follow the texture's u axis, bitangents its v axis
        assert!(tv.tan.0 > 0 && tv.tan.1 == 0 && tv.tan.2 == 0);
        assert!(tv.bitan.1 > 0 && tv.bitan.0 == 0 && tv.bitan.2 == 0);
        assert_eq!(tv.norm, Vec3(0, 0, 256));
    }
    // a degenerate (zero-area) triangle is rejected
    let verts2 = vec![v(0, 0, 0, 0), v(256, 0, fx, 0), v(512, 0, fx, fx)];
    let flat = Model::new(verts2, vec![(0, 1, 2)]).unwrap();
    assert!(compute_tangent_space(flat).is_err());
}

#[test]
fn mat_products() {
    let a = Mat3 {
        r0: Vec3(1, 2, 3),
        r1: Vec3(4, 5, 6),
        r2: Vec3(7, 8, 9),
    };
    let b = Mat3::identity();
    assert_eq!(a.mul(&b), a);
    assert_eq!(b.mul(&a), a);
    let two = a.add(&a);
    assert_eq!(two, a.mul_scalar(2));
    assert_eq!(two.r2, Vec3(14, 16, 18));
    let m2 = Mat2 { r0: Vec2(1, 2), r1: Vec2(3, 4) };
    let p = m2.mul(&m2);
    assert_eq!(p.r0, Vec2(7, 10));
    assert_eq!(p.r1, Vec2(15, 22));
    assert_eq!(m2.mul_vec(Vec2(1, 1)), Vec2(3, 7));
    let m4 = cgl::Mat4::diagonal(3);
    assert_eq!(m4.mul(&m4), cgl::Mat4::diagonal(9));
    assert_eq!(m4.add(&m4), m4.mul_scalar(2));
}
