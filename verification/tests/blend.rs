use eruption::canvas::{Canvas, LayerBuffer};
use eruption::pixel::{blend_channel, blend_pixel, Pixel};
use eruption::NUM_KEYS;

fn solid(r: u8, g: u8, b: u8, a: u8) -> LayerBuffer {
    LayerBuffer::solid(Pixel { r, g, b, a })
}

#[test]
fn blend_channel_formula_exact_values() {
    // out = (src * a + dst * (255 - a) + 127) / 255
    assert_eq!(blend_channel(255, 0, 128), 128);
    assert_eq!(blend_channel(0, 255, 128), 127);
    assert_eq!(blend_channel(255, 255, 255), 255);
    assert_eq!(blend_channel(0, 0, 0), 0);
    assert_eq!(blend_channel(200, 100, 0), 100);
}

#[test]
fn opaque_source_replaces_destination() {
    let src = Pixel { r: 10, g: 20, b: 30, a: 255 };
    let dst = Pixel { r: 200, g: 100, b: 50, a: 40 };
    assert_eq!(blend_pixel(&src, &dst), src);
}

#[test]
fn clear_then_blend_opaque_layer_yields_layer() {
    let mut canvas = Canvas::new();
    canvas.clear();
    let layer = solid(10, 200, 30, 255);
    canvas.blend_layer(&layer);
    assert_eq!(canvas.pixels.len(), NUM_KEYS);
    for i in 0..NUM_KEYS {
        assert_eq!(canvas.pixels[i], layer.pixels[i]);
    }
}

#[test]
fn two_layer_alpha_blend_expected_values() {
    // Layer A is opaque blue, layer B is red with weight 128; composing A
    // then B gives (128, 0, 127, 255) in every cell.
    let mut canvas = Canvas::new();
    canvas.clear();
    canvas.blend_layer(&solid(0, 0, 255, 255));
    canvas.blend_layer(&solid(255, 0, 0, 128));
    for i in 0..NUM_KEYS {
        assert_eq!(canvas.pixels[i], Pixel { r: 128, g: 0, b: 127, a: 255 });
    }
}

#[test]
fn blend_is_order_sensitive() {
    let mut ab = Canvas::new();
    ab.blend_layer(&solid(0, 0, 255, 255));
    ab.blend_layer(&solid(255, 0, 0, 128));
    let mut ba = Canvas::new();
    ba.blend_layer(&solid(255, 0, 0, 128));
    ba.blend_layer(&solid(0, 0, 255, 255));
    assert_ne!(ab.pixels[0], ba.pixels[0]);
}

#[test]
fn blend_deterministic_for_equal_inputs() {
    let mut one = Canvas::new();
    one.blend_layer(&solid(5, 6, 7, 9));
    one.blend_layer(&solid(50, 60, 70, 200));
    let mut two = Canvas::new();
    two.blend_layer(&solid(5, 6, 7, 9));
    two.blend_layer(&solid(50, 60, 70, 200));
    for i in 0..NUM_KEYS {
        assert_eq!(one.pixels[i], two.pixels[i]);
    }
}
