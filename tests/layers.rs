use compositor::{
    Clip, ClipLayer, Layer, LeftoverStateLayer, Matrix, OffsetLayer, OpacityLayer, PictureLayer,
    Point, Rectangle, TransformationLayer, OPAQUE_ALPHA,
};
use std::sync::Arc;

#[test]
fn clip_test_new() {
    let clip = ClipLayer::new();
    assert_eq!(clip.clip, Clip::Empty);
    assert_eq!(clip.offset, Point::zero());
    assert_eq!(clip.layers.len(), 0);
}

#[test]
fn clip_test_new_dyn_object() {
    let layer: Arc<Layer> = Arc::new(Layer::Clip(ClipLayer::new()));
    assert_eq!(layer.count_layers(), 0);
}

#[test]
fn offset_test_new() {
    let offset = OffsetLayer::new();
    assert_eq!(offset.offset, Point::zero());
    assert_eq!(offset.count_layers(), 0);
}

#[test]
fn test_new_offset() {
    let offset = OffsetLayer::new_offset(Point::new(20, 10));
    assert_eq!(offset.offset, Point::new(20, 10));
    assert_eq!(offset.count_layers(), 0);
}

#[test]
fn test_with_offset() {
    let offset = OffsetLayer::new().with_offset(Point::new(10, 20));
    assert_eq!(offset.offset, Point::new(10, 20));
}

#[test]
fn test_arc_with_offset() {
    let layer = Arc::new(OffsetLayer::new());
    let layer_with_offset = layer.with_offset(Point::new(10, 20));
    assert_eq!(layer_with_offset.offset, Point::new(10, 20));
}

#[test]
fn offset_test_new_dyn_object() {
    let layer: Arc<Layer> = Arc::new(Layer::Offset(OffsetLayer::new()));
    assert_eq!(layer.count_layers(), 0);
}

fn picture(id: u32) -> Arc<Layer> {
    Arc::new(Layer::Picture(PictureLayer::new(id, Rectangle::new(0, 0, 10, 10), true)))
}

#[test]
fn with_offset_keeps_children() {
    let layer = OffsetLayer::wrap_with_offset(picture(1), Point::new(3, 4));
    let moved = layer.with_offset(Point::new(5, 6));
    assert_eq!(moved.count_layers(), 1);
    assert!(Arc::ptr_eq(&moved.layers[0], &layer.layers[0]));
    assert_eq!(moved.offset, Point::new(5, 6));
}

#[test]
fn rebuild_with_own_children_keeps_parameters() {
    let mut inner = OffsetLayer::new_offset(Point::new(7, 8));
    inner.layers.push(picture(1));
    inner.layers.push(picture(2));
    let layer = Layer::Offset(inner);
    let children = layer.layers().to_vec();
    let rebuilt = layer.with_layers(children);
    match (&layer, rebuilt.as_ref()) {
        (Layer::Offset(a), Layer::Offset(b)) => {
            assert_eq!(a.offset, b.offset);
            assert_eq!(b.layers.len(), 2);
            assert!(Arc::ptr_eq(&a.layers[0], &b.layers[0]));
            assert!(Arc::ptr_eq(&a.layers[1], &b.layers[1]));
        },
        _ => panic!("the variant changed"),
    }
}

#[test]
fn rebuild_replaces_children_of_opacity() {
    let layer = Layer::Opacity(OpacityLayer::wrap_with_alpha(picture(1), 0x3F00_0000));
    let rebuilt = layer.with_layers(vec![picture(2), picture(3)]);
    match rebuilt.as_ref() {
        Layer::Opacity(o) => {
            assert_eq!(o.alpha, 0x3F00_0000);
            assert_eq!(o.layers.len(), 2);
        },
        _ => panic!("the variant changed"),
    }
}

#[test]
fn leaf_ignores_new_children() {
    let layer = Layer::Picture(PictureLayer::new(9, Rectangle::new(1, 2, 3, 4), false));
    let rebuilt = layer.with_layers(vec![picture(2)]);
    assert_eq!(rebuilt.count_layers(), 0);
    match rebuilt.as_ref() {
        Layer::Picture(p) => {
            assert_eq!(p.id(), 9);
            assert_eq!(p.cull_rect(), Rectangle::new(1, 2, 3, 4));
            assert!(!p.needs_cache());
        },
        _ => panic!("the variant changed"),
    }
}

#[test]
fn transformation_appends_layer() {
    let matrix = Matrix::from_9([0x3F80_0000, 0, 0, 0, 0x3F80_0000, 0, 0, 0, 0x3F80_0000]);
    let layer = TransformationLayer::new(matrix).with_layer(picture(1)).with_layer(picture(2));
    assert_eq!(layer.layers.len(), 2);
    assert_eq!(layer.matrix().get_9()[4], 0x3F80_0000);
}

#[test]
fn opacity_defaults_to_opaque() {
    assert_eq!(OpacityLayer::new().alpha(), OPAQUE_ALPHA);
}

#[test]
fn leftover_records_commands_in_order() {
    let mut layer = LeftoverStateLayer::new();
    layer.clip_rect(Rectangle::new(0, 0, 5, 5), Point::new(1, 1));
    layer.transform(Matrix::from_9([0; 9]), Point::new(2, 2));
    assert_eq!(layer.commands.len(), 2);
    assert_eq!(layer.commands[0].offset, Point::new(1, 1));
    assert_eq!(layer.commands[1].offset, Point::new(2, 2));
}

#[test]
fn latest_submission_wins() {
    let mut frame: compositor::LatestFrame<u32> = compositor::LatestFrame::new();
    assert_eq!(frame.latest(), None);
    frame.submit_layer(1);
    frame.submit_layer(2);
    assert_eq!(frame.latest(), Some(&2));
    assert_eq!(frame.latest(), Some(&2));
}

struct Recorder {
    calls: Vec<String>,
}

impl compositor::Compositor for Recorder {
    fn compose(&mut self, layer: &Layer) {
        self.calls.push("frame".to_string());
        layer.compose(self);
    }

    fn compose_clip(&mut self, layer: &ClipLayer) {
        self.calls.push("clip".to_string());
        for child in &layer.layers {
            child.compose(self);
        }
    }

    fn compose_offset(&mut self, layer: &OffsetLayer) {
        self.calls.push(format!("offset {} {}", layer.offset.x, layer.offset.y));
        for child in &layer.layers {
            child.compose(self);
        }
    }

    fn compose_dynamic_offset(&mut self, layer: &compositor::DynamicOffsetLayer) {
        self.calls.push(format!("dynamic offset {}", layer.offset_source()));
        for child in &layer.layers {
            child.compose(self);
        }
    }

    fn compose_opacity(&mut self, layer: &OpacityLayer) {
        self.calls.push("opacity".to_string());
        for child in &layer.layers {
            child.compose(self);
        }
    }

    fn compose_shadow(&mut self, _layer: &compositor::ShadowLayer) {
        self.calls.push("shadow".to_string());
    }

    fn compose_transformation(&mut self, _layer: &TransformationLayer) {
        self.calls.push("transformation".to_string());
    }

    fn compose_picture(&mut self, layer: &PictureLayer) {
        self.calls.push(format!("picture {}", layer.id()));
    }

    fn compose_leftover(&mut self, _layer: &LeftoverStateLayer) {
        self.calls.push("leftover".to_string());
    }

    fn compose_tiled(&mut self, _layer: &compositor::TiledLayer) {
        self.calls.push("tiled".to_string());
    }

    fn compose_explicit(&mut self, layer: &compositor::ExplicitLayer) {
        self.calls.push(format!("explicit {}", layer.drawable()));
    }

    fn compose_texture(&mut self, layer: &compositor::TextureLayer) {
        self.calls.push(format!("texture {}x{}", layer.width(), layer.height()));
    }
}

#[test]
fn each_layer_dispatches_once_to_its_variant() {
    let mut clip = ClipLayer::rectangle(Rectangle::new(0, 0, 10, 10), Point::zero());
    clip.layers.push(picture(1));
    clip.layers.push(Arc::new(Layer::Explicit(compositor::ExplicitLayer::new(77))));
    let mut root = OffsetLayer::new_offset(Point::new(2, 3));
    root.layers.push(Arc::new(Layer::Clip(clip)));
    root.layers.push(picture(2));
    let mut dynamic = compositor::DynamicOffsetLayer::new(12);
    dynamic.layers.push(picture(3));
    root.layers.push(Arc::new(Layer::DynamicOffset(dynamic)));
    let root = Layer::Offset(root);
    let mut recorder = Recorder { calls: Vec::new() };
    compositor::Compositor::compose(&mut recorder, &root);
    assert_eq!(
        recorder.calls,
        vec![
            "frame",
            "offset 2 3",
            "clip",
            "picture 1",
            "explicit 77",
            "picture 2",
            "dynamic offset 12",
            "picture 3"
        ]
    );
}

#[test]
fn rebuilt_layer_composes_alike() {
    let mut inner = OpacityLayer::new_alpha(0x3F00_0000);
    inner.layers.push(picture(5));
    inner.layers.push(picture(6));
    let layer = Layer::Opacity(inner);
    let rebuilt = layer.with_layers(layer.layers().to_vec());
    let mut first = Recorder { calls: Vec::new() };
    let mut second = Recorder { calls: Vec::new() };
    layer.compose(&mut first);
    rebuilt.compose(&mut second);
    assert_eq!(first.calls, second.calls);
}
