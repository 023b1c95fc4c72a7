//! The layer tree: a closed set of layer variants, each with its children,
//! a way to rebuild it with other children, and one visitor method of the
//! compositor to compose it.
use crate::geometry::{Matrix, Path, Point, Rectangle, RoundedRectangle};
use crate::shadow::Shadow;
use crate::tiled::TiledLayer;
use std::sync::Arc;
use vstd::prelude::*;

verus! {

/// The bit pattern of the single-precision alpha 1.0: fully opaque.
pub const OPAQUE_ALPHA: u32 = 0x3F80_0000;

/// The region that a clip layer restricts drawing to.
#[derive(Clone, Copy, Debug, PartialEq, Eq, Hash, Structural)]
pub enum Clip {
    Empty,
    Rectangle(Rectangle),
    RoundedRectangle(RoundedRectangle),
    Path(Path),
}

/// Children drawn under a clip region, moved by an offset. A compositor
/// saves the drawing state before the children and restores it after them.
pub struct ClipLayer {
    pub layers: Vec<Arc<Layer>>,
    pub offset: Point,
    pub clip: Clip,
}

/// Children drawn moved by an offset.
pub struct OffsetLayer {
    pub layers: Vec<Arc<Layer>>,
    pub offset: Point,
}

/// Children drawn moved by an offset that is asked for each time the layer
/// is composed, from the callback registered with the backend under
/// `offset_source`.
pub struct DynamicOffsetLayer {
    pub layers: Vec<Arc<Layer>>,
    pub offset_source: u64,
}

/// Children drawn with their alpha multiplied by `alpha`, the bit pattern of
/// a single-precision number.
pub struct OpacityLayer {
    pub layers: Vec<Arc<Layer>>,
    pub alpha: u32,
}

/// A drop shadow drawn under the children.
pub struct ShadowLayer {
    pub layers: Vec<Arc<Layer>>,
    pub shadow: Shadow,
}

/// Children drawn under a transformation matrix.
pub struct TransformationLayer {
    pub layers: Vec<Arc<Layer>>,
    pub matrix: Matrix,
}

/// A recorded picture of the backend: its process-wide unique id, its bounds
/// in its own coordinates, and whether the engine may rasterize it.
#[derive(Clone, Copy, Debug, PartialEq, Eq, Hash, Structural)]
pub struct PictureLayer {
    pub picture_id: u32,
    pub cull_rect: Rectangle,
    pub needs_cache: bool,
}

/// A change of drawing state recorded for later, with its own offset.
#[derive(Clone, Copy, Debug)]
pub enum StateCommandType {
    Transform(Matrix),
    Clip(Clip),
}

#[derive(Clone, Copy, Debug)]
pub struct StateCommand {
    pub command_type: StateCommandType,
    pub offset: Point,
}

/// Children drawn after the recorded state changes were replayed in order.
pub struct LeftoverStateLayer {
    pub layers: Vec<Arc<Layer>>,
    pub commands: Vec<StateCommand>,
}

/// The kind of GPU backend that a texture belongs to.
#[derive(Clone, Copy, Debug, PartialEq, Eq, Hash, Structural)]
pub enum Backend {
    Unsupported,
    Metal,
}

/// A texture that the compositor creates and lends to a rendering callback,
/// which the caller registered with the backend under `rendering`.
#[derive(Clone, Copy, Debug, PartialEq, Eq, Hash, Structural)]
pub struct BorrowedTexture {
    pub rendering: u64,
}

/// A texture owned elsewhere, known by its handle.
#[derive(Clone, Copy, Debug, PartialEq, Eq, Hash, Structural)]
pub struct ExternalTexture {
    pub handle: u64,
}

#[derive(Clone, Copy, Debug, PartialEq, Eq, Hash, Structural)]
pub enum Texture {
    Borrowed(BorrowedTexture),
    External(ExternalTexture),
}

/// A texture of the given size in logical pixels.
#[derive(Clone, Copy, Debug, PartialEq, Eq, Hash, Structural)]
pub struct TextureLayer {
    pub width: u32,
    pub height: u32,
    pub texture: Texture,
}

/// Drawing done by a callback that the caller registered with the backend
/// under `drawable`.
#[derive(Clone, Copy, Debug, PartialEq, Eq, Hash, Structural)]
pub struct ExplicitLayer {
    pub drawable: u64,
}

/// A node of the scene tree.
pub enum Layer {
    Clip(ClipLayer),
    Offset(OffsetLayer),
    DynamicOffset(DynamicOffsetLayer),
    Opacity(OpacityLayer),
    Shadow(ShadowLayer),
    Transformation(TransformationLayer),
    Picture(PictureLayer),
    LeftoverState(LeftoverStateLayer),
    Tiled(Arc<TiledLayer>),
    Texture(TextureLayer),
    Explicit(ExplicitLayer),
}

/// The variant of a layer, and so the visitor method that composes it.
#[derive(Clone, Copy, Debug, PartialEq, Eq, Hash, Structural)]
pub enum LayerKind {
    Clip,
    Offset,
    DynamicOffset,
    Opacity,
    Shadow,
    Transformation,
    Picture,
    LeftoverState,
    Tiled,
    Texture,
    Explicit,
}

/// Does `after` record the visits of `before`, then a visit of `kind`, then
/// possibly more (the children's)?
pub open spec fn visits_next(before: Seq<LayerKind>, kind: LayerKind, after: Seq<LayerKind>) -> bool {
    before.push(kind).is_prefix_of(after)
}

/// The visitor that turns a layer tree into drawing: one method per variant.
/// Each method records that it was entered; what it does after that, such as
/// composing the children, may record more.
pub trait Compositor {
    /// The visitor methods entered so far, in order. A compositor verified
    /// against this trait gives its own record in place of the empty one.
    open spec fn dispatched(&self) -> Seq<LayerKind> {
        Seq::empty()
    }

    /// Composes a whole tree, with the cache bookkeeping of one frame.
    fn compose(&mut self, layer: &Layer)
        ensures
            visits_next(old(self).dispatched(), layer.kind_spec(), final(self).dispatched()),
    ;

    fn compose_clip(&mut self, layer: &ClipLayer)
        ensures
            visits_next(old(self).dispatched(), LayerKind::Clip, final(self).dispatched()),
    ;

    fn compose_offset(&mut self, layer: &OffsetLayer)
        ensures
            visits_next(old(self).dispatched(), LayerKind::Offset, final(self).dispatched()),
    ;

    fn compose_dynamic_offset(&mut self, layer: &DynamicOffsetLayer)
        ensures
            visits_next(old(self).dispatched(), LayerKind::DynamicOffset, final(self).dispatched()),
    ;

    fn compose_opacity(&mut self, layer: &OpacityLayer)
        ensures
            visits_next(old(self).dispatched(), LayerKind::Opacity, final(self).dispatched()),
    ;

    fn compose_shadow(&mut self, layer: &ShadowLayer)
        ensures
            visits_next(old(self).dispatched(), LayerKind::Shadow, final(self).dispatched()),
    ;

    fn compose_transformation(&mut self, layer: &TransformationLayer)
        ensures
            visits_next(old(self).dispatched(), LayerKind::Transformation, final(self).dispatched()),
    ;

    fn compose_picture(&mut self, layer: &PictureLayer)
        ensures
            visits_next(old(self).dispatched(), LayerKind::Picture, final(self).dispatched()),
    ;

    fn compose_leftover(&mut self, layer: &LeftoverStateLayer)
        ensures
            visits_next(old(self).dispatched(), LayerKind::LeftoverState, final(self).dispatched()),
    ;

    fn compose_tiled(&mut self, layer: &TiledLayer)
        ensures
            visits_next(old(self).dispatched(), LayerKind::Tiled, final(self).dispatched()),
    ;

    fn compose_explicit(&mut self, layer: &ExplicitLayer)
        ensures
            visits_next(old(self).dispatched(), LayerKind::Explicit, final(self).dispatched()),
    ;

    fn compose_texture(&mut self, layer: &TextureLayer)
        ensures
            visits_next(old(self).dispatched(), LayerKind::Texture, final(self).dispatched()),
    ;
}

/// A copy of the list of children that shares each child.
pub fn share_layers(layers: &Vec<Arc<Layer>>) -> (r: Vec<Arc<Layer>>)
    ensures
        r@ == layers@,
{
    let mut r: Vec<Arc<Layer>> = Vec::new();
    let mut i: usize = 0;
    while i < layers.len()
        invariant
            0 <= i <= layers@.len(),
            r@ == layers@.subrange(0, i as int),
        decreases layers@.len() - i,
    {
        r.push(layers[i].clone());
        i = i + 1;
        assert(r@ =~= layers@.subrange(0, i as int));
    }
    assert(layers@.subrange(0, layers@.len() as int) =~= layers@);
    r
}

impl Layer {
    pub open spec fn kind_spec(&self) -> LayerKind {
        match self {
            Layer::Clip(_) => LayerKind::Clip,
            Layer::Offset(_) => LayerKind::Offset,
            Layer::DynamicOffset(_) => LayerKind::DynamicOffset,
            Layer::Opacity(_) => LayerKind::Opacity,
            Layer::Shadow(_) => LayerKind::Shadow,
            Layer::Transformation(_) => LayerKind::Transformation,
            Layer::Picture(_) => LayerKind::Picture,
            Layer::LeftoverState(_) => LayerKind::LeftoverState,
            Layer::Tiled(_) => LayerKind::Tiled,
            Layer::Texture(_) => LayerKind::Texture,
            Layer::Explicit(_) => LayerKind::Explicit,
        }
    }

    pub fn kind(&self) -> (r: LayerKind)
        ensures
            r == self.kind_spec(),
    {
        match self {
            Layer::Clip(_) => LayerKind::Clip,
            Layer::Offset(_) => LayerKind::Offset,
            Layer::DynamicOffset(_) => LayerKind::DynamicOffset,
            Layer::Opacity(_) => LayerKind::Opacity,
            Layer::Shadow(_) => LayerKind::Shadow,
            Layer::Transformation(_) => LayerKind::Transformation,
            Layer::Picture(_) => LayerKind::Picture,
            Layer::LeftoverState(_) => LayerKind::LeftoverState,
            Layer::Tiled(_) => LayerKind::Tiled,
            Layer::Texture(_) => LayerKind::Texture,
            Layer::Explicit(_) => LayerKind::Explicit,
        }
    }

    /// The children, in the order in which they are composed.
    pub open spec fn layers_spec(&self) -> Seq<Arc<Layer>> {
        match self {
            Layer::Clip(l) => l.layers@,
            Layer::Offset(l) => l.layers@,
            Layer::DynamicOffset(l) => l.layers@,
            Layer::Opacity(l) => l.layers@,
            Layer::Shadow(l) => l.layers@,
            Layer::Transformation(l) => l.layers@,
            Layer::LeftoverState(l) => l.layers@,
            _ => Seq::empty(),
        }
    }

    /// Is this a layer with children?
    pub open spec fn is_composite(&self) -> bool {
        match self {
            Layer::Clip(_) | Layer::Offset(_) | Layer::DynamicOffset(_) | Layer::Opacity(_)
            | Layer::Shadow(_)
            | Layer::Transformation(_) | Layer::LeftoverState(_) => true,
            _ => false,
        }
    }

    /// Does `r` keep every parameter of this layer but its children, and have
    /// `layers` as children?
    pub open spec fn rebuilt_as(&self, layers: Seq<Arc<Layer>>, r: Layer) -> bool {
        match (self, r) {
            (Layer::Clip(a), Layer::Clip(b)) => a.offset == b.offset && a.clip == b.clip
                && b.layers@ == layers,
            (Layer::Offset(a), Layer::Offset(b)) => a.offset == b.offset && b.layers@ == layers,
            (Layer::DynamicOffset(a), Layer::DynamicOffset(b)) => a.offset_source
                == b.offset_source && b.layers@ == layers,
            (Layer::Opacity(a), Layer::Opacity(b)) => a.alpha == b.alpha && b.layers@ == layers,
            (Layer::Shadow(a), Layer::Shadow(b)) => a.shadow == b.shadow && b.layers@ == layers,
            (Layer::Transformation(a), Layer::Transformation(b)) => a.matrix == b.matrix
                && b.layers@ == layers,
            (Layer::LeftoverState(a), Layer::LeftoverState(b)) => a.commands@ == b.commands@
                && b.layers@ == layers,
            (Layer::Picture(a), Layer::Picture(b)) => a == b,
            (Layer::Tiled(a), Layer::Tiled(b)) => a == b,
            (Layer::Texture(a), Layer::Texture(b)) => a == b,
            (Layer::Explicit(a), Layer::Explicit(b)) => a == b,
            _ => false,
        }
    }

    pub fn layers(&self) -> (r: &[Arc<Layer>])
        ensures
            r@ == self.layers_spec(),
    {
        match self {
            Layer::Clip(l) => l.layers.as_slice(),
            Layer::Offset(l) => l.layers.as_slice(),
            Layer::DynamicOffset(l) => l.layers.as_slice(),
            Layer::Opacity(l) => l.layers.as_slice(),
            Layer::Shadow(l) => l.layers.as_slice(),
            Layer::Transformation(l) => l.layers.as_slice(),
            Layer::LeftoverState(l) => l.layers.as_slice(),
            _ => &[],
        }
    }

    pub fn count_layers(&self) -> (r: usize)
        ensures
            r == self.layers_spec().len(),
    {
        self.layers().len()
    }

    /// The same layer with `layers` as its children; a layer without children
    /// comes back as it is.
    pub fn with_layers(&self, layers: Vec<Arc<Layer>>) -> (r: Arc<Layer>)
        ensures
            self.rebuilt_as(layers@, *r),
            self.is_composite() ==> r.layers_spec() == layers@,
            !self.is_composite() ==> *r == *self,
    {
        let layer = match self {
            Layer::Clip(l) => Layer::Clip(ClipLayer { layers, offset: l.offset, clip: l.clip }),
            Layer::Offset(l) => Layer::Offset(OffsetLayer { layers, offset: l.offset }),
            Layer::DynamicOffset(l) => Layer::DynamicOffset(
                DynamicOffsetLayer { layers, offset_source: l.offset_source },
            ),
            Layer::Opacity(l) => Layer::Opacity(OpacityLayer { layers, alpha: l.alpha }),
            Layer::Shadow(l) => Layer::Shadow(ShadowLayer { layers, shadow: l.shadow }),
            Layer::Transformation(l) => Layer::Transformation(
                TransformationLayer { layers, matrix: l.matrix },
            ),
            Layer::LeftoverState(l) => {
                let commands = l.commands.clone();
                assert(commands@ =~= l.commands@);
                Layer::LeftoverState(LeftoverStateLayer { layers, commands })
            },
            Layer::Picture(l) => Layer::Picture(*l),
            Layer::Tiled(l) => Layer::Tiled(l.clone()),
            Layer::Texture(l) => Layer::Texture(*l),
            Layer::Explicit(l) => Layer::Explicit(*l),
        };
        Arc::new(layer)
    }

    /// Hands the layer to the compositor method of its variant, once: the
    /// next visit that the compositor records is that of this variant.
    pub fn compose<C: Compositor>(&self, compositor: &mut C)
        ensures
            visits_next(old(compositor).dispatched(), self.kind_spec(), final(compositor).dispatched()),
    {
        match self {
            Layer::Clip(l) => compositor.compose_clip(l),
            Layer::Offset(l) => compositor.compose_offset(l),
            Layer::DynamicOffset(l) => compositor.compose_dynamic_offset(l),
            Layer::Opacity(l) => compositor.compose_opacity(l),
            Layer::Shadow(l) => compositor.compose_shadow(l),
            Layer::Transformation(l) => compositor.compose_transformation(l),
            Layer::Picture(l) => compositor.compose_picture(l),
            Layer::LeftoverState(l) => compositor.compose_leftover(l),
            Layer::Tiled(l) => compositor.compose_tiled(l),
            Layer::Texture(l) => compositor.compose_texture(l),
            Layer::Explicit(l) => compositor.compose_explicit(l),
        }
    }
}

impl ClipLayer {
    /// A clip layer without children, clip region or offset.
    pub fn new() -> (r: Self)
        ensures
            r.layers@.len() == 0,
            r.offset == (Point { x: 0, y: 0 }),
            r.clip == Clip::Empty,
    {
        ClipLayer { layers: Vec::new(), offset: Point::zero(), clip: Clip::Empty }
    }

    pub fn rectangle(rectangle: Rectangle, offset: Point) -> (r: Self)
        ensures
            r.layers@.len() == 0,
            r.offset == offset,
            r.clip == Clip::Rectangle(rectangle),
    {
        ClipLayer { layers: Vec::new(), offset, clip: Clip::Rectangle(rectangle) }
    }

    pub fn rounded_rectangle(rounded_rectangle: RoundedRectangle, offset: Point) -> (r: Self)
        ensures
            r.layers@.len() == 0,
            r.offset == offset,
            r.clip == Clip::RoundedRectangle(rounded_rectangle),
    {
        ClipLayer { layers: Vec::new(), offset, clip: Clip::RoundedRectangle(rounded_rectangle) }
    }

    pub fn path(path: Path, offset: Point) -> (r: Self)
        ensures
            r.layers@.len() == 0,
            r.offset == offset,
            r.clip == Clip::Path(path),
    {
        ClipLayer { layers: Vec::new(), offset, clip: Clip::Path(path) }
    }

    pub fn offset(&self) -> (r: &Point)
        ensures
            *r == self.offset,
    {
        &self.offset
    }

    pub fn clip(&self) -> (r: &Clip)
        ensures
            *r == self.clip,
    {
        &self.clip
    }
}

impl OffsetLayer {
    /// An offset layer without children, at the origin.
    pub fn new() -> (r: Self)
        ensures
            r.layers@.len() == 0,
            r.offset == (Point { x: 0, y: 0 }),
    {
        OffsetLayer::new_offset(Point::zero())
    }

    pub fn new_offset(offset: Point) -> (r: Self)
        ensures
            r.layers@.len() == 0,
            r.offset == offset,
    {
        OffsetLayer { layers: Vec::new(), offset }
    }

    /// An offset layer with `layer` as its one child.
    pub fn wrap_with_offset(layer: Arc<Layer>, offset: Point) -> (r: Self)
        ensures
            r.layers@ == seq![layer],
            r.offset == offset,
    {
        let mut layers: Vec<Arc<Layer>> = Vec::new();
        layers.push(layer);
        assert(layers@ =~= seq![layer]);
        OffsetLayer { layers, offset }
    }

    pub fn offset(&self) -> (r: &Point)
        ensures
            *r == self.offset,
    {
        &self.offset
    }

    /// The same children under another offset.
    pub fn with_offset(&self, offset: Point) -> (r: Self)
        ensures
            r.layers@ == self.layers@,
            r.offset == offset,
    {
        OffsetLayer { layers: share_layers(&self.layers), offset }
    }

    pub fn count_layers(&self) -> (r: usize)
        ensures
            r == self.layers@.len(),
    {
        self.layers.len()
    }
}

impl DynamicOffsetLayer {
    pub fn new(offset_source: u64) -> (r: Self)
        ensures
            r.layers@.len() == 0,
            r.offset_source == offset_source,
    {
        DynamicOffsetLayer { layers: Vec::new(), offset_source }
    }

    pub fn offset_source(&self) -> (r: u64)
        ensures
            r == self.offset_source,
    {
        self.offset_source
    }
}

impl OpacityLayer {
    /// An opacity layer without children, fully opaque.
    pub fn new() -> (r: Self)
        ensures
            r.layers@.len() == 0,
            r.alpha == OPAQUE_ALPHA,
    {
        OpacityLayer::new_alpha(OPAQUE_ALPHA)
    }

    pub fn new_alpha(alpha: u32) -> (r: Self)
        ensures
            r.layers@.len() == 0,
            r.alpha == alpha,
    {
        OpacityLayer { layers: Vec::new(), alpha }
    }

    /// An opacity layer with `layer` as its one child.
    pub fn wrap_with_alpha(layer: Arc<Layer>, alpha: u32) -> (r: Self)
        ensures
            r.layers@ == seq![layer],
            r.alpha == alpha,
    {
        let mut layers: Vec<Arc<Layer>> = Vec::new();
        layers.push(layer);
        assert(layers@ =~= seq![layer]);
        OpacityLayer { layers, alpha }
    }

    pub fn alpha(&self) -> (r: u32)
        ensures
            r == self.alpha,
    {
        self.alpha
    }

    /// The same children under another alpha.
    pub fn with_alpha(&self, alpha: u32) -> (r: Self)
        ensures
            r.layers@ == self.layers@,
            r.alpha == alpha,
    {
        OpacityLayer { layers: share_layers(&self.layers), alpha }
    }
}

impl ShadowLayer {
    pub fn new(shadow: Shadow) -> (r: Self)
        ensures
            r.layers@.len() == 0,
            r.shadow == shadow,
    {
        ShadowLayer { layers: Vec::new(), shadow }
    }

    pub fn shadow(&self) -> (r: &Shadow)
        ensures
            *r == self.shadow,
    {
        &self.shadow
    }
}

impl TransformationLayer {
    pub fn new(matrix: Matrix) -> (r: Self)
        ensures
            r.layers@.len() == 0,
            r.matrix == matrix,
    {
        TransformationLayer { layers: Vec::new(), matrix }
    }

    pub fn matrix(&self) -> (r: &Matrix)
        ensures
            *r == self.matrix,
    {
        &self.matrix
    }

    /// The same layer with `layer` added as its last child.
    pub fn with_layer(&self, layer: Arc<Layer>) -> (r: Self)
        ensures
            r.layers@ == self.layers@.push(layer),
            r.matrix == self.matrix,
    {
        let mut layers = share_layers(&self.layers);
        layers.push(layer);
        TransformationLayer { layers, matrix: self.matrix }
    }
}

impl PictureLayer {
    /// The layer of the picture `picture_id` with bounds `cull_rect`.
    pub fn new(picture_id: u32, cull_rect: Rectangle, needs_cache: bool) -> (r: Self)
        ensures
            r.picture_id == picture_id,
            r.cull_rect == cull_rect,
            r.needs_cache == needs_cache,
    {
        PictureLayer { picture_id, cull_rect, needs_cache }
    }

    pub fn id(&self) -> (r: u32)
        ensures
            r == self.picture_id,
    {
        self.picture_id
    }

    pub fn needs_cache(&self) -> (r: bool)
        ensures
            r == self.needs_cache,
    {
        self.needs_cache
    }

    pub fn cull_rect(&self) -> (r: Rectangle)
        ensures
            r == self.cull_rect,
    {
        self.cull_rect
    }
}

impl StateCommand {
    pub fn clip_rect(rect: Rectangle, offset: Point) -> (r: Self)
        ensures
            r.command_type == StateCommandType::Clip(Clip::Rectangle(rect)),
            r.offset == offset,
    {
        StateCommand { command_type: StateCommandType::Clip(Clip::Rectangle(rect)), offset }
    }

    pub fn clip_rrect(rrect: RoundedRectangle, offset: Point) -> (r: Self)
        ensures
            r.command_type == StateCommandType::Clip(Clip::RoundedRectangle(rrect)),
            r.offset == offset,
    {
        StateCommand {
            command_type: StateCommandType::Clip(Clip::RoundedRectangle(rrect)),
            offset,
        }
    }

    pub fn clip_path(path: Path, offset: Point) -> (r: Self)
        ensures
            r.command_type == StateCommandType::Clip(Clip::Path(path)),
            r.offset == offset,
    {
        StateCommand { command_type: StateCommandType::Clip(Clip::Path(path)), offset }
    }

    pub fn transform(matrix: Matrix, offset: Point) -> (r: Self)
        ensures
            r.command_type == StateCommandType::Transform(matrix),
            r.offset == offset,
    {
        StateCommand { command_type: StateCommandType::Transform(matrix), offset }
    }
}

impl LeftoverStateLayer {
    pub fn new() -> (r: Self)
        ensures
            r.layers@.len() == 0,
            r.commands@.len() == 0,
    {
        LeftoverStateLayer { layers: Vec::new(), commands: Vec::new() }
    }

    /// Records a clip to a rectangle.
    pub fn clip_rect(&mut self, rect: Rectangle, offset: Point)
        ensures
            final(self).layers@ == old(self).layers@,
            final(self).commands@ == old(self).commands@.push(
                StateCommand { command_type: StateCommandType::Clip(Clip::Rectangle(rect)), offset },
            ),
    {
        self.commands.push(StateCommand::clip_rect(rect, offset));
    }

    /// Records a clip to a rounded rectangle.
    pub fn clip_rrect(&mut self, rrect: RoundedRectangle, offset: Point)
        ensures
            final(self).layers@ == old(self).layers@,
            final(self).commands@ == old(self).commands@.push(
                StateCommand {
                    command_type: StateCommandType::Clip(Clip::RoundedRectangle(rrect)),
                    offset,
                },
            ),
    {
        self.commands.push(StateCommand::clip_rrect(rrect, offset));
    }

    /// Records a clip to a path.
    pub fn clip_path(&mut self, path: Path, offset: Point)
        ensures
            final(self).layers@ == old(self).layers@,
            final(self).commands@ == old(self).commands@.push(
                StateCommand { command_type: StateCommandType::Clip(Clip::Path(path)), offset },
            ),
    {
        self.commands.push(StateCommand::clip_path(path, offset));
    }

    /// Records a transformation.
    pub fn transform(&mut self, matrix: Matrix, offset: Point)
        ensures
            final(self).layers@ == old(self).layers@,
            final(self).commands@ == old(self).commands@.push(
                StateCommand { command_type: StateCommandType::Transform(matrix), offset },
            ),
    {
        self.commands.push(StateCommand::transform(matrix, offset));
    }
}

impl TextureLayer {
    pub fn new(width: u32, height: u32, texture: Texture) -> (r: Self)
        ensures
            r.width == width && r.height == height && r.texture == texture,
    {
        TextureLayer { width, height, texture }
    }

    pub fn texture(&self) -> (r: &Texture)
        ensures
            *r == self.texture,
    {
        &self.texture
    }

    pub fn width(&self) -> (r: u32)
        ensures
            r == self.width,
    {
        self.width
    }

    pub fn height(&self) -> (r: u32)
        ensures
            r == self.height,
    {
        self.height
    }
}

impl ExplicitLayer {
    /// The layer of the drawable registered under `drawable`.
    pub fn new(drawable: u64) -> (r: Self)
        ensures
            r.drawable == drawable,
    {
        ExplicitLayer { drawable }
    }

    pub fn drawable(&self) -> (r: u64)
        ensures
            r == self.drawable,
    {
        self.drawable
    }
}

/// Do `a` and `b` have the same variant, the same parameters and the same
/// children?
pub open spec fn same_layer(a: Layer, b: Layer) -> bool {
    a.rebuilt_as(a.layers_spec(), b)
}

/// Rebuilding a layer with its own children changes nothing: the result has
/// the variant, the parameters and the children of the layer it came from, so
/// the two compose alike.
pub proof fn lemma_rebuild_with_own_layers(layer: Layer, rebuilt: Layer)
    requires
        layer.rebuilt_as(layer.layers_spec(), rebuilt),
    ensures
        same_layer(layer, rebuilt),
        same_layer(rebuilt, layer),
        rebuilt.layers_spec() == layer.layers_spec(),
{
}

} // verus!
