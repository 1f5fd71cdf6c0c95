//! The colour conversion context: the GPU objects that turn an RGBA image
//! into the planes of a 4:2:0 frame. The context decides what is allocated,
//! in which order, and with which parameters; it keeps account of every
//! handle it was given, so that each is released exactly once.

use crate::error::{Error, ErrorKind};
use crate::protocol::{
    Allocation,
    Filter,
    Reply,
    ReplyView,
    Resource,
    TextureFormat,
    TextureUsage,
    UniformKind,
};
use crate::settings::Pixel;
use vstd::prelude::*;

verus! {

/// The image formats of the host.
#[allow(non_camel_case_types)]
#[derive(Clone, Copy, Debug, PartialEq, Eq, Structural)]
pub enum Format {
    L8,
    R8,
    RGB8,
    RGBA8,
    RGBAF,
}

impl Format {
    /// The name of the format.
    pub open spec fn spec_name(&self) -> Seq<char> {
        match *self {
            Format::L8 => "L8"@,
            Format::R8 => "R8"@,
            Format::RGB8 => "RGB8"@,
            Format::RGBA8 => "RGBA8"@,
            Format::RGBAF => "RGBAF"@,
        }
    }

    /// The name of the format, as used in messages.
    pub fn name(&self) -> (n: &'static str)
        ensures
            n@ == self.spec_name(),
    {
        match self {
            Format::L8 => "L8",
            Format::R8 => "R8",
            Format::RGB8 => "RGB8",
            Format::RGBA8 => "RGBA8",
            Format::RGBAF => "RGBAF",
        }
    }
}

/// The textures of a complete context, by the plane each one holds. The
/// scratch texture receives the RGBA image that is to be converted.
#[derive(Clone, Copy, Debug, PartialEq, Eq, Structural)]
pub enum Channels {
    YUVA420p { scratch: u64, y: u64, u: u64, v: u64, a: u64 },
}

/// The commands that convert one image, in the order they are issued.
#[derive(Clone, Copy, Debug, PartialEq, Eq, Structural)]
pub enum GpuCommand {
    /// Resize the image to the context's dimensions.
    ResizeImage { width: u32, height: u32 },
    /// Reformat the image to `format`.
    ReformatImage { format: Format },
    /// Upload the image into layer `layer` of `texture`.
    UpdateTexture { texture: u64, layer: u32 },
    BeginCompute,
    BindPipeline { pipeline: u64 },
    BindUniforms { uniforms: u64, set: u32 },
    /// Dispatch the kernel over `x` by `y` by `z` tiles.
    Dispatch { x: u32, y: u32, z: u32 },
    EndCompute,
    /// Submit the recorded work to the device.
    Submit,
    /// Wait until the device has completed the submitted work.
    Sync,
    /// Read layer `layer` of `texture` back as plane `plane` of the frame.
    ReadTexture { plane: usize, texture: u64, layer: u32 },
}

/// The number of GPU handles a complete context owns.
pub const RESOURCE_COUNT: usize = 9;

/// The side of the square tile that one kernel invocation group covers.
pub const TILE: u32 = 16;

/// The mathematical content of a [`ConversionContext`].
pub struct ConversionView {
    pub width: u32,
    pub height: u32,
    pub layout: Pixel,
    /// A rendering device has been created.
    pub device: bool,
    /// The kernel has been compiled.
    pub kernel: bool,
    /// The handles acquired so far, in the order of [`Resource`].
    pub handles: Seq<u64>,
}

/// The sequence that holds `handles[position]` where that handle exists, and
/// nothing otherwise.
pub open spec fn pick(handles: Seq<u64>, position: int) -> Seq<u64> {
    if 0 <= position < handles.len() {
        seq![handles[position]]
    } else {
        Seq::empty()
    }
}

/// The order in which acquired handles are released: the plane textures, the
/// scratch texture, the uniform set, the pipeline, the sampler, the shader;
/// each as far as it was acquired.
pub open spec fn release_order(handles: Seq<u64>) -> Seq<u64> {
    pick(handles, 4) + pick(handles, 5) + pick(handles, 6) + pick(handles, 7) + pick(handles, 3)
        + pick(handles, 8) + pick(handles, 1) + pick(handles, 2) + pick(handles, 0)
}

/// The texture that receives the RGBA image: four bytes per texel, updated
/// from the CPU and sampled by the kernel, bound at 0.
pub open spec fn scratch_allocation(width: u32, height: u32) -> Allocation {
    Allocation::Texture {
        texture: Resource::Scratch,
        format: TextureFormat::R8G8B8A8_UNORM,
        view: None,
        usage: TextureUsage { sampling: true, storage: false, can_update: true, can_copy_from: true },
        uniform: UniformKind::Texture,
        width,
        height,
        binding: 0,
    }
}

/// The texture that receives one plane: one byte per texel, stored into by
/// the kernel and read back.
pub open spec fn plane_allocation(plane: Resource, width: u32, height: u32, binding: i32) -> Allocation {
    Allocation::Texture {
        texture: plane,
        format: TextureFormat::R8_UNORM,
        view: Some(TextureFormat::R8_UNORM),
        usage: TextureUsage { sampling: false, storage: true, can_update: false, can_copy_from: true },
        uniform: UniformKind::Image,
        width,
        height,
        binding,
    }
}

/// The number of tiles that cover `extent` pixels.
pub open spec fn tiles(extent: u32) -> int {
    (extent + TILE - 1) / (TILE as int)
}

impl ConversionView {
    /// The handles are valid and distinct, and were acquired in order: the
    /// device first, then the kernel, then at most nine handles.
    pub open spec fn wf(&self) -> bool {
        &&& self.layout.spec_is_planar_420()
        &&& self.handles.len() <= RESOURCE_COUNT
        &&& self.handles.no_duplicates()
        &&& forall|i: int| 0 <= i < self.handles.len() ==> self.handles[i] != 0
        &&& (self.kernel ==> self.device)
        &&& (self.handles.len() > 0 ==> self.kernel)
    }

    /// Every GPU object of the context has been acquired.
    pub open spec fn ready(&self) -> bool {
        self.handles.len() == RESOURCE_COUNT
    }

    /// The next step of construction; `None` once the context is ready.
    ///
    /// Luma and alpha planes have the size of the frame, the two chroma
    /// planes half of it in both directions. The bindings are those of the
    /// kernel: the scratch texture at 0, the planes Y, U, V, A at 1 to 4, the
    /// nearest-neighbour sampler at 5.
    pub open spec fn next_allocation(&self) -> Option<Allocation> {
        if !self.device {
            Some(Allocation::Device)
        } else if !self.kernel {
            Some(Allocation::Kernel)
        } else if self.handles.len() == 0 {
            Some(Allocation::Shader)
        } else if self.handles.len() == 1 {
            Some(Allocation::Pipeline { shader: self.handles[0] })
        } else if self.handles.len() == 2 {
            Some(Allocation::Sampler { filter: Filter::Nearest, binding: 5 })
        } else if self.handles.len() == 3 {
            Some(scratch_allocation(self.width, self.height))
        } else if self.handles.len() == 4 {
            Some(plane_allocation(Resource::Luma, self.width, self.height, 1))
        } else if self.handles.len() == 5 {
            Some(plane_allocation(Resource::ChromaU, self.width / 2, self.height / 2, 2))
        } else if self.handles.len() == 6 {
            Some(plane_allocation(Resource::ChromaV, self.width / 2, self.height / 2, 3))
        } else if self.handles.len() == 7 {
            Some(plane_allocation(Resource::Alpha, self.width, self.height, 4))
        } else if self.handles.len() == 8 {
            Some(Allocation::Uniforms { shader: self.handles[0], set: 0 })
        } else {
            None
        }
    }

    /// The context after its next step has succeeded with `reply`, or `None`
    /// where `reply` is no success of that step: a step that yields a handle
    /// succeeds with a valid handle that the context does not hold yet, the
    /// other steps with `Done`.
    pub open spec fn allocated(&self, reply: ReplyView) -> Option<ConversionView> {
        match (self.next_allocation(), reply) {
            (Some(Allocation::Device), ReplyView::Done) => Some(
                ConversionView { device: true, ..*self },
            ),
            (Some(Allocation::Kernel), ReplyView::Done) => Some(
                ConversionView { kernel: true, ..*self },
            ),
            (Some(Allocation::Device), _) => None,
            (Some(Allocation::Kernel), _) => None,
            (Some(_), ReplyView::Handle(h)) => if h != 0 && !self.handles.contains(h) {
                Some(ConversionView { handles: self.handles.push(h), ..*self })
            } else {
                None
            },
            _ => None,
        }
    }

    /// The context after all its handles have been released.
    pub open spec fn released(&self) -> ConversionView {
        ConversionView { device: false, kernel: false, handles: Seq::empty(), ..*self }
    }

    /// The number of planes in a converted frame: three, and a fourth where
    /// the layout has an alpha plane.
    pub open spec fn plane_count(&self) -> nat {
        if self.layout.spec_has_alpha() {
            4
        } else {
            3
        }
    }

    /// The number of bytes in plane `plane`: one byte per pixel, the chroma
    /// planes (1 and 2) at half the frame's resolution in both directions.
    pub open spec fn plane_len(&self, plane: int) -> nat {
        if plane == 1 || plane == 2 {
            ((self.width / 2) * (self.height / 2)) as nat
        } else {
            (self.width * self.height) as nat
        }
    }

    /// The handle of the texture that holds plane `plane`: luma, U, V, alpha.
    pub open spec fn plane_texture(&self, plane: int) -> u64
        recommends
            self.ready(),
            0 <= plane < 4,
    {
        self.handles[4 + plane]
    }

    /// The textures of a ready context.
    pub open spec fn channels(&self) -> Channels
        recommends
            self.ready(),
    {
        Channels::YUVA420p {
            scratch: self.handles[3],
            y: self.handles[4],
            u: self.handles[5],
            v: self.handles[6],
            a: self.handles[7],
        }
    }

    /// The commands that convert one image: the image is brought to the
    /// frame's size and to RGBA, and uploaded; the kernel is dispatched over
    /// the tiles that cover the frame; the work is submitted and waited for;
    /// and only then is each plane read back.
    pub open spec fn commands(&self) -> Seq<GpuCommand>
        recommends
            self.ready(),
    {
        let head = seq![
            GpuCommand::ResizeImage { width: self.width, height: self.height },
            GpuCommand::ReformatImage { format: Format::RGBA8 },
            GpuCommand::UpdateTexture { texture: self.handles[3], layer: 0 },
            GpuCommand::BeginCompute,
            GpuCommand::BindPipeline { pipeline: self.handles[1] },
            GpuCommand::BindUniforms { uniforms: self.handles[8], set: 0 },
            GpuCommand::Dispatch {
                x: tiles(self.width) as u32,
                y: tiles(self.height) as u32,
                z: 1,
            },
            GpuCommand::EndCompute,
            GpuCommand::Submit,
            GpuCommand::Sync,
            GpuCommand::ReadTexture { plane: 0, texture: self.handles[4], layer: 0 },
            GpuCommand::ReadTexture { plane: 1, texture: self.handles[5], layer: 0 },
            GpuCommand::ReadTexture { plane: 2, texture: self.handles[6], layer: 0 },
        ];
        if self.layout.spec_has_alpha() {
            head.push(GpuCommand::ReadTexture { plane: 3, texture: self.handles[7], layer: 0 })
        } else {
            head
        }
    }

    /// `planes` are the planes of one converted frame: as many as the layout
    /// has, each of its plane's size.
    pub open spec fn fits(&self, planes: Seq<Seq<u8>>) -> bool {
        &&& planes.len() == self.plane_count()
        &&& forall|i: int| 0 <= i < planes.len() ==> (#[trigger] planes[i]).len() == self.plane_len(i)
    }
}

/// The GPU side of the colour conversion for one frame size and one target
/// layout.
#[derive(Debug)]
pub struct ConversionContext {
    width: u32,
    height: u32,
    layout: Pixel,
    device: bool,
    kernel: bool,
    handles: Vec<u64>,
}

impl View for ConversionContext {
    type V = ConversionView;

    closed spec fn view(&self) -> ConversionView {
        ConversionView {
            width: self.width,
            height: self.height,
            layout: self.layout,
            device: self.device,
            kernel: self.kernel,
            handles: self.handles@,
        }
    }
}

/// The message for a conversion from `from` to `to` that no kernel exists
/// for: it names both.
pub open spec fn unsupported_conversion(from: Format, to: Pixel) -> Seq<char> {
    "Unsupported Conversion "@ + from.spec_name() + " : "@ + to.spec_name()
}

/// The message for a rendering device that could not be created.
pub const NO_DEVICE: &'static str = "No render device";

/// The message for a conversion kernel that could not be compiled.
pub const NO_KERNEL: &'static str = "failed to compile source";

/// The message for a GPU resource that could not be created.
pub const NO_RESOURCE: &'static str = "failed to create a GPU resource";

/// The message for a reply that is no outcome of the allocation asked for.
pub const BAD_ALLOCATION: &'static str = "Reply does not answer the allocation";

/// The message for planes that do not have the size of the frame.
pub const BAD_PLANES: &'static str = "Converted planes do not have the size of the frame";

/// The message of the failure of `step` with the outcome `reply`.
pub open spec fn allocation_failure(step: Option<Allocation>, reply: ReplyView) -> Seq<char> {
    match reply {
        ReplyView::Failed(m) => match step {
            Some(Allocation::Device) => NO_DEVICE@ + m,
            Some(Allocation::Kernel) => NO_KERNEL@ + m,
            _ => NO_RESOURCE@ + m,
        },
        _ => BAD_ALLOCATION@,
    }
}

impl ConversionContext {
    /// The invariant of the context.
    pub open spec fn wf(&self) -> bool {
        self@.wf()
    }

    /// A context for frames of `width` by `height` pixels that converts
    /// images of format `from` to the layout `to`. It holds no GPU object
    /// yet. Only the 4:2:0 planar layouts, with or without alpha, have a
    /// kernel: any other target is refused.
    pub fn new(from: Format, to: Pixel, width: u32, height: u32) -> (made: Result<Self, Error>)
        ensures
            match made {
                Ok(ctx) => {
                    &&& to.spec_is_planar_420()
                    &&& ctx.wf()
                    &&& ctx@ == (ConversionView {
                        width,
                        height,
                        layout: to,
                        device: false,
                        kernel: false,
                        handles: Seq::empty(),
                    })
                },
                Err(e) => {
                    &&& !to.spec_is_planar_420()
                    &&& e.spec_kind() == ErrorKind::ConversionError
                    &&& e.detail() == unsupported_conversion(from, to)
                },
            },
    {
        if to.is_planar_420() {
            Ok(
                ConversionContext {
                    width,
                    height,
                    layout: to,
                    device: false,
                    kernel: false,
                    handles: Vec::new(),
                },
            )
        } else {
            let mut text = String::from_str("Unsupported Conversion ");
            text.append(from.name());
            text.append(" : ");
            text.append(to.name());
            Err(Error::ConversionError(text))
        }
    }

    /// The width of the frames that the context converts, in pixels.
    pub fn width(&self) -> (w: u32)
        ensures
            w == self@.width,
    {
        self.width
    }

    /// The height of the frames that the context converts, in pixels.
    pub fn height(&self) -> (h: u32)
        ensures
            h == self@.height,
    {
        self.height
    }

    /// The layout that the context converts to.
    pub fn layout(&self) -> (l: Pixel)
        ensures
            l == self@.layout,
    {
        self.layout
    }

    /// Whether every GPU object of the context has been acquired.
    pub fn is_ready(&self) -> (b: bool)
        ensures
            b == self@.ready(),
    {
        self.handles.len() == RESOURCE_COUNT
    }

    /// The number of handles the context holds.
    pub fn held(&self) -> (n: usize)
        ensures
            n == self@.handles.len(),
    {
        self.handles.len()
    }

    /// The next step of construction, `None` once the context is ready.
    pub fn next_allocation(&self) -> (next: Option<Allocation>)
        requires
            self.wf(),
        ensures
            next == self@.next_allocation(),
            next is None <==> self@.ready(),
    {
        if !self.device {
            return Some(Allocation::Device);
        }
        if !self.kernel {
            return Some(Allocation::Kernel);
        }
        let width = self.width;
        let height = self.height;
        match self.handles.len() {
            0 => Some(Allocation::Shader),
            1 => Some(Allocation::Pipeline { shader: self.handles[0] }),
            2 => Some(Allocation::Sampler { filter: Filter::Nearest, binding: 5 }),
            3 => Some(Self::scratch(width, height)),
            4 => Some(Self::plane(Resource::Luma, width, height, 1)),
            5 => Some(Self::plane(Resource::ChromaU, width / 2, height / 2, 2)),
            6 => Some(Self::plane(Resource::ChromaV, width / 2, height / 2, 3)),
            7 => Some(Self::plane(Resource::Alpha, width, height, 4)),
            8 => Some(Allocation::Uniforms { shader: self.handles[0], set: 0 }),
            _ => None,
        }
    }

    fn scratch(width: u32, height: u32) -> (step: Allocation)
        ensures
            step == scratch_allocation(width, height),
    {
        Allocation::Texture {
            texture: Resource::Scratch,
            format: TextureFormat::R8G8B8A8_UNORM,
            view: None,
            usage: TextureUsage {
                sampling: true,
                storage: false,
                can_update: true,
                can_copy_from: true,
            },
            uniform: UniformKind::Texture,
            width,
            height,
            binding: 0,
        }
    }

    fn plane(plane: Resource, width: u32, height: u32, binding: i32) -> (step: Allocation)
        ensures
            step == plane_allocation(plane, width, height, binding),
    {
        Allocation::Texture {
            texture: plane,
            format: TextureFormat::R8_UNORM,
            view: Some(TextureFormat::R8_UNORM),
            usage: TextureUsage {
                sampling: false,
                storage: true,
                can_update: false,
                can_copy_from: true,
            },
            uniform: UniformKind::Image,
            width,
            height,
            binding,
        }
    }

    fn holds(&self, handle: u64) -> (b: bool)
        ensures
            b == self@.handles.contains(handle),
    {
        let mut i: usize = 0;
        while i < self.handles.len()
            invariant
                i <= self.handles.len(),
                forall|j: int| 0 <= j < i ==> self.handles@[j] != handle,
            decreases self.handles.len() - i,
        {
            if self.handles[i] == handle {
                return true;
            }
            i += 1;
        }
        false
    }

    /// Records the outcome of the step that [`next_allocation`] named. A
    /// success advances the context by that step. Anything else leaves the
    /// context as it was and is reported as a conversion failure; the caller
    /// then releases what the context holds.
    ///
    /// [`next_allocation`]: ConversionContext::next_allocation
    pub fn allocated(&mut self, reply: Reply) -> (done: Result<(), Error>)
        requires
            old(self).wf(),
        ensures
            final(self).wf(),
            match done {
                Ok(()) => old(self)@.allocated(reply@) == Some(final(self)@),
                Err(e) => {
                    &&& old(self)@.allocated(reply@) is None
                    &&& final(self)@ == old(self)@
                    &&& e.spec_kind() == ErrorKind::ConversionError
                    &&& e.detail() == allocation_failure(old(self)@.next_allocation(), reply@)
                },
            },
    {
        let step = self.next_allocation();
        match reply {
            Reply::Done => match step {
                Some(Allocation::Device) => {
                    self.device = true;
                    Ok(())
                },
                Some(Allocation::Kernel) => {
                    self.kernel = true;
                    Ok(())
                },
                _ => Err(Error::ConversionError(String::from_str(BAD_ALLOCATION))),
            },
            Reply::Handle(h) => match step {
                Some(Allocation::Device) => Err(
                    Error::ConversionError(String::from_str(BAD_ALLOCATION)),
                ),
                Some(Allocation::Kernel) => Err(
                    Error::ConversionError(String::from_str(BAD_ALLOCATION)),
                ),
                Some(_) => {
                    if h != 0 && !self.holds(h) {
                        self.handles.push(h);
                        proof {
                            let before = old(self)@.handles;
                            let after = self.handles@;
                            assert(after =~= before.push(h));
                            assert forall|i: int, j: int|
                                0 <= i < after.len() && 0 <= j < after.len() && i != j implies after[i]
                                != after[j] by {
                                if i < before.len() && j < before.len() {
                                    assert(before[i] != before[j]);
                                }
                            }
                        }
                        Ok(())
                    } else {
                        Err(
                            Error::ConversionError(
                                String::from_str(BAD_ALLOCATION),
                            ),
                        )
                    }
                },
                None => Err(
                    Error::ConversionError(String::from_str(BAD_ALLOCATION)),
                ),
            },
            Reply::Failed(m) => match step {
                Some(Allocation::Device) => Err(Error::conversion(NO_DEVICE, m.as_str())),
                Some(Allocation::Kernel) => Err(
                    Error::conversion(NO_KERNEL, m.as_str()),
                ),
                _ => Err(Error::conversion(NO_RESOURCE, m.as_str())),
            },
            _ => Err(Error::ConversionError(String::from_str(BAD_ALLOCATION))),
        }
    }

    /// Gives up every handle the context holds, in the order in which they
    /// are to be released. Each handle that was acquired is in the result
    /// exactly once, and the context holds none afterwards: releasing again
    /// yields nothing.
    pub fn release(&mut self) -> (freed: Vec<u64>)
        requires
            old(self).wf(),
        ensures
            final(self).wf(),
            final(self)@ == old(self)@.released(),
            freed@ == release_order(old(self)@.handles),
            freed@.len() == old(self)@.handles.len(),
            freed@.no_duplicates(),
            forall|h: u64| freed@.contains(h) <==> old(self)@.handles.contains(h),
    {
        let mut freed: Vec<u64> = Vec::new();
        let order: [usize; 9] = [4, 5, 6, 7, 3, 8, 1, 2, 0];
        let ghost handles = self.handles@;
        let mut k: usize = 0;
        while k < 9
            invariant
                k <= 9,
                self.handles@ == handles,
                order@ == seq![4usize, 5, 6, 7, 3, 8, 1, 2, 0],
                freed@ == release_prefix(handles, k as int),
            decreases 9 - k,
        {
            let position = order[k];
            if position < self.handles.len() {
                freed.push(self.handles[position]);
            }
            proof {
                assert(freed@ =~= release_prefix(handles, k as int) + pick(
                    handles,
                    release_position(k as int),
                ));
            }
            k += 1;
        }
        proof {
            lemma_release_exactly_once(handles);
        }
        self.handles = Vec::new();
        self.device = false;
        self.kernel = false;
        freed
    }

    /// The number of planes in a converted frame.
    pub fn plane_count(&self) -> (n: usize)
        ensures
            n == self@.plane_count(),
    {
        if self.layout.has_alpha() {
            4
        } else {
            3
        }
    }

    /// The number of bytes in plane `plane` of a converted frame.
    pub fn plane_len(&self, plane: usize) -> (n: u64)
        ensures
            n == self@.plane_len(plane as int),
    {
        let w: u64 = self.width as u64;
        let h: u64 = self.height as u64;
        if plane == 1 || plane == 2 {
            assert((w / 2) * (h / 2) <= 0xffff_ffff * 0xffff_ffff) by (nonlinear_arith)
                requires
                    w <= 0xffff_ffff,
                    h <= 0xffff_ffff,
            ;
            (w / 2) * (h / 2)
        } else {
            assert(w * h <= 0xffff_ffff * 0xffff_ffff) by (nonlinear_arith)
                requires
                    w <= 0xffff_ffff,
                    h <= 0xffff_ffff,
            ;
            w * h
        }
    }

    /// The handle of the texture that holds plane `plane`: 0 is luma, 1 and
    /// 2 are the chroma planes U and V, 3 is alpha. To ask for a plane that
    /// the layout does not have is a programming error.
    pub fn plane_texture(&self, plane: usize) -> (texture: u64)
        requires
            self.wf(),
            self@.ready(),
            plane < self@.plane_count(),
        ensures
            texture == self@.plane_texture(plane as int),
    {
        self.handles[4 + plane]
    }

    /// The textures of the context, once it is ready.
    pub fn channels(&self) -> (channels: Option<Channels>)
        ensures
            match channels {
                Some(c) => self@.ready() && c == self@.channels(),
                None => !self@.ready(),
            },
    {
        if self.handles.len() == RESOURCE_COUNT {
            Some(
                Channels::YUVA420p {
                    scratch: self.handles[3],
                    y: self.handles[4],
                    u: self.handles[5],
                    v: self.handles[6],
                    a: self.handles[7],
                },
            )
        } else {
            None
        }
    }

    /// The commands that convert one image, in the order in which they are
    /// to be issued.
    pub fn commands(&self) -> (commands: Vec<GpuCommand>)
        requires
            self.wf(),
            self@.ready(),
        ensures
            commands@ == self@.commands(),
    {
        let x = tile_count(self.width);
        let y = tile_count(self.height);
        let mut commands: Vec<GpuCommand> = Vec::new();
        commands.push(GpuCommand::ResizeImage { width: self.width, height: self.height });
        commands.push(GpuCommand::ReformatImage { format: Format::RGBA8 });
        commands.push(GpuCommand::UpdateTexture { texture: self.handles[3], layer: 0 });
        commands.push(GpuCommand::BeginCompute);
        commands.push(GpuCommand::BindPipeline { pipeline: self.handles[1] });
        commands.push(GpuCommand::BindUniforms { uniforms: self.handles[8], set: 0 });
        commands.push(GpuCommand::Dispatch { x, y, z: 1 });
        commands.push(GpuCommand::EndCompute);
        commands.push(GpuCommand::Submit);
        commands.push(GpuCommand::Sync);
        commands.push(GpuCommand::ReadTexture { plane: 0, texture: self.handles[4], layer: 0 });
        commands.push(GpuCommand::ReadTexture { plane: 1, texture: self.handles[5], layer: 0 });
        commands.push(GpuCommand::ReadTexture { plane: 2, texture: self.handles[6], layer: 0 });
        if self.layout.has_alpha() {
            commands.push(GpuCommand::ReadTexture { plane: 3, texture: self.handles[7], layer: 0 });
        }
        assert(commands@ =~= self@.commands());
        commands
    }

    /// Whether `planes` are the planes of one converted frame.
    pub fn fits(&self, planes: &Vec<Vec<u8>>) -> (b: bool)
        ensures
            b == self@.fits(planes.deep_view()),
    {
        if planes.len() != self.plane_count() {
            return false;
        }
        let mut i: usize = 0;
        while i < planes.len()
            invariant
                i <= planes.len(),
                forall|j: int|
                    0 <= j < i ==> (#[trigger] planes.deep_view()[j]).len() == self@.plane_len(j),
            decreases planes.len() - i,
        {
            assert(planes.deep_view()[i as int] == planes@[i as int]@);
            if planes[i].len() as u64 != self.plane_len(i) {
                return false;
            }
            i += 1;
        }
        true
    }

    /// Stores the planes that were read back for one image in `frame`: plane
    /// 0 as luma, 1 and 2 as chroma U and V, 3 as alpha. To hand over more or
    /// fewer planes than the layout has is a programming error. A plane that
    /// does not have its size is reported as a conversion failure, and the
    /// frame is then left as it was.
    pub fn convert(&self, planes: Vec<Vec<u8>>, frame: &mut Frame) -> (done: Result<(), Error>)
        requires
            planes@.len() == self@.plane_count(),
        ensures
            match done {
                Ok(()) => {
                    &&& self@.fits(planes.deep_view())
                    &&& final(frame).planes.deep_view() == planes.deep_view()
                    &&& final(frame).pts == old(frame).pts
                    &&& final(frame).format == self@.layout
                    &&& final(frame).width == self@.width
                    &&& final(frame).height == self@.height
                },
                Err(e) => {
                    &&& !self@.fits(planes.deep_view())
                    &&& *final(frame) == *old(frame)
                    &&& e.spec_kind() == ErrorKind::ConversionError
                    &&& e.detail() == BAD_PLANES@
                },
            },
    {
        if self.fits(&planes) {
            frame.planes = planes;
            frame.format = self.layout;
            frame.width = self.width;
            frame.height = self.height;
            Ok(())
        } else {
            Err(Error::ConversionError(String::from_str(BAD_PLANES)))
        }
    }
}

/// One picture in a planar layout, as it is offered to a video codec.
#[derive(Debug, PartialEq, Eq)]
pub struct Frame {
    pub format: Pixel,
    pub width: u32,
    pub height: u32,
    /// The presentation timestamp, in ticks of the encoder's time base.
    pub pts: Option<i64>,
    /// The bytes of each plane; empty until a conversion has filled them.
    pub planes: Vec<Vec<u8>>,
}

impl Frame {
    /// A frame without planes and without timestamp.
    pub fn new(format: Pixel, width: u32, height: u32) -> (frame: Frame)
        ensures
            frame.format == format,
            frame.width == width,
            frame.height == height,
            frame.pts is None,
            frame.planes@.len() == 0,
    {
        Frame { format, width, height, pts: None, planes: Vec::new() }
    }

    /// Stamps the frame.
    pub fn set_pts(&mut self, pts: Option<i64>)
        ensures
            *final(self) == (Frame { pts, ..*old(self) }),
    {
        self.pts = pts;
    }
}

/// The position in acquisition order of the handle that is released `k`-th.
pub open spec fn release_position(k: int) -> int {
    if k == 0 {
        4
    } else if k == 1 {
        5
    } else if k == 2 {
        6
    } else if k == 3 {
        7
    } else if k == 4 {
        3
    } else if k == 5 {
        8
    } else if k == 6 {
        1
    } else if k == 7 {
        2
    } else {
        0
    }
}

/// The first part of [`release_order`]: what the first `k` positions yield.
pub open spec fn release_prefix(handles: Seq<u64>, k: int) -> Seq<u64>
    decreases k,
{
    if k <= 0 {
        Seq::empty()
    } else {
        release_prefix(handles, k - 1) + pick(handles, release_position(k - 1))
    }
}

/// The number of tiles that cover `extent` pixels.
fn tile_count(extent: u32) -> (n: u32)
    ensures
        n == tiles(extent),
{
    if extent % TILE == 0 {
        extent / TILE
    } else {
        extent / TILE + 1
    }
}

/// Resource accounting: releasing yields every acquired handle exactly once.
/// The release order holds as many handles as were acquired, none of them
/// twice, and exactly those that were acquired.
pub proof fn lemma_release_exactly_once(handles: Seq<u64>)
    requires
        handles.len() <= RESOURCE_COUNT,
        handles.no_duplicates(),
    ensures
        release_prefix(handles, 9) == release_order(handles),
        release_order(handles).len() == handles.len(),
        release_order(handles).no_duplicates(),
        forall|h: u64| release_order(handles).contains(h) <==> handles.contains(h),
{
    reveal_with_fuel(release_prefix, 10);
    let out = release_order(handles);
    assert(release_prefix(handles, 9) =~= out);
    let n = handles.len();
    if n == 0 {
        assert(out =~= Seq::<u64>::empty());
    } else if n == 1 {
        assert(out =~= seq![handles[0]]);
    } else if n == 2 {
        assert(out =~= seq![handles[1], handles[0]]);
    } else if n == 3 {
        assert(out =~= seq![handles[1], handles[2], handles[0]]);
    } else if n == 4 {
        assert(out =~= seq![handles[3], handles[1], handles[2], handles[0]]);
    } else if n == 5 {
        assert(out =~= seq![handles[4], handles[3], handles[1], handles[2], handles[0]]);
    } else if n == 6 {
        assert(out =~= seq![handles[4], handles[5], handles[3], handles[1], handles[2], handles[0]]);
    } else if n == 7 {
        assert(out =~= seq![
            handles[4],
            handles[5],
            handles[6],
            handles[3],
            handles[1],
            handles[2],
            handles[0],
        ]);
    } else if n == 8 {
        assert(out =~= seq![
            handles[4],
            handles[5],
            handles[6],
            handles[7],
            handles[3],
            handles[1],
            handles[2],
            handles[0],
        ]);
    } else {
        assert(out =~= seq![
            handles[4],
            handles[5],
            handles[6],
            handles[7],
            handles[3],
            handles[8],
            handles[1],
            handles[2],
            handles[0],
        ]);
    }
    assert forall|h: u64| out.contains(h) <==> handles.contains(h) by {
        if handles.contains(h) {
            let i = choose|i: int| 0 <= i < handles.len() && handles[i] == h;
            lemma_released_position(handles, i);
        }
    }
}

proof fn lemma_released_position(handles: Seq<u64>, i: int)
    requires
        handles.len() <= RESOURCE_COUNT,
        0 <= i < handles.len(),
    ensures
        exists|j: int|
            0 <= j < release_order(handles).len() && release_order(handles)[j] == handles[i],
{
    let out = release_order(handles);
    let before = pick(handles, 4) + pick(handles, 5) + pick(handles, 6) + pick(handles, 7);
    if i >= 4 && i <= 7 {
        let j = i - 4;
        assert(out[j] == handles[i]);
    } else if i == 3 {
        let j = before.len() as int;
        assert(out[j] == handles[i]);
    } else if i == 8 {
        assert(out[5] == handles[i]);
    } else if i == 1 {
        let j = (before + pick(handles, 3) + pick(handles, 8)).len() as int;
        assert(out[j] == handles[i]);
    } else if i == 2 {
        let j = (before + pick(handles, 3) + pick(handles, 8) + pick(handles, 1)).len() as int;
        assert(out[j] == handles[i]);
    } else {
        let j = out.len() - 1;
        assert(out[j] == handles[i]);
    }
}

/// Synchronisation: in the commands of a conversion the work is submitted
/// before it is waited for, and every read-back comes after the wait.
pub proof fn lemma_readback_follows_sync(view: ConversionView)
    ensures
        ({
            let commands = view.commands();
            &&& commands[8] == GpuCommand::Submit
            &&& commands[9] == GpuCommand::Sync
            &&& forall|i: int|
                0 <= i < commands.len() && (#[trigger] commands[i]) is ReadTexture ==> i > 9
            &&& forall|i: int| 10 <= i < commands.len() ==> (#[trigger] commands[i]) is ReadTexture
            &&& commands.len() == 10 + view.plane_count()
        }),
{
}

} // verus!
