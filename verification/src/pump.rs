//! The background pump: one thread that polls the real duplication instance, keeps the newest
//! frame in a cache and recovers the instance when it is lost.
use vstd::prelude::*;

use crate::desktop::DesktopWatch;
use crate::duplication_proxy::is_source;
use crate::dxgi::{is_access_loss, is_loss, WAIT_TIMEOUT};
use crate::recovery::Rebuilt;
use crate::state::DuplicationSource;

verus! {

/// How long one call of `AcquireNextFrame` may wait for a frame, in milliseconds.
pub const PUMP_ACQUIRE_TIMEOUT_MS: u32 = 200;

/// `D3D11_BIND_SHADER_RESOURCE`.
pub const BIND_SHADER_RESOURCE: u32 = 8;

/// `D3D11_USAGE_DEFAULT`.
pub const USAGE_DEFAULT: i32 = 0;

/// What the system says of a frame.
#[derive(Debug, Clone, Copy, PartialEq, Eq, Structural)]
pub struct FrameInfo {
    pub last_present_time: i64,
    pub last_mouse_update_time: i64,
    pub accumulated_frames: u32,
    pub rects_coalesced: bool,
    pub protected_content_masked_out: bool,
    pub pointer_x: i32,
    pub pointer_y: i32,
    pub pointer_visible: bool,
    pub total_metadata_buffer_size: u32,
    /// The size of the pointer's new shape; zero where it has not changed.
    pub pointer_shape_buffer_size: u32,
}

/// What the system says of a pointer shape.
#[derive(Debug, Clone, Copy, PartialEq, Eq, Structural)]
pub struct PointerShapeInfo {
    pub shape_type: u32,
    pub width: u32,
    pub height: u32,
    pub pitch: u32,
    pub hot_spot_x: i32,
    pub hot_spot_y: i32,
}

/// What the system says of a duplication instance.
#[derive(Debug, Clone, Copy, PartialEq, Eq, Structural)]
pub struct DuplicationDesc {
    pub width: u32,
    pub height: u32,
    pub refresh_numerator: u32,
    pub refresh_denominator: u32,
    pub format: i32,
    pub scanline_ordering: i32,
    pub scaling: i32,
    pub rotation: i32,
    pub desktop_image_in_system_memory: bool,
}

/// What a texture is made from.
#[derive(Debug, Clone, Copy, PartialEq, Eq, Structural)]
pub struct TextureDesc {
    pub width: u32,
    pub height: u32,
    pub mip_levels: u32,
    pub array_size: u32,
    pub format: i32,
    pub sample_count: u32,
    pub sample_quality: u32,
    pub usage: i32,
    pub bind_flags: u32,
    pub cpu_access_flags: u32,
    pub misc_flags: u32,
}

impl TextureDesc {
    /// A texture like this one that is only read by shaders.
    pub open spec fn shader_copy(self) -> TextureDesc {
        TextureDesc {
            usage: USAGE_DEFAULT,
            bind_flags: BIND_SHADER_RESOURCE,
            cpu_access_flags: 0,
            misc_flags: 0,
            ..self
        }
    }
}

/// A texture that is used again for as long as the frames keep their size.
#[derive(Debug, Clone, Copy, PartialEq, Eq, Structural)]
pub struct ReusableTexture {
    pub tex: Option<u64>,
    pub width: u32,
    pub height: u32,
}

impl ReusableTexture {
    /// No texture yet.
    pub fn new() -> (none: ReusableTexture)
        ensures
            none == (ReusableTexture { tex: None, width: 0, height: 0 }),
    {
        ReusableTexture { tex: None, width: 0, height: 0 }
    }

    /// Whether there is a texture of the size of `src`.
    pub open spec fn fits(self, src: TextureDesc) -> bool {
        self.tex is Some && self.width == src.width && self.height == src.height
    }

    /// The texture that has to be made before one of the size of `src` can be had; nothing where
    /// there is one.
    pub fn missing(&self, src: &TextureDesc) -> (desc: Option<TextureDesc>)
        ensures
            desc == if self.fits(*src) {
                None
            } else {
                Some(src.shader_copy())
            },
    {
        if self.tex.is_none() || self.width != src.width || self.height != src.height {
            Some(
                TextureDesc {
                    usage: USAGE_DEFAULT,
                    bind_flags: BIND_SHADER_RESOURCE,
                    cpu_access_flags: 0,
                    misc_flags: 0,
                    ..*src
                },
            )
        } else {
            None
        }
    }

    /// The texture afterwards; `created` is what making the missing one returned.
    pub open spec fn after(
        self,
        src: TextureDesc,
        created: Result<Option<u64>, i32>,
    ) -> ReusableTexture {
        match created {
            Ok(tex) if !self.fits(src) => ReusableTexture {
                tex,
                width: src.width,
                height: src.height,
            },
            _ => self,
        }
    }

    /// The texture that is had: the one that fits, else the new one, else none.
    pub open spec fn had(self, src: TextureDesc, created: Result<Option<u64>, i32>) -> Option<u64> {
        if self.fits(src) {
            self.tex
        } else {
            match created {
                Ok(tex) => tex,
                Err(_) => None,
            }
        }
    }

    /// Gives a texture of the size of `src`; `created` is what making the missing one returned,
    /// and counts only where one was missing.
    pub fn get_or_create(&mut self, src: &TextureDesc, created: Result<Option<u64>, i32>) -> (tex:
        Option<u64>)
        ensures
            *final(self) == old(self).after(*src, created),
            tex == old(self).had(*src, created),
    {
        if self.tex.is_none() || self.width != src.width || self.height != src.height {
            match created {
                Ok(out) => {
                    self.tex = out;
                    self.width = src.width;
                    self.height = src.height;
                },
                Err(_) => {
                    return None;
                },
            }
        }
        self.tex
    }
}

/// The newest frame, copied into a texture of the pump's own.
#[derive(Debug, Clone, Copy, PartialEq, Eq, Structural)]
pub struct CachedFrame {
    pub texture: u64,
    pub frame_info: FrameInfo,
}

/// The newest shape of the pointer.
#[derive(Debug)]
pub struct CachedPointerShape {
    pub buf: Vec<u8>,
    pub info: PointerShapeInfo,
}

/// What the pump has captured last.
#[derive(Debug)]
pub struct FrameCache {
    pub latest: Option<CachedFrame>,
    /// The pointer's new shape, until it is taken.
    pub pointer_shape: Option<CachedPointerShape>,
    /// The texture that frames are handed out in.
    pub output_tex: ReusableTexture,
    /// Grows with every frame.
    pub generation: u64,
    pub desc: DuplicationDesc,
    pub device: u64,
}

impl FrameCache {
    /// An empty cache for frames of the instance that `desc` describes.
    pub fn new(desc: DuplicationDesc, device: u64) -> (cache: FrameCache)
        ensures
            cache.latest is None,
            cache.pointer_shape is None,
            cache.output_tex == (ReusableTexture { tex: None, width: 0, height: 0 }),
            cache.generation == 0,
            cache.desc == desc,
            cache.device == device,
    {
        FrameCache {
            latest: None,
            pointer_shape: None,
            output_tex: ReusableTexture::new(),
            generation: 0,
            desc,
            device,
        }
    }

    /// The frame for a reader who has seen the generation `last_seen`: the cached one, where it is
    /// newer.
    pub open spec fn news(self, last_seen: u64) -> Option<CachedFrame> {
        if self.generation <= last_seen {
            None
        } else {
            self.latest
        }
    }

    /// The texture that a reader who has seen the generation `last_seen` has to copy.
    pub fn unseen(&self, last_seen: u64) -> (texture: Option<u64>)
        ensures
            texture == match self.news(last_seen) {
                Some(frame) => Some(frame.texture),
                None => None,
            },
    {
        if self.generation <= last_seen {
            return None;
        }
        match &self.latest {
            Some(frame) => Some(frame.texture),
            None => None,
        }
    }

    /// Hands out the newest frame: its generation, what the system said of it, and the resource
    /// that it was copied to.
    ///
    /// `src` describes the texture that [`FrameCache::unseen`] names, `created` is what making a
    /// missing output texture returned, and `copied` is the resource that holds the copy; nothing
    /// where the copy could not be made.
    pub fn try_take_latest(
        &mut self,
        last_seen: u64,
        src: &TextureDesc,
        created: Result<Option<u64>, i32>,
        copied: Option<u64>,
    ) -> (taken: Option<(u64, FrameInfo, u64)>)
        ensures
            match old(self).news(last_seen) {
                None => taken is None && *final(self) == *old(self),
                Some(frame) => {
                    &&& *final(self) == (FrameCache {
                        output_tex: old(self).output_tex.after(*src, created),
                        ..*old(self)
                    })
                    &&& taken == match (old(self).output_tex.had(*src, created), copied) {
                        (Some(_), Some(resource)) => Some(
                            (old(self).generation, frame.frame_info, resource),
                        ),
                        _ => None,
                    }
                },
            },
    {
        if self.generation <= last_seen {
            return None;
        }
        let info = match &self.latest {
            Some(frame) => frame.frame_info,
            None => {
                return None;
            },
        };
        let output = self.output_tex.get_or_create(src, created);
        match (output, copied) {
            (Some(_), Some(resource)) => Some((self.generation, info, resource)),
            _ => None,
        }
    }

    /// What the system says of the instance.
    pub fn desc(&self) -> (desc: DuplicationDesc)
        ensures
            desc == self.desc,
    {
        self.desc
    }

    /// The cache after a new frame.
    pub open spec fn published(self, texture: u64, frame_info: FrameInfo) -> FrameCache {
        FrameCache {
            latest: Some(CachedFrame { texture, frame_info }),
            generation: self.generation.wrapping_add(1),
            ..self
        }
    }

    /// Keeps a new frame.
    pub fn publish(&mut self, texture: u64, frame_info: FrameInfo)
        ensures
            *final(self) == old(self).published(texture, frame_info),
    {
        self.latest = Some(CachedFrame { texture, frame_info });
        self.generation = self.generation.wrapping_add(1);
    }

    /// Keeps a new shape of the pointer, in place of one that was not taken.
    pub fn publish_pointer_shape(&mut self, buf: Vec<u8>, info: PointerShapeInfo)
        ensures
            *final(self) == (FrameCache {
                pointer_shape: Some(CachedPointerShape { buf, info }),
                ..*old(self)
            }),
    {
        self.pointer_shape = Some(CachedPointerShape { buf, info });
    }

    /// The number of bytes of the pointer's new shape, which stays.
    pub fn peek_pointer_shape_len(&self) -> (len: Option<usize>)
        ensures
            match self.pointer_shape {
                Some(shape) => len is Some && len->0 == shape.buf@.len(),
                None => len is None,
            },
    {
        match &self.pointer_shape {
            Some(shape) => Some(shape.buf.len()),
            None => None,
        }
    }

    /// Takes the pointer's new shape out of the cache.
    pub fn take_pointer_shape(&mut self) -> (shape: Option<(Vec<u8>, PointerShapeInfo)>)
        ensures
            shape == match old(self).pointer_shape {
                Some(shape) => Some((shape.buf, shape.info)),
                None => None,
            },
            *final(self) == (FrameCache { pointer_shape: None, ..*old(self) }),
    {
        match self.pointer_shape.take() {
            Some(shape) => Some((shape.buf, shape.info)),
            None => None,
        }
    }

    /// Takes what could be had of a frame: the pointer's new shape, if there is one and it could
    /// be fetched, and the frame, if it could be copied to a texture of the pump's own.
    pub fn deliver(
        &mut self,
        shape: Option<(Vec<u8>, PointerShapeInfo)>,
        texture: Option<u64>,
        frame_info: FrameInfo,
    )
        ensures
            ({
                let with_shape = match shape {
                    Some((buf, info)) => FrameCache {
                        pointer_shape: Some(CachedPointerShape { buf, info }),
                        ..*old(self)
                    },
                    None => *old(self),
                };
                *final(self) == match texture {
                    Some(id) => with_shape.published(id, frame_info),
                    None => with_shape,
                }
            }),
    {
        match shape {
            Some((buf, info)) => {
                self.publish_pointer_shape(buf, info);
            },
            None => {},
        }
        match texture {
            Some(id) => {
                self.publish(id, frame_info);
            },
            None => {},
        }
    }
}

/// Copies a frame into the pump's own texture: the texture that holds the copy, or nothing where
/// there is no texture or no context to copy with.
pub fn clone_into_cache_texture(
    cache_tex: &mut ReusableTexture,
    src: &TextureDesc,
    created: Result<Option<u64>, i32>,
    has_context: bool,
) -> (copy: Option<u64>)
    ensures
        *final(cache_tex) == old(cache_tex).after(*src, created),
        copy == if has_context {
            old(cache_tex).had(*src, created)
        } else {
            None
        },
{
    let out = cache_tex.get_or_create(src, created);
    if has_context {
        out
    } else {
        None
    }
}

/// The bytes of a pointer shape that `GetFramePointerShape` wrote into a buffer; it says itself
/// how many they are.
pub fn fetch_pointer_shape(buf: Vec<u8>, size_required: u32) -> (shape: Vec<u8>)
    ensures
        shape@ == if size_required < buf@.len() {
            buf@.take(size_required as int)
        } else {
            buf@
        },
{
    let mut out = buf;
    out.truncate(size_required as usize);
    out
}

/// What the pump has to do next.
#[derive(Debug, Clone, Copy, PartialEq, Eq, Structural)]
pub enum PumpStep {
    /// Ask this instance for its next frame, for so long.
    Acquire { instance: u64, timeout_ms: u32 },
    /// Fetch the pointer's new shape, if `shape_size` says how large it is, copy the frame, put
    /// both into the cache, and then release the frame.
    Deliver { instance: u64, shape_size: Option<u32> },
    /// Ask for a replacement on the same device and output.
    Reduplicate,
    /// Ask for a replacement on a new device.
    RebuildFromScratch,
    /// Wait, then start the next round.
    Sleep { ms: u64 },
    /// Start the next round.
    Next,
}

/// The state of the pump.
#[derive(Debug)]
pub struct Pump {
    /// The real instance; nothing while it could not be replaced.
    pub real: Option<u64>,
    /// How it was made.
    pub source: DuplicationSource,
    /// The desktop that was last seen.
    pub desktop: DesktopWatch,
}

impl Pump {
    /// A pump for `instance`, which was made as `source` says. `attached` is the name of the input
    /// desktop, or nothing where the thread could not be attached to it.
    pub fn start(instance: u64, source: DuplicationSource, attached: Option<String>) -> (pump: Pump)
        ensures
            pump.real == Some(instance),
            pump.source == source,
            pump.desktop.last@ == match attached {
                Some(name) => name@,
                None => "Default"@,
            },
    {
        let last = match attached {
            Some(name) => name,
            None => "Default".to_string(),
        };
        Pump { real: Some(instance), source, desktop: DesktopWatch { last } }
    }

    /// What a round starts with.
    pub open spec fn first(self) -> PumpStep {
        match self.real {
            Some(instance) => PumpStep::Acquire { instance, timeout_ms: PUMP_ACQUIRE_TIMEOUT_MS },
            None => PumpStep::Reduplicate,
        }
    }

    /// Starts a round: a look at the desktop, then a frame, or a new instance where there is none.
    pub fn begin_round(&mut self, attached: Option<String>) -> (started: (bool, PumpStep))
        ensures
            (final(self).desktop.last@, started.0) == DesktopWatch::seen(
                old(self).desktop.last@,
                match attached {
                    Some(name) => Some(name@),
                    None => None,
                },
            ),
            final(self).real == old(self).real,
            final(self).source == old(self).source,
            started.1 == old(self).first(),
    {
        let changed = self.desktop.look(attached);
        let step = match self.real {
            Some(instance) => PumpStep::Acquire { instance, timeout_ms: PUMP_ACQUIRE_TIMEOUT_MS },
            None => PumpStep::Reduplicate,
        };
        (changed, step)
    }

    /// The pump after it asked `instance` for a frame.
    pub open spec fn asked(self, instance: u64, outcome: Result<FrameInfo, i32>) -> (
        Pump,
        PumpStep,
    ) {
        match outcome {
            Ok(info) => (
                self,
                PumpStep::Deliver {
                    instance,
                    shape_size: if info.pointer_shape_buffer_size > 0 {
                        Some(info.pointer_shape_buffer_size)
                    } else {
                        None
                    },
                },
            ),
            Err(code) => if code == WAIT_TIMEOUT {
                (self, PumpStep::Next)
            } else if is_loss(code) {
                (Pump { real: None, ..self }, PumpStep::Reduplicate)
            } else {
                (self, PumpStep::Sleep { ms: 100 })
            },
        }
    }

    /// Takes the outcome of asking `instance` for a frame. A lost instance is given up before
    /// another is asked for.
    pub fn acquired(&mut self, instance: u64, outcome: Result<FrameInfo, i32>) -> (step: PumpStep)
        requires
            old(self).real == Some(instance),
        ensures
            (*final(self), step) == old(self).asked(instance, outcome),
    {
        match outcome {
            Ok(info) => PumpStep::Deliver {
                instance,
                shape_size: if info.pointer_shape_buffer_size > 0 {
                    Some(info.pointer_shape_buffer_size)
                } else {
                    None
                },
            },
            Err(code) => {
                if code == WAIT_TIMEOUT {
                    PumpStep::Next
                } else if is_access_loss(code) {
                    self.real = None;
                    PumpStep::Reduplicate
                } else {
                    PumpStep::Sleep { ms: 100 }
                }
            },
        }
    }

    /// Prepares a recovery: `last` is what recovery works from.
    pub fn begin_reduplicate(&self, last: &mut Option<DuplicationSource>)
        ensures
            is_source(*final(last), self.source),
    {
        *last = Some(self.source.copy());
    }

    /// The pump with a replacement.
    pub open spec fn with(self, rebuilt: Rebuilt) -> Pump {
        Pump { real: Some(rebuilt.duplication), source: rebuilt.source, ..self }
    }

    fn accept(&mut self, rebuilt: Rebuilt, last: &mut Option<DuplicationSource>)
        ensures
            *final(self) == old(self).with(rebuilt),
            is_source(*final(last), rebuilt.source),
    {
        *last = Some(rebuilt.source.copy());
        self.real = Some(rebuilt.duplication);
        self.source = rebuilt.source;
    }

    /// Takes the outcome of a recovery on the same device and output. After a success the pump
    /// rests a little; after a failure the whole chain is built anew.
    pub fn reduplicated(
        &mut self,
        outcome: Result<Rebuilt, i32>,
        last: &mut Option<DuplicationSource>,
    ) -> (step: PumpStep)
        requires
            old(self).real is None,
        ensures
            match outcome {
                Ok(rebuilt) => {
                    &&& *final(self) == old(self).with(rebuilt)
                    &&& is_source(*final(last), rebuilt.source)
                    &&& step == (PumpStep::Sleep { ms: 50 })
                },
                Err(_) => {
                    &&& *final(self) == *old(self)
                    &&& *final(last) == *old(last)
                    &&& step is RebuildFromScratch
                },
            },
    {
        match outcome {
            Ok(rebuilt) => {
                self.accept(rebuilt, last);
                PumpStep::Sleep { ms: 50 }
            },
            Err(_) => PumpStep::RebuildFromScratch,
        }
    }

    /// Takes the outcome of a recovery on a new device. After a failure the pump rests longer and
    /// stays without an instance, to try again with what it knew.
    pub fn rebuilt(&mut self, outcome: Result<Rebuilt, i32>, last: &mut Option<DuplicationSource>)
        -> (step: PumpStep)
        requires
            old(self).real is None,
        ensures
            match outcome {
                Ok(rebuilt) => {
                    &&& *final(self) == old(self).with(rebuilt)
                    &&& is_source(*final(last), rebuilt.source)
                    &&& step == (PumpStep::Sleep { ms: 50 })
                },
                Err(_) => {
                    &&& *final(self) == *old(self)
                    &&& *final(last) == *old(last)
                    &&& step == (PumpStep::Sleep { ms: 200 })
                },
            },
    {
        match outcome {
            Ok(rebuilt) => {
                self.accept(rebuilt, last);
                PumpStep::Sleep { ms: 50 }
            },
            Err(_) => PumpStep::Sleep { ms: 200 },
        }
    }
}

/// Every new frame is news for a reader who has seen the one before, or an earlier one, and no news
/// once it is seen.
pub proof fn law_frame_is_news_once(
    cache: FrameCache,
    texture: u64,
    frame_info: FrameInfo,
    last_seen: u64,
)
    requires
        cache.generation < u64::MAX,
    ensures
        ({
            let after = cache.published(texture, frame_info);
            &&& last_seen <= cache.generation ==> after.news(last_seen) == Some(
                CachedFrame { texture, frame_info },
            )
            &&& last_seen >= after.generation ==> after.news(last_seen) is None
        }),
{
}

/// Once a texture was made, frames of the same size need no other.
pub proof fn law_texture_is_reused(
    t: ReusableTexture,
    src: TextureDesc,
    created: Result<Option<u64>, i32>,
    next: TextureDesc,
)
    requires
        t.had(src, created) is Some,
        next.width == src.width,
        next.height == src.height,
    ensures
        t.after(src, created).fits(next),
        t.after(src, created).tex == t.had(src, created),
{
}

/// Whenever the pump asks for a replacement of its instance, it holds none.
pub proof fn law_pump_drops_before_recovery(
    p: Pump,
    instance: u64,
    outcome: Result<FrameInfo, i32>,
)
    ensures
        p.first() is Reduplicate ==> p.real is None,
        p.asked(instance, outcome).1 is Reduplicate ==> p.asked(instance, outcome).0.real is None,
{
}

/// A missing texture is made like the frame in all that describes its picture, and only for
/// shaders to read; a texture is missing exactly where none of the size of the frame is there.
pub proof fn law_missing_texture_is_like_the_frame(
    t: &ReusableTexture,
    src: &TextureDesc,
    desc: Option<TextureDesc>,
)
    requires
        call_ensures(ReusableTexture::missing, (t, src), desc),
    ensures
        desc is None <==> t.tex is Some && t.width == src.width && t.height == src.height,
        desc matches Some(made) ==> {
            &&& made.width == src.width && made.height == src.height
            &&& made.format == src.format
            &&& made.mip_levels == src.mip_levels && made.array_size == src.array_size
            &&& made.sample_count == src.sample_count && made.sample_quality == src.sample_quality
            &&& made.usage == 0 && made.bind_flags == 8
            &&& made.cpu_access_flags == 0 && made.misc_flags == 0
        },
{
}

/// A texture is made once for frames of one size: after it was had, none is missing for a frame of
/// that size, and the same texture is had whatever making another would have returned. A failure
/// leaves the old texture for frames of the old size.
pub proof fn law_texture_is_made_once(
    t: &mut ReusableTexture,
    src: &TextureDesc,
    created: Result<Option<u64>, i32>,
    tex: Option<u64>,
    missing: Option<TextureDesc>,
    again: &mut ReusableTexture,
    other: Result<Option<u64>, i32>,
    second: Option<u64>,
)
    requires
        call_ensures(ReusableTexture::get_or_create, (t, src, created), tex),
        call_ensures(ReusableTexture::missing, (&*final(t), src), missing),
        *old(again) == *final(t),
        call_ensures(ReusableTexture::get_or_create, (again, src, other), second),
    ensures
        tex is Some ==> missing is None && second == tex && *final(again) == *final(t),
        old(t).tex is Some && old(t).width == src.width && old(t).height == src.height ==> tex
            == old(t).tex && *final(t) == *old(t),
        !(old(t).tex is Some && old(t).width == src.width && old(t).height == src.height) ==> (
        match created {
            Ok(made) => tex == made && final(t).tex == made && final(t).width == src.width
                && final(t).height == src.height,
            Err(_) => tex is None && *final(t) == *old(t),
        }),
{
}

/// A new cache holds nothing, and describes the instance and the device that it was made for.
pub proof fn law_cache_starts_empty(
    desc: DuplicationDesc,
    device: u64,
    cache: FrameCache,
    last_seen: u64,
    unseen: Option<u64>,
    told: DuplicationDesc,
)
    requires
        call_ensures(FrameCache::new, (desc, device), cache),
        call_ensures(FrameCache::unseen, (&cache, last_seen), unseen),
        call_ensures(FrameCache::desc, (&cache,), told),
    ensures
        unseen is None,
        told == desc,
        cache.device == device,
        cache.generation == 0,
        cache.pointer_shape is None,
        cache.output_tex.tex is None,
{
}

/// A frame that was published is the one to copy for every reader who has seen an earlier
/// generation, and nothing for a reader who has seen this one. The rest of the cache stays.
pub proof fn law_published_frame_is_read_once(
    cache: &mut FrameCache,
    texture: u64,
    frame_info: FrameInfo,
    last_seen: u64,
    unseen: Option<u64>,
)
    requires
        call_ensures(FrameCache::publish, (cache, texture, frame_info), ()),
        call_ensures(FrameCache::unseen, (&*final(cache), last_seen), unseen),
    ensures
        final(cache).generation == (old(cache).generation + 1) % 0x1_0000_0000_0000_0000,
        last_seen < final(cache).generation ==> unseen == Some(texture),
        last_seen >= final(cache).generation ==> unseen is None,
        final(cache).latest matches Some(frame) && frame.texture == texture && frame.frame_info
            == frame_info,
        final(cache).pointer_shape == old(cache).pointer_shape,
        final(cache).output_tex == old(cache).output_tex,
        final(cache).desc == old(cache).desc,
        final(cache).device == old(cache).device,
{
}

/// A frame is handed out to a reader who has not seen it, where it could be copied to an output
/// texture: with its generation, with what the system said of it, and as the resource that holds
/// the copy. Handing it out neither removes the frame nor touches the pointer's shape.
pub proof fn law_newest_frame_is_handed_out(
    cache: &mut FrameCache,
    last_seen: u64,
    src: &TextureDesc,
    created: Result<Option<u64>, i32>,
    copied: Option<u64>,
    taken: Option<(u64, FrameInfo, u64)>,
)
    requires
        call_ensures(FrameCache::try_take_latest, (cache, last_seen, src, created, copied), taken),
    ensures
        ({
            let out = old(cache).output_tex;
            let fits = out.tex is Some && out.width == src.width && out.height == src.height;
            let has_output = fits || (created matches Ok(made) && made is Some);
            taken is Some <==> old(cache).generation > last_seen && old(cache).latest is Some
                && has_output && copied is Some
        }),
        taken matches Some((generation, info, resource)) ==> {
            &&& generation == old(cache).generation
            &&& info == old(cache).latest->0.frame_info
            &&& copied == Some(resource)
        },
        old(cache).generation <= last_seen || old(cache).latest is None ==> *final(cache) == *old(
            cache,
        ),
        final(cache).latest == old(cache).latest,
        final(cache).pointer_shape == old(cache).pointer_shape,
        final(cache).generation == old(cache).generation,
        final(cache).desc == old(cache).desc,
        final(cache).device == old(cache).device,
{
}

/// The pointer's new shape can be looked at any number of times and taken once: what is taken is
/// what was published last, as long as its length said, and then there is none.
pub proof fn law_pointer_shape_is_taken_once(
    cache: &mut FrameCache,
    buf: Vec<u8>,
    info: PointerShapeInfo,
    len: Option<usize>,
    taking: &mut FrameCache,
    taken: Option<(Vec<u8>, PointerShapeInfo)>,
    left: Option<usize>,
    again: &mut FrameCache,
    second: Option<(Vec<u8>, PointerShapeInfo)>,
)
    requires
        call_ensures(FrameCache::publish_pointer_shape, (cache, buf, info), ()),
        call_ensures(FrameCache::peek_pointer_shape_len, (&*final(cache),), len),
        *old(taking) == *final(cache),
        call_ensures(FrameCache::take_pointer_shape, (taking,), taken),
        call_ensures(FrameCache::peek_pointer_shape_len, (&*final(taking),), left),
        *old(again) == *final(taking),
        call_ensures(FrameCache::take_pointer_shape, (again,), second),
    ensures
        len is Some && len->0 == buf@.len(),
        taken == Some((buf, info)),
        left is None,
        second is None,
        final(again).latest == old(cache).latest,
        final(again).generation == old(cache).generation,
        final(again).output_tex == old(cache).output_tex,
        final(again).desc == old(cache).desc,
        final(again).device == old(cache).device,
{
}

/// What could be had of a frame is delivered, each part by itself: a shape becomes the pointer's
/// new shape, a texture becomes the newest frame, and what is missing leaves the old one.
pub proof fn law_parts_are_delivered(
    cache: &mut FrameCache,
    shape: Option<(Vec<u8>, PointerShapeInfo)>,
    texture: Option<u64>,
    frame_info: FrameInfo,
)
    requires
        call_ensures(FrameCache::deliver, (cache, shape, texture, frame_info), ()),
    ensures
        shape matches Some((buf, info)) ==> final(cache).pointer_shape == Some(
            CachedPointerShape { buf, info },
        ),
        shape is None ==> final(cache).pointer_shape == old(cache).pointer_shape,
        texture matches Some(id) ==> final(cache).latest == Some(
            CachedFrame { texture: id, frame_info },
        ) && final(cache).generation == (old(cache).generation + 1) % 0x1_0000_0000_0000_0000,
        texture is None ==> final(cache).latest == old(cache).latest && final(cache).generation
            == old(cache).generation,
        final(cache).output_tex == old(cache).output_tex,
        final(cache).desc == old(cache).desc,
        final(cache).device == old(cache).device,
{
}

/// A frame is copied into the texture that fits it, or into the one that was made for it, and only
/// with a context to copy with.
pub proof fn law_frame_is_copied_into_its_texture(
    cache_tex: &mut ReusableTexture,
    src: &TextureDesc,
    created: Result<Option<u64>, i32>,
    has_context: bool,
    copy: Option<u64>,
)
    requires
        call_ensures(clone_into_cache_texture, (cache_tex, src, created, has_context), copy),
    ensures
        ({
            let t = *old(cache_tex);
            let fits = t.tex is Some && t.width == src.width && t.height == src.height;
            &&& !has_context ==> copy is None
            &&& has_context && fits ==> copy == t.tex
            &&& has_context && !fits ==> copy == (match created {
                Ok(made) => made,
                Err(_) => None,
            })
            &&& fits || created is Err ==> *final(cache_tex) == t
            &&& !fits ==> (created matches Ok(made) ==> final(cache_tex).tex == made && final(
                cache_tex
            ).width == src.width && final(cache_tex).height == src.height)
        }),
{
}

/// The bytes of a shape are the first ones of the buffer, as many as the system says it wrote, and
/// never more than there are.
pub proof fn law_shape_is_the_start_of_the_buffer(buf: Vec<u8>, size_required: u32, shape: Vec<u8>)
    requires
        call_ensures(fetch_pointer_shape, (buf, size_required), shape),
    ensures
        shape@.len() == vstd::math::min(buf@.len() as int, size_required as int),
        forall|i: int| 0 <= i < shape@.len() ==> #[trigger] shape@[i] == buf@[i],
{
}

/// A pump starts with its instance and with the desktop that its thread was attached to; where that
/// failed it takes the desktop to be the default one.
pub proof fn law_pump_starts_with_its_instance(
    instance: u64,
    source: DuplicationSource,
    attached: Option<String>,
    pump: Pump,
)
    requires
        call_ensures(Pump::start, (instance, source, attached), pump),
    ensures
        pump.real == Some(instance),
        pump.source == source,
        attached matches Some(name) ==> pump.desktop.last@ == name@,
        attached is None ==> pump.desktop.last@ == "Default"@,
{
}

/// A round asks the instance that the pump holds, for 200 milliseconds, and asks for a replacement
/// only where it holds none; it reports the desktop where it is another than before.
pub proof fn law_round_asks_the_held_instance(
    pump: &mut Pump,
    attached: Option<String>,
    started: (bool, PumpStep),
)
    requires
        call_ensures(Pump::begin_round, (pump, attached), started),
    ensures
        old(pump).real matches Some(held) ==> started.1 == (PumpStep::Acquire {
            instance: held,
            timeout_ms: 200,
        }),
        old(pump).real is None ==> started.1 == PumpStep::Reduplicate,
        attached matches Some(name) ==> final(pump).desktop.last@ == name@ && (started.0 <==> name@
            != old(pump).desktop.last@),
        attached is None ==> !started.0 && final(pump).desktop.last@ == old(pump).desktop.last@,
        final(pump).real == old(pump).real,
        final(pump).source == old(pump).source,
{
}

/// What the instance answers decides the round: a frame is delivered, with the pointer's shape
/// where it has a new one; a time-out starts the next round; the three codes that mean the death of
/// the instance make the pump give it up; any other failure is waited out.
pub proof fn law_answer_decides_the_round(
    pump: &mut Pump,
    instance: u64,
    outcome: Result<FrameInfo, i32>,
    step: PumpStep,
)
    requires
        old(pump).real == Some(instance),
        call_ensures(Pump::acquired, (pump, instance, outcome), step),
    ensures
        outcome matches Ok(info) ==> step == (PumpStep::Deliver {
            instance,
            shape_size: if info.pointer_shape_buffer_size == 0 {
                None
            } else {
                Some(info.pointer_shape_buffer_size)
            },
        }),
        outcome matches Err(code) ==> {
            let unsigned = code + 0x1_0000_0000;
            let lost = unsigned == 0x887a_0026 || unsigned == 0x887a_002b || unsigned
                == 0x887a_0001;
            &&& unsigned == 0x887a_0027 ==> step == PumpStep::Next
            &&& lost ==> step == PumpStep::Reduplicate && final(pump).real is None
            &&& unsigned != 0x887a_0027 && !lost ==> step == (PumpStep::Sleep { ms: 100 })
        },
        step !is Reduplicate ==> final(pump).real == old(pump).real,
        final(pump).source == old(pump).source,
        final(pump).desktop == old(pump).desktop,
{
}

/// Recovery works from how the pump's own instance was made.
pub proof fn law_recovery_works_from_the_source(pump: &Pump, last: &mut Option<DuplicationSource>)
    requires
        call_ensures(Pump::begin_reduplicate, (pump, last), ()),
    ensures
        *final(last) matches Some(known) && known.device() == pump.source.device() && known.output()
            == pump.source.output() && (known is V5 <==> pump.source is V5),
{
}

/// A replacement on the same device is taken over, and the pump rests for 50 milliseconds; a failure
/// changes nothing and makes it ask for one on a new device.
pub proof fn law_failed_replacement_is_made_from_scratch(
    pump: &mut Pump,
    outcome: Result<Rebuilt, i32>,
    last: &mut Option<DuplicationSource>,
    step: PumpStep,
)
    requires
        old(pump).real is None,
        call_ensures(Pump::reduplicated, (pump, outcome, last), step),
    ensures
        outcome matches Ok(rebuilt) ==> {
            &&& final(pump).real == Some(rebuilt.duplication)
            &&& final(pump).source == rebuilt.source
            &&& *final(last) matches Some(known) && known.device() == rebuilt.source.device()
                && known.output() == rebuilt.source.output()
            &&& step == (PumpStep::Sleep { ms: 50 })
        },
        outcome is Err ==> step == PumpStep::RebuildFromScratch && *final(pump) == *old(pump)
            && *final(last) == *old(last),
        final(pump).desktop == old(pump).desktop,
{
}

/// A replacement on a new device is taken over, and the pump rests for 50 milliseconds; after a
/// failure it rests for 200 and has no instance, so that its next round asks for one again.
pub proof fn law_failed_rebuild_is_tried_again(
    pump: &mut Pump,
    outcome: Result<Rebuilt, i32>,
    last: &mut Option<DuplicationSource>,
    step: PumpStep,
    next: &mut Pump,
    attached: Option<String>,
    started: (bool, PumpStep),
)
    requires
        old(pump).real is None,
        call_ensures(Pump::rebuilt, (pump, outcome, last), step),
        *old(next) == *final(pump),
        call_ensures(Pump::begin_round, (next, attached), started),
    ensures
        outcome matches Ok(rebuilt) ==> {
            &&& final(pump).real == Some(rebuilt.duplication)
            &&& final(pump).source == rebuilt.source
            &&& *final(last) matches Some(known) && known.device() == rebuilt.source.device()
                && known.output() == rebuilt.source.output()
            &&& step == (PumpStep::Sleep { ms: 50 })
            &&& started.1 == (PumpStep::Acquire { instance: rebuilt.duplication, timeout_ms: 200 })
        },
        outcome is Err ==> step == (PumpStep::Sleep { ms: 200 }) && *final(last) == *old(last)
            && final(pump).source == old(pump).source && started.1 == PumpStep::Reduplicate,
        final(pump).desktop == old(pump).desktop,
{
}

/// Before any was made there is no texture, and one is missing for frames of every size.
pub proof fn law_no_texture_at_first(
    none: ReusableTexture,
    src: &TextureDesc,
    desc: Option<TextureDesc>,
)
    requires
        call_ensures(ReusableTexture::new, (), none),
        call_ensures(ReusableTexture::missing, (&none, src), desc),
    ensures
        none.tex is None && none.width == 0 && none.height == 0,
        desc is Some,
{
}

} // verus!
