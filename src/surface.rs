//! The per-output surface state machine: it decides, for each configure,
//! scale, frame and load event, what the rendering context must do and how
//! the transition engine moves. The context itself is driven by the caller.

use crate::config::{
    expand_path_with, expanded, home_dir, opt_chars, BackgroundMode, MonitorConfig, TransitionType,
    DEFAULT_TRANSITION_MS,
};
use crate::transition::{TransitionEngine, TransitionView};
use vstd::prelude::*;

verus! {

/// Width used when the compositor suggests zero.
pub const FALLBACK_WIDTH: u32 = 1920;

/// Height used when the compositor suggests zero.
pub const FALLBACK_HEIGHT: u32 = 1080;

/// Delta assumed for the first frame, about one frame at 60 Hz.
pub const FIRST_FRAME_MS: u32 = 16;

/// Red component of the solid color shown when no image could be loaded.
pub const FALLBACK_RED: u8 = 30;

/// Green component of the fallback color.
pub const FALLBACK_GREEN: u8 = 30;

/// Blue component of the fallback color.
pub const FALLBACK_BLUE: u8 = 40;

/// What a surface is presenting.
#[derive(Debug, Clone, Copy, PartialEq, Eq, Structural)]
pub enum Showing {
    /// Nothing yet.
    Nothing,
    /// The solid fallback color.
    Fallback,
    /// A loaded image.
    Image,
}

/// Life-cycle phase of a surface.
#[derive(Debug, Clone, Copy, PartialEq, Eq, Structural)]
pub enum Phase {
    /// No configure event yet; nothing may be drawn.
    Unconfigured,
    /// Configured, but the context or the first picture is not in place.
    Configuring,
    /// Presenting an image or the fallback color.
    Steady,
}

/// What the rendering context must do after a configure event. Sizes are in
/// device pixels.
#[derive(Debug, Clone, Copy, PartialEq, Eq, Structural)]
pub enum ConfigurePlan {
    /// Create the context at this size, then load the initial wallpaper.
    CreateContext { width: u64, height: u64 },
    /// Resize the presentable surface and the viewport.
    Resize { width: u64, height: u64 },
    /// The size is unchanged: leave the context alone.
    Keep,
}

/// What to do after a scale-factor event. Sizes are in device pixels.
#[derive(Debug, Clone, Copy, PartialEq, Eq, Structural)]
pub enum ScalePlan {
    /// The factor is unchanged: nothing to do.
    Unchanged,
    /// Set the new buffer scale and request a redraw.
    Redraw,
    /// Set the new buffer scale, resize the context, and request a redraw.
    ResizeAndRedraw { width: u64, height: u64 },
}

/// What to do after advancing a frame: present, mark the whole buffer as
/// damaged, and ask for another frame callback only while animating.
#[derive(Debug, Clone, Copy, PartialEq, Eq, Structural)]
pub struct FramePlan {
    pub damage_width: u64,
    pub damage_height: u64,
    pub request_frame: bool,
}

/// The surface as mathematical values.
pub struct SurfaceView {
    pub configured: bool,
    pub width: nat,
    pub height: nat,
    pub scale: int,
    pub last_frame: Option<nat>,
    pub wallpaper: Option<Seq<char>>,
    pub showing: Showing,
    pub engine: Option<TransitionView>,
}

/// A suggested size component, with zero replaced by the fallback.
pub open spec fn clamp_size(n: nat, fallback: nat) -> nat {
    if n == 0 {
        fallback
    } else {
        n
    }
}

impl SurfaceView {
    /// Scale is positive, sizes fit `u32`, and what is shown agrees with the
    /// engine.
    pub open spec fn wf(self) -> bool {
        &&& self.scale >= 1
        &&& self.width <= u32::MAX
        &&& self.height <= u32::MAX
        &&& self.engine matches Some(e) ==> e.wf()
        &&& self.engine is None ==> self.showing == Showing::Nothing
        &&& self.showing == Showing::Nothing <==> (self.engine is None || !self.engine->0.loaded)
    }

    pub open spec fn phase(self) -> Phase {
        if !self.configured {
            Phase::Unconfigured
        } else if self.engine is Some && self.showing != Showing::Nothing {
            Phase::Steady
        } else {
            Phase::Configuring
        }
    }

    /// Buffer size in device pixels.
    pub open spec fn device_width(self) -> nat {
        (self.width * self.scale) as nat
    }

    pub open spec fn device_height(self) -> nat {
        (self.height * self.scale) as nat
    }

    /// The state after a configure event suggesting `width` x `height`.
    pub open spec fn configure(self, width: nat, height: nat) -> Self {
        SurfaceView {
            configured: true,
            width: clamp_size(width, FALLBACK_WIDTH as nat),
            height: clamp_size(height, FALLBACK_HEIGHT as nat),
            ..self
        }
    }

    /// What a configure event asks of the context.
    pub open spec fn configure_plan(self, width: nat, height: nat) -> ConfigurePlan {
        let next = self.configure(width, height);
        if self.engine is None {
            ConfigurePlan::CreateContext {
                width: next.device_width() as u64,
                height: next.device_height() as u64,
            }
        } else if next.width != self.width || next.height != self.height {
            ConfigurePlan::Resize {
                width: next.device_width() as u64,
                height: next.device_height() as u64,
            }
        } else {
            ConfigurePlan::Keep
        }
    }

    /// The state after a scale-factor event.
    pub open spec fn rescale(self, factor: int) -> Self {
        SurfaceView { scale: factor, ..self }
    }

    /// What a scale-factor event asks for.
    pub open spec fn scale_plan(self, factor: int) -> ScalePlan {
        let next = self.rescale(factor);
        if factor == self.scale {
            ScalePlan::Unchanged
        } else if self.configured && self.engine is Some {
            ScalePlan::ResizeAndRedraw {
                width: next.device_width() as u64,
                height: next.device_height() as u64,
            }
        } else {
            ScalePlan::Redraw
        }
    }

    /// Milliseconds since the previous frame, saturated; the first frame
    /// assumes one frame at 60 Hz.
    pub open spec fn frame_delta(self, now: nat) -> nat {
        match self.last_frame {
            Some(last) => if now <= last {
                0
            } else if now - last > u32::MAX {
                u32::MAX as nat
            } else {
                (now - last) as nat
            },
            None => FIRST_FRAME_MS as nat,
        }
    }

    /// The state once the rendering context exists, with a fresh engine.
    pub open spec fn attach(self, kind: TransitionType, duration: nat) -> Self {
        let fresh = TransitionView {
            kind,
            duration,
            elapsed: 0,
            loaded: false,
            holds_previous: false,
        };
        SurfaceView { engine: Some(TransitionView { elapsed: fresh.span(), ..fresh }), ..self }
    }

    /// The state after the image at `path` was installed.
    pub open spec fn load_image(self, path: Seq<char>) -> Self {
        match self.engine {
            Some(e) => SurfaceView {
                engine: Some(e.load()),
                wallpaper: Some(path),
                showing: Showing::Image,
                ..self
            },
            None => self,
        }
    }

    /// The state after the solid fallback color was installed.
    pub open spec fn show_fallback(self) -> Self {
        match self.engine {
            Some(e) => SurfaceView {
                engine: Some(e.show_solid()),
                showing: Showing::Fallback,
                ..self
            },
            None => self,
        }
    }

    /// Whether the solid fallback must be shown: a context exists and no
    /// picture was ever installed.
    pub open spec fn needs_fallback(self) -> bool {
        self.engine is Some && self.showing == Showing::Nothing
    }
}

/// The transition kind a monitor's settings give the engine.
pub open spec fn engine_kind(c: MonitorConfig) -> TransitionType {
    match c.transition {
        Some(k) => k,
        None => TransitionType::Fade,
    }
}

/// The transition duration a monitor's settings give the engine.
pub open spec fn engine_duration(c: MonitorConfig) -> nat {
    match c.transition_time {
        Some(t) => t as nat,
        None => DEFAULT_TRANSITION_MS as nat,
    }
}

/// `n` logical pixels at `scale` device pixels each.
fn device_extent(n: u32, scale: i32) -> (r: u64)
    requires
        scale >= 1,
    ensures
        r == n * scale,
{
    let s = scale as u64;
    assert(n as u64 * s <= 0xffff_ffff * 0x7fff_ffff) by (nonlinear_arith)
        requires
            n <= 0xffff_ffff,
            s <= 0x7fff_ffff,
    ;
    n as u64 * s
}

/// One output's surface: its configuration state, size, scale, frame clock,
/// wallpaper and, once the rendering context exists, its transition engine.
pub struct OutputSurface<T> {
    output_name: String,
    config: MonitorConfig,
    width: u32,
    height: u32,
    scale_factor: i32,
    configured: bool,
    last_frame_ms: Option<u64>,
    current_wallpaper_path: Option<String>,
    showing: Showing,
    renderer: Option<TransitionEngine<T>>,
}

impl<T> View for OutputSurface<T> {
    type V = SurfaceView;

    closed spec fn view(&self) -> SurfaceView {
        SurfaceView {
            configured: self.configured,
            width: self.width as nat,
            height: self.height as nat,
            scale: self.scale_factor as int,
            last_frame: match self.last_frame_ms {
                Some(t) => Some(t as nat),
                None => None,
            },
            wallpaper: match self.current_wallpaper_path {
                Some(p) => Some(p@),
                None => None,
            },
            showing: self.showing,
            engine: match self.renderer {
                Some(e) => Some(e@),
                None => None,
            },
        }
    }
}

impl<T> OutputSurface<T> {
    /// The view is well formed and so is the engine.
    pub closed spec fn wf(&self) -> bool {
        &&& self@.wf()
        &&& self.renderer matches Some(e) ==> e.wf()
    }

    /// The engine, images included.
    pub closed spec fn engine_state(&self) -> Option<TransitionEngine<T>> {
        self.renderer
    }

    /// The output's name.
    pub closed spec fn name_view(&self) -> Seq<char> {
        self.output_name@
    }

    /// The monitor settings.
    pub closed spec fn config_view(&self) -> MonitorConfig {
        self.config
    }

    /// Ties the surface's model to its engine: the model's engine is the
    /// engine's own model, and a well-formed surface has a well-formed model.
    pub proof fn lemma_engine_view(&self)
        ensures
            self@.engine == match self.engine_state() {
                Some(e) => Some(e@),
                None => None,
            },
            self.wf() ==> self@.wf(),
            self.wf() ==> (self.engine_state() matches Some(e) ==> e.wf()),
    {
    }

    /// A surface for a newly discovered output, not yet configured.
    pub fn new(output_name: String, config: MonitorConfig) -> (r: Self)
        ensures
            r.wf(),
            r.name_view() == output_name@,
            r.config_view() == config,
            r@.phase() == Phase::Unconfigured,
            !r@.configured,
            r@.width == 0,
            r@.height == 0,
            r@.scale == 1,
            r@.last_frame is None,
            r@.wallpaper is None,
            r@.showing == Showing::Nothing,
            r@.engine is None,
    {
        OutputSurface {
            output_name,
            config,
            width: 0,
            height: 0,
            scale_factor: 1,
            configured: false,
            last_frame_ms: None,
            current_wallpaper_path: None,
            showing: Showing::Nothing,
            renderer: None,
        }
    }

    /// The output's name.
    pub fn output_name(&self) -> (r: &str)
        ensures
            r@ == self.name_view(),
    {
        self.output_name.as_str()
    }

    /// The monitor settings the surface was made with.
    pub fn config(&self) -> (r: &MonitorConfig)
        ensures
            *r == self.config_view(),
    {
        &self.config
    }

    /// Whether a configure event has arrived.
    pub fn is_configured(&self) -> (r: bool)
        ensures
            r == self@.configured,
    {
        self.configured
    }

    /// The path of the wallpaper last loaded.
    pub fn current_wallpaper(&self) -> (r: Option<&String>)
        ensures
            match r {
                Some(p) => self@.wallpaper == Some(p@),
                None => self@.wallpaper is None,
            },
    {
        match &self.current_wallpaper_path {
            Some(p) => Some(p),
            None => None,
        }
    }

    /// The phase of the life cycle.
    pub fn phase(&self) -> (r: Phase)
        ensures
            r == self@.phase(),
    {
        if !self.configured {
            Phase::Unconfigured
        } else if self.renderer.is_some() && self.showing != Showing::Nothing {
            Phase::Steady
        } else {
            Phase::Configuring
        }
    }

    /// The transition engine, once the rendering context exists.
    pub fn renderer(&self) -> (r: Option<&TransitionEngine<T>>)
        ensures
            match r {
                Some(e) => self.engine_state() == Some(*e),
                None => self.engine_state() is None,
            },
    {
        match &self.renderer {
            Some(e) => Some(e),
            None => None,
        }
    }

    /// Logical size.
    pub fn size(&self) -> (r: (u32, u32))
        ensures
            r.0 == self@.width,
            r.1 == self@.height,
    {
        (self.width, self.height)
    }

    /// Device-pixel scale factor.
    pub fn scale_factor(&self) -> (r: i32)
        ensures
            r == self@.scale,
    {
        self.scale_factor
    }

    /// Size of the buffer in device pixels: logical size times scale.
    pub fn device_size(&self) -> (r: (u64, u64))
        requires
            self.wf(),
        ensures
            r.0 == self@.device_width(),
            r.1 == self@.device_height(),
    {
        (device_extent(self.width, self.scale_factor), device_extent(self.height, self.scale_factor))
    }

    /// Background mode from the settings, cover when unset.
    pub fn background_mode(&self) -> (r: BackgroundMode)
        ensures
            r == match self.config_view().mode {
                Some(m) => m,
                None => BackgroundMode::Cover,
            },
    {
        match self.config.mode {
            Some(m) => m,
            None => BackgroundMode::Cover,
        }
    }

    /// Where the initial wallpaper comes from: `None` when the settings name
    /// no path (the fallback color is shown), else the configured path with
    /// a leading `~` expanded by `home`. The path may name a file or a
    /// directory of images.
    pub fn initial_path_with(&self, home: &Option<String>) -> (r: Option<String>)
        ensures
            opt_chars(r) == if self.config_view().path@.len() == 0 {
                None
            } else {
                Some(expanded(self.config_view().path@, opt_chars(*home)))
            },
    {
        if self.config.path.as_str().is_empty() {
            None
        } else {
            Some(expand_path_with(self.config.path.as_str(), home))
        }
    }

    /// Where the initial wallpaper comes from, with `~` expanded by the
    /// current user's home directory.
    pub fn initial_path(&self) -> (r: Option<String>)
        ensures
            exists|home: Option<Seq<char>>|
                opt_chars(r) == if self.config_view().path@.len() == 0 {
                    None
                } else {
                    Some(expanded(self.config_view().path@, home))
                },
    {
        let home = home_dir();
        let r = self.initial_path_with(&home);
        assert(opt_chars(r) == if self.config_view().path@.len() == 0 {
            None
        } else {
            Some(expanded(self.config_view().path@, opt_chars(home)))
        });
        r
    }

    /// Handles a configure event suggesting `width` x `height` logical
    /// pixels; a zero component is replaced by the fallback size. Returns
    /// what the rendering context must do.
    pub fn configure(&mut self, width: u32, height: u32) -> (plan: ConfigurePlan)
        requires
            old(self).wf(),
        ensures
            final(self).wf(),
            final(self)@ == old(self)@.configure(width as nat, height as nat),
            plan == old(self)@.configure_plan(width as nat, height as nat),
            final(self).engine_state() == old(self).engine_state(),
            final(self).name_view() == old(self).name_view(),
            final(self).config_view() == old(self).config_view(),
    {
        let width = if width == 0 {
            FALLBACK_WIDTH
        } else {
            width
        };
        let height = if height == 0 {
            FALLBACK_HEIGHT
        } else {
            height
        };
        let size_changed = self.width != width || self.height != height;
        self.width = width;
        self.height = height;
        self.configured = true;
        let w = device_extent(width, self.scale_factor);
        let h = device_extent(height, self.scale_factor);
        if self.renderer.is_none() {
            ConfigurePlan::CreateContext { width: w, height: h }
        } else if size_changed {
            ConfigurePlan::Resize { width: w, height: h }
        } else {
            ConfigurePlan::Keep
        }
    }

    /// Records that the rendering context was created, and sets up the
    /// transition engine from the monitor's settings (fade over the default
    /// duration when unset).
    pub fn attach_renderer(&mut self)
        requires
            old(self).wf(),
            old(self)@.engine is None,
        ensures
            final(self).wf(),
            final(self)@ == old(self)@.attach(
                engine_kind(old(self).config_view()),
                engine_duration(old(self).config_view()),
            ),
            final(self).name_view() == old(self).name_view(),
            final(self).config_view() == old(self).config_view(),
    {
        let kind = match self.config.transition {
            Some(k) => k,
            None => TransitionType::Fade,
        };
        let duration = match self.config.transition_time {
            Some(t) => t,
            None => DEFAULT_TRANSITION_MS,
        };
        self.renderer = Some(TransitionEngine::new(kind, duration));
    }

    /// Handles a scale-factor event. An unchanged factor changes nothing.
    pub fn set_scale_factor(&mut self, factor: i32) -> (plan: ScalePlan)
        requires
            old(self).wf(),
            factor >= 1,
        ensures
            final(self).wf(),
            final(self)@ == old(self)@.rescale(factor as int),
            plan == old(self)@.scale_plan(factor as int),
            factor == old(self)@.scale ==> *final(self) == *old(self),
            final(self).engine_state() == old(self).engine_state(),
            final(self).name_view() == old(self).name_view(),
            final(self).config_view() == old(self).config_view(),
    {
        if factor == self.scale_factor {
            return ScalePlan::Unchanged;
        }
        self.scale_factor = factor;
        if self.configured && self.renderer.is_some() {
            ScalePlan::ResizeAndRedraw {
                width: device_extent(self.width, factor),
                height: device_extent(self.height, factor),
            }
        } else {
            ScalePlan::Redraw
        }
    }

    /// Starts a frame at time `now_ms` (milliseconds on a monotonic clock).
    /// Before the first configure nothing happens. Otherwise the frame clock
    /// moves to `now_ms`, and, when the rendering context exists, the result
    /// is the delta to advance the transition by: the time since the previous
    /// frame, or one 60 Hz frame for the first.
    pub fn start_frame(&mut self, now_ms: u64) -> (delta: Option<u32>)
        requires
            old(self).wf(),
        ensures
            final(self).wf(),
            !old(self)@.configured ==> *final(self) == *old(self) && delta is None,
            old(self)@.configured ==> final(self)@ == (SurfaceView {
                last_frame: Some(now_ms as nat),
                ..old(self)@
            }),
            old(self)@.configured ==> delta == if old(self)@.engine is Some {
                Some(old(self)@.frame_delta(now_ms as nat) as u32)
            } else {
                None
            },
            final(self).engine_state() == old(self).engine_state(),
            final(self).name_view() == old(self).name_view(),
            final(self).config_view() == old(self).config_view(),
    {
        if !self.configured {
            return None;
        }
        let delta: u32 = match self.last_frame_ms {
            Some(last) => if now_ms <= last {
                0
            } else if now_ms - last > u32::MAX as u64 {
                u32::MAX
            } else {
                (now_ms - last) as u32
            },
            None => FIRST_FRAME_MS,
        };
        self.last_frame_ms = Some(now_ms);
        if self.renderer.is_some() {
            Some(delta)
        } else {
            None
        }
    }

    /// Advances the transition by `delta_ms` and says how to present: the
    /// whole device-pixel buffer is damaged, and another frame callback is
    /// wanted only while the transition is still in progress. The rendering
    /// context must be current, since a finished transition releases the
    /// image it blended from.
    pub fn finish_frame(&mut self, delta_ms: u32) -> (plan: FramePlan)
        requires
            old(self).wf(),
            old(self)@.engine is Some,
        ensures
            final(self).wf(),
            final(self)@ == (SurfaceView {
                engine: Some(old(self)@.engine->0.advance(delta_ms as nat)),
                ..old(self)@
            }),
            plan == (FramePlan {
                damage_width: old(self)@.device_width() as u64,
                damage_height: old(self)@.device_height() as u64,
                request_frame: !final(self)@.engine->0.is_complete(),
            }),
            final(self).engine_state() matches Some(e) && {
                &&& e.current_image() == old(self).engine_state()->0.current_image()
                &&& e.previous_image() == if e@.holds_previous {
                    old(self).engine_state()->0.previous_image()
                } else {
                    None
                }
            },
            final(self).name_view() == old(self).name_view(),
            final(self).config_view() == old(self).config_view(),
    {
        let damage_width = device_extent(self.width, self.scale_factor);
        let damage_height = device_extent(self.height, self.scale_factor);
        let mut animating = false;
        if let Some(engine) = &mut self.renderer {
            animating = engine.advance(delta_ms);
        }
        FramePlan { damage_width, damage_height, request_frame: animating }
    }

    /// Installs an uploaded image loaded from `path`. Without a rendering
    /// context the image is dropped and nothing changes. Returns whether a
    /// redraw is needed, which is whenever the image was installed.
    pub fn load_wallpaper(&mut self, image: T, path: String) -> (needs_redraw: bool)
        requires
            old(self).wf(),
        ensures
            final(self).wf(),
            needs_redraw == old(self)@.engine is Some,
            final(self)@ == old(self)@.load_image(path@),
            !needs_redraw ==> *final(self) == *old(self),
            needs_redraw ==> (final(self).engine_state() matches Some(e) && {
                &&& e.current_image() == Some(image)
                &&& e.previous_image() == if e@.holds_previous {
                    old(self).engine_state()->0.current_image()
                } else {
                    None
                }
            }),
            final(self).name_view() == old(self).name_view(),
            final(self).config_view() == old(self).config_view(),
    {
        if let Some(engine) = &mut self.renderer {
            engine.load(image);
        } else {
            return false;
        }
        self.current_wallpaper_path = Some(path);
        self.showing = Showing::Image;
        true
    }

    /// Whether the solid fallback must be shown: the context exists and no
    /// picture was ever installed.
    pub fn needs_fallback(&self) -> (r: bool)
        ensures
            r == self@.needs_fallback(),
    {
        self.renderer.is_some() && self.showing == Showing::Nothing
    }

    /// Installs the solid fallback color, uploaded as `image`. Without a
    /// rendering context nothing changes. Returns whether it was installed.
    pub fn show_fallback(&mut self, image: T) -> (installed: bool)
        requires
            old(self).wf(),
        ensures
            final(self).wf(),
            installed == old(self)@.engine is Some,
            final(self)@ == old(self)@.show_fallback(),
            !installed ==> *final(self) == *old(self),
            installed ==> (final(self).engine_state() matches Some(e) && e.current_image()
                == Some(image) && e.previous_image() is None),
            final(self).name_view() == old(self).name_view(),
            final(self).config_view() == old(self).config_view(),
    {
        if let Some(engine) = &mut self.renderer {
            engine.show_solid(image);
        } else {
            return false;
        }
        self.showing = Showing::Fallback;
        true
    }
}

/// The solid fallback color, red, green and blue.
pub fn fallback_color() -> (r: (u8, u8, u8))
    ensures
        r == (FALLBACK_RED, FALLBACK_GREEN, FALLBACK_BLUE),
{
    (FALLBACK_RED, FALLBACK_GREEN, FALLBACK_BLUE)
}

/// A configure event with the size already in effect, once the context
/// exists, changes nothing and asks nothing of the context; a scale event
/// with the factor already in effect changes nothing and asks for no redraw.
pub proof fn lemma_unchanged_geometry_is_noop(v: SurfaceView, width: nat, height: nat, factor: int)
    requires
        v.wf(),
        v.configured,
        v.engine is Some,
        clamp_size(width, FALLBACK_WIDTH as nat) == v.width,
        clamp_size(height, FALLBACK_HEIGHT as nat) == v.height,
        factor == v.scale,
    ensures
        v.configure(width, height) == v,
        v.configure_plan(width, height) == ConfigurePlan::Keep,
        v.rescale(factor) == v,
        v.scale_plan(factor) == ScalePlan::Unchanged,
{
}

/// A configure event suggesting zero by zero is served at the fallback size,
/// never at zero.
pub proof fn lemma_zero_size_uses_fallback(v: SurfaceView)
    requires
        v.wf(),
    ensures
        v.configure(0, 0).width == FALLBACK_WIDTH,
        v.configure(0, 0).height == FALLBACK_HEIGHT,
        v.configure(0, 0).device_width() >= FALLBACK_WIDTH,
        v.configure(0, 0).device_height() >= FALLBACK_HEIGHT,
        v.engine is None ==> v.configure_plan(0, 0) == (ConfigurePlan::CreateContext {
            width: v.configure(0, 0).device_width() as u64,
            height: v.configure(0, 0).device_height() as u64,
        }),
{
    assert(FALLBACK_WIDTH * v.scale >= FALLBACK_WIDTH) by (nonlinear_arith)
        requires
            v.scale >= 1,
    ;
    assert(FALLBACK_HEIGHT * v.scale >= FALLBACK_HEIGHT) by (nonlinear_arith)
        requires
            v.scale >= 1,
    ;
}

/// On a surface's first configure, when no initial image can be loaded, the
/// surface still reaches the steady phase, presenting the fallback color.
pub proof fn lemma_failed_initial_load_falls_back(
    v: SurfaceView,
    width: nat,
    height: nat,
    kind: TransitionType,
    duration: nat,
)
    requires
        v.wf(),
        v.phase() == Phase::Unconfigured,
        v.engine is None,
    ensures
        v.configure(width, height).attach(kind, duration).needs_fallback(),
        v.configure(width, height).attach(kind, duration).show_fallback().phase() == Phase::Steady,
        v.configure(width, height).attach(kind, duration).show_fallback().showing
            == Showing::Fallback,
        v.configure(width, height).attach(kind, duration).show_fallback().engine->0.is_complete(),
{
}

} // verus!
