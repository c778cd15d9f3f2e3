//! The transition engine: the current and superseded images of one output
//! and the progress of the blend between them, as a function of elapsed time.

use crate::config::TransitionType;
use vstd::prelude::*;

verus! {

/// What the engine holds, as mathematical values. Progress is the fraction
/// `elapsed / span()`.
pub struct TransitionView {
    pub kind: TransitionType,
    pub duration: nat,
    pub elapsed: nat,
    /// An image is installed in the current slot.
    pub loaded: bool,
    /// The superseded image is still held, to blend from.
    pub holds_previous: bool,
}

impl TransitionView {
    /// Denominator of the progress fraction; a zero duration counts as one
    /// step, so that the next advance completes it.
    pub open spec fn span(self) -> nat {
        if self.duration == 0 {
            1
        } else {
            self.duration
        }
    }

    /// Progress has reached one.
    pub open spec fn is_complete(self) -> bool {
        self.elapsed >= self.span()
    }

    /// Progress is at most one, and the superseded image is held exactly
    /// while a blend is in progress.
    pub open spec fn wf(self) -> bool {
        &&& self.elapsed <= self.span()
        &&& self.holds_previous == !self.is_complete()
        &&& self.holds_previous ==> self.loaded
    }

    /// A new image arrives: it blends in from the current one, unless there
    /// is none or the kind is an instant cut.
    pub open spec fn load(self) -> Self {
        if self.loaded && self.kind != TransitionType::Instant {
            TransitionView { elapsed: 0, loaded: true, holds_previous: true, ..self }
        } else {
            TransitionView { elapsed: self.span(), loaded: true, holds_previous: false, ..self }
        }
    }

    /// A solid color replaces everything at once.
    pub open spec fn show_solid(self) -> Self {
        TransitionView { elapsed: self.span(), loaded: true, holds_previous: false, ..self }
    }

    /// `delta` milliseconds pass. Progress grows by `delta / duration`, is
    /// clamped at one, and the superseded image is let go at one.
    pub open spec fn advance(self, delta: nat) -> Self {
        if self.is_complete() {
            self
        } else {
            let elapsed = if self.duration == 0 {
                1
            } else if self.elapsed + delta >= self.duration {
                self.duration
            } else {
                self.elapsed + delta
            };
            TransitionView { elapsed, holds_previous: elapsed < self.span(), ..self }
        }
    }

    /// The state after each delta of `deltas` has passed, in order.
    pub open spec fn run(self, deltas: Seq<nat>) -> Self
        decreases deltas.len(),
    {
        if deltas.len() == 0 {
            self
        } else {
            self.run(deltas.drop_last()).advance(deltas.last())
        }
    }
}

/// Sum of a sequence of durations.
pub open spec fn total(deltas: Seq<nat>) -> nat
    decreases deltas.len(),
{
    if deltas.len() == 0 {
        0
    } else {
        total(deltas.drop_last()) + deltas.last()
    }
}


/// Elapsed time from a fresh start is the sum of the deltas, clamped at the
/// duration.
proof fn lemma_run_from_zero(m: TransitionView, deltas: Seq<nat>)
    requires
        m.wf(),
        m.duration > 0,
        m.elapsed == 0,
    ensures
        m.run(deltas).wf(),
        m.run(deltas).kind == m.kind,
        m.run(deltas).duration == m.duration,
        m.run(deltas).elapsed == if total(deltas) >= m.duration {
            m.duration
        } else {
            total(deltas)
        },
    decreases deltas.len(),
{
    if deltas.len() > 0 {
        lemma_run_from_zero(m, deltas.drop_last());
    }
}

/// When a second image is loaded over a first one on an animated kind,
/// progress restarts at zero; as time then passes, progress never decreases,
/// never exceeds one, and is exactly one once the elapsed time adds up to the
/// duration, and not before.
pub proof fn lemma_second_load_progress(m: TransitionView, deltas: Seq<nat>)
    requires
        m.wf(),
        m.kind != TransitionType::Instant,
        m.duration > 0,
    ensures
        m.load().load().elapsed == 0,
        forall|k: int|
            0 <= k < deltas.len() ==> #[trigger] m.load().load().run(deltas.take(k)).elapsed
                <= m.load().load().run(deltas.take(k + 1)).elapsed,
        forall|k: int|
            0 <= k <= deltas.len() ==> #[trigger] m.load().load().run(deltas.take(k)).elapsed
                <= m.load().load().run(deltas.take(k)).span(),
        forall|k: int|
            0 <= k <= deltas.len() ==> (#[trigger] m.load().load().run(
                deltas.take(k),
            ).is_complete() <==> total(deltas.take(k)) >= m.duration),
{
    let s = m.load().load();
    assert forall|k: int| 0 <= k < deltas.len() implies #[trigger] s.run(deltas.take(k)).elapsed
        <= s.run(deltas.take(k + 1)).elapsed by {
        lemma_run_from_zero(s, deltas.take(k));
        lemma_run_from_zero(s, deltas.take(k + 1));
        assert(deltas.take(k + 1).drop_last() =~= deltas.take(k));
    }
    assert forall|k: int| 0 <= k <= deltas.len() implies #[trigger] s.run(deltas.take(k)).elapsed
        <= s.run(deltas.take(k)).span() by {
        lemma_run_from_zero(s, deltas.take(k));
    }
    assert forall|k: int| 0 <= k <= deltas.len() implies (#[trigger] s.run(
        deltas.take(k),
    ).is_complete() <==> total(deltas.take(k)) >= m.duration) by {
        lemma_run_from_zero(s, deltas.take(k));
    }
}

/// Once progress is one, advancing changes nothing, so nothing more is
/// released, and the engine reports that it is not animating.
pub proof fn lemma_advance_after_completion(m: TransitionView, delta: nat)
    requires
        m.wf(),
        m.is_complete(),
    ensures
        m.advance(delta) == m,
        m.advance(delta).is_complete(),
{
}

/// Loading with the instant kind always ends with progress one and nothing
/// left to blend from, whatever the state before.
pub proof fn lemma_instant_load_completes(m: TransitionView)
    requires
        m.wf(),
        m.kind == TransitionType::Instant,
    ensures
        m.load().is_complete(),
        !m.load().holds_previous,
        m.load().wf(),
{
}

/// The first image ever loaded is shown at once, without a blend.
pub proof fn lemma_first_load_completes(m: TransitionView)
    requires
        m.wf(),
        !m.loaded,
    ensures
        m.load().is_complete(),
        !m.load().holds_previous,
{
}

/// Integer code of a transition kind for the blend shader: fades share one
/// formula, slides and wipes another.
pub open spec fn selector_of(kind: TransitionType) -> i32 {
    match kind {
        TransitionType::Instant => 0,
        TransitionType::Fade => 1,
        TransitionType::Slide => 2,
        TransitionType::Wipe => 2,
        TransitionType::Crossfade => 1,
    }
}

/// Blend-formula selector for the shader.
pub fn blend_selector(kind: TransitionType) -> (r: i32)
    ensures
        r == selector_of(kind),
{
    match kind {
        TransitionType::Instant => 0,
        TransitionType::Fade => 1,
        TransitionType::Slide => 2,
        TransitionType::Wipe => 2,
        TransitionType::Crossfade => 1,
    }
}

/// The current and previous image of one output, and the blend between them.
/// `T` is the handle of an uploaded image; dropping it releases the image.
pub struct TransitionEngine<T> {
    kind: TransitionType,
    duration_ms: u32,
    elapsed_ms: u32,
    current: Option<T>,
    previous: Option<T>,
}

impl<T> View for TransitionEngine<T> {
    type V = TransitionView;

    closed spec fn view(&self) -> TransitionView {
        TransitionView {
            kind: self.kind,
            duration: self.duration_ms as nat,
            elapsed: self.elapsed_ms as nat,
            loaded: self.current is Some,
            holds_previous: self.previous is Some,
        }
    }
}

impl<T> TransitionEngine<T> {
    /// The engine's model is well formed.
    pub open spec fn wf(&self) -> bool {
        self@.wf()
    }

    /// The image in the current slot.
    pub closed spec fn current_image(&self) -> Option<T> {
        self.current
    }

    /// The superseded image still being blended from.
    pub closed spec fn previous_image(&self) -> Option<T> {
        self.previous
    }

    /// Ties the model to the image slots: an image is loaded exactly when the
    /// current slot is full, and the superseded image is held exactly when
    /// the previous slot is full.
    pub proof fn lemma_slots(&self)
        ensures
            self@.loaded == (self.current_image() is Some),
            self@.holds_previous == (self.previous_image() is Some),
    {
    }

    /// An engine with no image and nothing in progress.
    pub fn new(kind: TransitionType, duration_ms: u32) -> (r: Self)
        ensures
            r.wf(),
            r@.kind == kind,
            r@.duration == duration_ms,
            r@.is_complete(),
            !r@.loaded,
            !r@.holds_previous,
    {
        let elapsed_ms = if duration_ms == 0 {
            1
        } else {
            duration_ms
        };
        TransitionEngine { kind, duration_ms, elapsed_ms, current: None, previous: None }
    }

    /// The transition kind.
    pub fn kind(&self) -> (r: TransitionType)
        ensures
            r == self@.kind,
    {
        self.kind
    }

    fn span_ms(&self) -> (r: u32)
        ensures
            r == self@.span(),
    {
        if self.duration_ms == 0 {
            1
        } else {
            self.duration_ms
        }
    }

    /// Installs a new image. It blends in from the current one, with
    /// progress reset to zero, unless there was no image or the kind is an
    /// instant cut; then progress is one at once. Any image that was still
    /// being blended from is released.
    pub fn load(&mut self, image: T)
        requires
            old(self).wf(),
        ensures
            final(self).wf(),
            final(self)@ == old(self)@.load(),
            final(self).current_image() == Some(image),
            final(self).previous_image() == if final(self)@.holds_previous {
                old(self).current_image()
            } else {
                None
            },
    {
        if self.current.is_some() && self.kind != TransitionType::Instant {
            let mut slot: Option<T> = Some(image);
            std::mem::swap(&mut slot, &mut self.current);
            self.previous = slot;
            self.elapsed_ms = 0;
        } else {
            self.current = Some(image);
            self.previous = None;
            self.elapsed_ms = self.span_ms();
        }
    }

    /// Shows a solid-color image at once, dropping any blend in progress.
    pub fn show_solid(&mut self, image: T)
        requires
            old(self).wf(),
        ensures
            final(self).wf(),
            final(self)@ == old(self)@.show_solid(),
            final(self).current_image() == Some(image),
            final(self).previous_image() is None,
    {
        self.current = Some(image);
        self.previous = None;
        self.elapsed_ms = self.span_ms();
    }

    /// Lets `delta_ms` pass. Returns whether the blend is still in progress
    /// afterwards. Once progress is one, this changes nothing and returns
    /// false.
    pub fn advance(&mut self, delta_ms: u32) -> (animating: bool)
        requires
            old(self).wf(),
        ensures
            final(self).wf(),
            final(self)@ == old(self)@.advance(delta_ms as nat),
            animating == !final(self)@.is_complete(),
            old(self)@.is_complete() ==> *final(self) == *old(self),
            final(self).current_image() == old(self).current_image(),
            final(self).previous_image() == if final(self)@.holds_previous {
                old(self).previous_image()
            } else {
                None
            },
    {
        let span = self.span_ms();
        if self.elapsed_ms >= span {
            return false;
        }
        let elapsed: u32 = if self.duration_ms == 0 {
            1
        } else if self.elapsed_ms as u64 + delta_ms as u64 >= self.duration_ms as u64 {
            self.duration_ms
        } else {
            self.elapsed_ms + delta_ms
        };
        self.elapsed_ms = elapsed;
        if elapsed >= span {
            self.previous = None;
        }
        elapsed < span
    }

    /// Whether a blend is in progress.
    pub fn is_transitioning(&self) -> (r: bool)
        requires
            self.wf(),
        ensures
            r == !self@.is_complete(),
    {
        self.elapsed_ms < self.span_ms()
    }

    /// Progress as a fraction `(numerator, denominator)`, with a positive
    /// denominator; this is the blend factor handed to the shader.
    pub fn progress(&self) -> (r: (u32, u32))
        requires
            self.wf(),
        ensures
            r.0 == self@.elapsed,
            r.1 == self@.span(),
            r.1 > 0,
            r.0 <= r.1,
    {
        (self.elapsed_ms, self.span_ms())
    }

    /// The current image.
    pub fn current(&self) -> (r: Option<&T>)
        ensures
            match r {
                Some(t) => self.current_image() == Some(*t),
                None => self.current_image() is None,
            },
    {
        match &self.current {
            Some(t) => Some(t),
            None => None,
        }
    }

    /// The image being blended from, while a blend is in progress.
    pub fn previous(&self) -> (r: Option<&T>)
        ensures
            match r {
                Some(t) => self.previous_image() == Some(*t),
                None => self.previous_image() is None,
            },
    {
        match &self.previous {
            Some(t) => Some(t),
            None => None,
        }
    }
}

} // verus!
