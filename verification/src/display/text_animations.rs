//! Animations of a text row: none, blinking, or sliding sideways. An animation
//! advances by one step each time the animation timer ticks.

use vstd::prelude::*;

verus! {

/// A slide is never shorter than this many pixels.
pub const MIN_SLIDE_LENGTH: usize = 80;

/// Largest slide length for which the offset arithmetic stays inside `i32`.
pub const MAX_SLIDE_LENGTH: usize = 2_147_483_636;

/// How far beyond the slide length a right slide starts again, so that the
/// text pauses out of sight before it re-enters.
pub const RIGHT_SLIDE_GAP: i32 = 10;

/// What an animation asks of the renderer for the current step.
#[derive(Debug, Clone, Copy, PartialEq, Eq, Structural)]
pub struct AnimationState {
    pub x_offset: i32,
    pub y_offset: i32,
    pub visible: bool,
}

#[derive(Debug, Clone, Copy, PartialEq, Eq, Structural)]
pub enum SlideDirection {
    Left,
    Right,
}

/// Text that moves one pixel sideways every `tempo` ticks and starts again
/// from the other side once it has left the slide length behind.
#[derive(Debug, Clone, Copy)]
pub struct SlideAnimation {
    pub slide_length: usize,
    pub direction: SlideDirection,
    /// Ticks between moving one pixel.
    pub tempo: i32,
    /// Where the text stands, in pixels from the left edge.
    pub x_offset: i32,
    /// Ticks counted since the last move.
    pub counter: i32,
}

/// Mathematical model of a slide animation.
pub struct SlideView {
    pub slide_length: int,
    pub direction: SlideDirection,
    pub tempo: int,
    pub x_offset: int,
    pub counter: int,
}

impl SlideView {
    /// The state that the arithmetic of a tick can work on.
    pub open spec fn wf(self) -> bool {
        &&& 0 <= self.slide_length <= MAX_SLIDE_LENGTH
        &&& -(MAX_SLIDE_LENGTH as int) - RIGHT_SLIDE_GAP <= self.x_offset <= MAX_SLIDE_LENGTH
        &&& 0 <= self.counter < i32::MAX
        &&& i32::MIN <= self.tempo <= i32::MAX
    }

    /// Ticks that pass between two moves: a tempo below one moves on every tick.
    pub open spec fn ticks_per_step(self) -> int {
        if self.tempo < 1 {
            1
        } else {
            self.tempo
        }
    }

    /// The offset one move further, wrapped around at the end of the slide.
    pub open spec fn moved(self) -> int {
        match self.direction {
            SlideDirection::Right => if self.x_offset + 1 > self.slide_length {
                -self.slide_length - RIGHT_SLIDE_GAP
            } else {
                self.x_offset + 1
            },
            SlideDirection::Left => if self.x_offset - 1 < -self.slide_length || self.x_offset - 1
                > self.slide_length {
                self.slide_length
            } else {
                self.x_offset - 1
            },
        }
    }

    /// One tick of the animation timer.
    pub open spec fn tick(self) -> SlideView {
        if self.counter + 1 >= self.tempo {
            SlideView { counter: 0, x_offset: self.moved(), ..self }
        } else {
            SlideView { counter: self.counter + 1, ..self }
        }
    }

    /// `n` ticks of the animation timer.
    pub open spec fn ticks(self, n: nat) -> SlideView
        decreases n,
    {
        if n == 0 {
            self
        } else {
            self.tick().ticks((n - 1) as nat)
        }
    }

    /// The animation one move further, with the tick count as it is.
    pub open spec fn step(self) -> SlideView {
        SlideView { x_offset: self.moved(), ..self }
    }

    /// The animation `n` moves further.
    pub open spec fn steps(self, n: nat) -> SlideView
        decreases n,
    {
        if n == 0 {
            self
        } else {
            self.step().steps((n - 1) as nat)
        }
    }

    /// The animation is on its cycle: the offset lies between the two ends of
    /// the slide, and the tick count below the ticks of one move.
    pub open spec fn on_cycle(self) -> bool {
        &&& 0 <= self.counter < self.ticks_per_step()
        &&& match self.direction {
            SlideDirection::Left => -self.slide_length <= self.x_offset <= self.slide_length,
            SlideDirection::Right => -self.slide_length - RIGHT_SLIDE_GAP <= self.x_offset
                <= self.slide_length,
        }
    }

    /// Number of moves after which the offset is the same again: a left slide
    /// visits every offset from `slide_length` down to `-slide_length`, a
    /// right slide every offset from `-slide_length - 10` up to `slide_length`.
    pub open spec fn moves_per_cycle(self) -> nat {
        match self.direction {
            SlideDirection::Left => (2 * self.slide_length + 1) as nat,
            SlideDirection::Right => (2 * self.slide_length + 1 + RIGHT_SLIDE_GAP) as nat,
        }
    }

    /// The same animation with a new slide length, which is at least the minimum.
    pub open spec fn with_length(self, length: int) -> SlideView {
        SlideView {
            slide_length: if length < MIN_SLIDE_LENGTH {
                MIN_SLIDE_LENGTH as int
            } else {
                length
            },
            ..self
        }
    }
}

impl View for SlideAnimation {
    type V = SlideView;

    open spec fn view(&self) -> SlideView {
        SlideView {
            slide_length: self.slide_length as int,
            direction: self.direction,
            tempo: self.tempo as int,
            x_offset: self.x_offset as int,
            counter: self.counter as int,
        }
    }
}

impl SlideAnimation {
    pub open spec fn wf(&self) -> bool {
        self@.wf()
    }

    /// A slide at offset zero. Its length is zero until `set_length` is called.
    pub fn new(tempo: i32, direction: SlideDirection) -> (anim: Self)
        ensures
            anim@ == (SlideView {
                slide_length: 0,
                direction,
                tempo: tempo as int,
                x_offset: 0,
                counter: 0,
            }),
            anim.wf(),
            anim.slide_length == 0,
            anim.direction == direction,
            anim.tempo == tempo,
    {
        SlideAnimation { x_offset: 0, counter: 0, tempo, slide_length: 0, direction }
    }

    /// Counts one tick, and moves the text by one pixel when `tempo` ticks have
    /// passed. Moving right past `slide_length` starts again at
    /// `-slide_length - 10`; moving left past `-slide_length` starts again at
    /// `slide_length`.
    pub fn tick(&mut self)
        requires
            old(self).wf(),
        ensures
            final(self)@ == old(self)@.tick(),
            final(self).wf(),
            final(self).slide_length == old(self).slide_length,
            final(self).direction == old(self).direction,
            final(self).tempo == old(self).tempo,
    {
        self.counter = self.counter + 1;
        if self.counter >= self.tempo {
            self.counter = 0;
            let length: i32 = self.slide_length as i32;
            match self.direction {
                SlideDirection::Right => {
                    self.x_offset = self.x_offset + 1;
                    if self.x_offset > length {
                        self.x_offset = -length - RIGHT_SLIDE_GAP;
                    }
                },
                SlideDirection::Left => {
                    self.x_offset = self.x_offset - 1;
                    if self.x_offset < -length || self.x_offset > length {
                        self.x_offset = length;
                    }
                },
            }
        }
    }

    /// Sets the slide length, raising it to the minimum of 80 pixels.
    pub fn set_length(&mut self, length: usize)
        requires
            old(self).wf(),
            length <= MAX_SLIDE_LENGTH,
        ensures
            final(self)@ == old(self)@.with_length(length as int),
            final(self).wf(),
            final(self).slide_length == if length < MIN_SLIDE_LENGTH {
                MIN_SLIDE_LENGTH
            } else {
                length
            },
            final(self).direction == old(self).direction,
            final(self).tempo == old(self).tempo,
    {
        let mut length = length;
        if length < MIN_SLIDE_LENGTH {
            length = MIN_SLIDE_LENGTH;
        }
        self.slide_length = length;
    }

    /// The current offset; a sliding text is always visible.
    pub fn get(&mut self) -> (state: AnimationState)
        ensures
            *final(self) == *old(self),
            state == (AnimationState {
                x_offset: old(self)@.x_offset as i32,
                y_offset: 0,
                visible: true,
            }),
            state.x_offset == old(self)@.x_offset,
    {
        AnimationState { x_offset: self.x_offset, y_offset: 0, visible: true }
    }
}

/// Text that is shown and hidden in turn, changing every `tempo` ticks.
#[derive(Debug, Clone, Copy)]
pub struct BlinkingAnimation {
    visible: bool,
    /// Ticks between changing state.
    tempo: i32,
    counter: i32,
}

/// Mathematical model of a blinking animation.
pub struct BlinkView {
    pub visible: bool,
    pub tempo: int,
    pub counter: int,
}

impl BlinkView {
    pub open spec fn wf(self) -> bool {
        &&& 0 <= self.counter < i32::MAX
        &&& i32::MIN <= self.tempo <= i32::MAX
    }

    /// One tick of the animation timer.
    pub open spec fn tick(self) -> BlinkView {
        if self.counter + 1 >= self.tempo {
            BlinkView { counter: 0, visible: !self.visible, ..self }
        } else {
            BlinkView { counter: self.counter + 1, ..self }
        }
    }
}

impl View for BlinkingAnimation {
    type V = BlinkView;

    closed spec fn view(&self) -> BlinkView {
        BlinkView {
            visible: self.visible,
            tempo: self.tempo as int,
            counter: self.counter as int,
        }
    }
}

impl BlinkingAnimation {
    pub open spec fn wf(&self) -> bool {
        self@.wf()
    }

    /// A visible text that has counted no tick yet.
    pub fn new(tempo: i32) -> (anim: Self)
        ensures
            anim@ == (BlinkView { visible: true, tempo: tempo as int, counter: 0 }),
            anim.wf(),
    {
        BlinkingAnimation { counter: 0, tempo, visible: true }
    }

    /// Counts one tick, and flips the visibility when `tempo` ticks have passed.
    pub fn tick(&mut self)
        requires
            old(self).wf(),
        ensures
            final(self)@ == old(self)@.tick(),
            final(self).wf(),
    {
        self.counter = self.counter + 1;
        if self.counter >= self.tempo {
            self.counter = 0;
            self.visible = !self.visible;
        }
    }

    /// Whether the text is shown in the current step; a blinking text does not move.
    pub fn get(&mut self) -> (state: AnimationState)
        ensures
            *final(self) == *old(self),
            state == (AnimationState { x_offset: 0, y_offset: 0, visible: old(self)@.visible }),
    {
        AnimationState { visible: self.visible, x_offset: 0, y_offset: 0 }
    }
}

/// The animation of one text row.
#[derive(Debug, Clone, Copy)]
pub enum TextAnimation {
    NoAnimation,
    SlideAnimation(SlideAnimation),
    BlinkingAnimation(BlinkingAnimation),
}

/// Mathematical model of a row's animation.
pub enum TextAnimationView {
    NoAnimation,
    Slide(SlideView),
    Blink(BlinkView),
}

impl TextAnimationView {
    pub open spec fn wf(self) -> bool {
        match self {
            TextAnimationView::NoAnimation => true,
            TextAnimationView::Slide(slide) => slide.wf(),
            TextAnimationView::Blink(blink) => blink.wf(),
        }
    }

    /// One tick of the animation timer.
    pub open spec fn tick(self) -> TextAnimationView {
        match self {
            TextAnimationView::NoAnimation => TextAnimationView::NoAnimation,
            TextAnimationView::Slide(slide) => TextAnimationView::Slide(slide.tick()),
            TextAnimationView::Blink(blink) => TextAnimationView::Blink(blink.tick()),
        }
    }

    /// What the renderer is asked for: a row without animation stands still
    /// and is visible.
    pub open spec fn state(self) -> AnimationState {
        match self {
            TextAnimationView::NoAnimation => AnimationState {
                x_offset: 0,
                y_offset: 0,
                visible: true,
            },
            TextAnimationView::Slide(slide) => AnimationState {
                x_offset: slide.x_offset as i32,
                y_offset: 0,
                visible: true,
            },
            TextAnimationView::Blink(blink) => AnimationState {
                x_offset: 0,
                y_offset: 0,
                visible: blink.visible,
            },
        }
    }
}

/// A tick keeps an animation well-formed.
pub proof fn lemma_tick_keeps_wf(animation: TextAnimationView)
    requires
        animation.wf(),
    ensures
        animation.tick().wf(),
{
}

impl View for TextAnimation {
    type V = TextAnimationView;

    open spec fn view(&self) -> TextAnimationView {
        match self {
            TextAnimation::NoAnimation => TextAnimationView::NoAnimation,
            TextAnimation::SlideAnimation(slide) => TextAnimationView::Slide(slide@),
            TextAnimation::BlinkingAnimation(blink) => TextAnimationView::Blink(blink@),
        }
    }
}

impl TextAnimation {
    pub open spec fn wf(&self) -> bool {
        self@.wf()
    }

    /// Advances the animation by one tick.
    pub fn tick(&mut self)
        requires
            old(self).wf(),
        ensures
            final(self)@ == old(self)@.tick(),
            final(self).wf(),
    {
        match self {
            TextAnimation::SlideAnimation(anim) => anim.tick(),
            TextAnimation::BlinkingAnimation(anim) => anim.tick(),
            _ => {},
        }
    }

    /// Offset and visibility for the current step.
    pub fn get(&mut self) -> (state: AnimationState)
        ensures
            *final(self) == *old(self),
            state == old(self)@.state(),
    {
        match self {
            TextAnimation::SlideAnimation(anim) => anim.get(),
            TextAnimation::BlinkingAnimation(anim) => anim.get(),
            _ => AnimationState { x_offset: 0, y_offset: 0, visible: true },
        }
    }
}

/// Ticking `a + b` times is ticking `a` times and then `b` times.
pub proof fn lemma_ticks_concat(slide: SlideView, a: nat, b: nat)
    ensures
        slide.ticks(a + b) == slide.ticks(a).ticks(b),
    decreases a,
{
    if a > 0 {
        lemma_ticks_concat(slide.tick(), (a - 1) as nat, b);
    }
}

/// Moving `a + b` times is moving `a` times and then `b` times.
pub proof fn lemma_steps_concat(slide: SlideView, a: nat, b: nat)
    ensures
        slide.steps(a + b) == slide.steps(a).steps(b),
    decreases a,
{
    if a > 0 {
        lemma_steps_concat(slide.step(), (a - 1) as nat, b);
    }
}

/// Ticks that do not complete a move only count.
proof fn lemma_count_up(slide: SlideView, k: nat)
    requires
        0 <= slide.counter,
        slide.counter + k < slide.ticks_per_step(),
    ensures
        slide.ticks(k) == (SlideView { counter: slide.counter + k, ..slide }),
    decreases k,
{
    if k > 0 {
        lemma_count_up(slide.tick(), (k - 1) as nat);
    }
}

/// After as many ticks as one move takes, the text has moved once and the
/// tick count is the same again.
proof fn lemma_ticks_of_one_move(slide: SlideView)
    requires
        0 <= slide.counter < slide.ticks_per_step(),
    ensures
        slide.ticks(slide.ticks_per_step() as nat) == slide.step(),
{
    let per_step = slide.ticks_per_step();
    let up = (per_step - 1 - slide.counter) as nat;
    let down = slide.counter as nat;
    lemma_count_up(slide, up);
    let top = slide.ticks(up);
    let moved = top.tick();
    assert(moved == (SlideView { counter: 0, ..slide.step() }));
    lemma_count_up(moved, down);
    lemma_ticks_concat(slide, up, 1 + down);
    lemma_ticks_concat(top, 1, down);
    assert(top.ticks(1) == moved) by {
        assert(top.tick().ticks(0) == top.tick());
    }
    assert(up + (1 + down) == per_step);
}

/// After the ticks of `n` moves, the text has moved `n` times.
proof fn lemma_ticks_of_moves(slide: SlideView, n: nat)
    requires
        0 <= slide.counter < slide.ticks_per_step(),
    ensures
        slide.ticks((n * slide.ticks_per_step()) as nat) == slide.steps(n),
    decreases n,
{
    let per_step = slide.ticks_per_step();
    if n > 0 {
        lemma_ticks_of_one_move(slide);
        lemma_ticks_of_moves(slide.step(), (n - 1) as nat);
        lemma_ticks_concat(slide, per_step as nat, ((n - 1) * per_step) as nat);
        assert(per_step + (n - 1) * per_step == n * per_step) by (nonlinear_arith);
    } else {
        assert(0 * per_step == 0) by (nonlinear_arith);
    }
}

/// A left slide that stays above the left end moves one pixel left each time.
proof fn lemma_moves_left(slide: SlideView, k: nat)
    requires
        slide.direction == SlideDirection::Left,
        slide.slide_length >= 0,
        -slide.slide_length <= slide.x_offset - k,
        slide.x_offset <= slide.slide_length,
    ensures
        slide.steps(k) == (SlideView { x_offset: slide.x_offset - k, ..slide }),
    decreases k,
{
    if k > 0 {
        lemma_moves_left(slide.step(), (k - 1) as nat);
    }
}

/// A right slide that stays below the right end moves one pixel right each time.
proof fn lemma_moves_right(slide: SlideView, k: nat)
    requires
        slide.direction == SlideDirection::Right,
        slide.x_offset + k <= slide.slide_length,
    ensures
        slide.steps(k) == (SlideView { x_offset: slide.x_offset + k, ..slide }),
    decreases k,
{
    if k > 0 {
        lemma_moves_right(slide.step(), (k - 1) as nat);
    }
}

/// After the moves of one cycle the offset is the same again.
proof fn lemma_moves_of_one_cycle(slide: SlideView)
    requires
        slide.slide_length >= 0,
        slide.on_cycle(),
    ensures
        slide.steps(slide.moves_per_cycle()) == slide,
{
    let length = slide.slide_length;
    let x = slide.x_offset;
    match slide.direction {
        SlideDirection::Left => {
            let down = (x + length) as nat;
            let back = (length - x) as nat;
            lemma_moves_left(slide, down);
            let low = slide.steps(down);
            let high = low.step();
            assert(high == (SlideView { x_offset: length, ..slide }));
            lemma_moves_left(high, back);
            lemma_steps_concat(slide, down, 1 + back);
            lemma_steps_concat(low, 1, back);
            assert(low.steps(1) == high) by {
                assert(low.step().steps(0) == low.step());
            }
            assert(down + (1 + back) == slide.moves_per_cycle());
        },
        SlideDirection::Right => {
            let up = (length - x) as nat;
            let back = (x + length + RIGHT_SLIDE_GAP) as nat;
            lemma_moves_right(slide, up);
            let high = slide.steps(up);
            let low = high.step();
            assert(low == (SlideView { x_offset: -length - RIGHT_SLIDE_GAP, ..slide }));
            lemma_moves_right(low, back);
            lemma_steps_concat(slide, up, 1 + back);
            lemma_steps_concat(high, 1, back);
            assert(high.steps(1) == low) by {
                assert(high.step().steps(0) == high.step());
            }
            assert(up + (1 + back) == slide.moves_per_cycle());
        },
    }
}

/// A slide animation is periodic. A left slide visits the `2 * slide_length
/// + 1` offsets from `slide_length` down to `-slide_length`, each for as many
/// ticks as one move takes, so after `(2 * slide_length + 1) * tempo` ticks it
/// is in the same state again, offset and tick count. A right slide takes ten
/// moves more, for the gap it leaves before the text re-enters. A tempo below
/// one counts as one.
pub proof fn lemma_slide_period(slide: SlideView)
    requires
        slide.slide_length >= 0,
        slide.on_cycle(),
    ensures
        slide.ticks((slide.moves_per_cycle() * slide.ticks_per_step()) as nat) == slide,
{
    lemma_ticks_of_moves(slide, slide.moves_per_cycle());
    lemma_moves_of_one_cycle(slide);
}

} // verus!
