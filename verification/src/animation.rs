//! The animation sequencer: one viewport for each frame of a zoom or pan.
//!
//! A domain or a center is either fixed or a range. Where neither is a range
//! there is one frame. Otherwise frame `i` of `n` lies at the fraction
//! `i / (n - 1)` of the way from the start of each range to its end; how a
//! value is blended at a fraction is the caller's arithmetic.

use vstd::prelude::*;

verus! {

/// A setting that holds one value, or runs from a start to an end.
#[derive(Debug, PartialEq, Eq)]
pub enum Span<T> {
    Fixed(T),
    Range { start: T, end: T },
}

/// Where a frame lies within an animation: at the fraction `index / last`
/// of the way.
#[derive(Clone, Copy, Debug, PartialEq, Eq, Structural)]
pub struct Tween {
    pub index: u32,
    pub last: u32,
}

/// The part of the complex plane that one frame shows.
#[derive(Debug, PartialEq)]
pub struct Viewport<D, C> {
    pub domain: D,
    pub center: C,
}

/// Whether the two settings ask for an animation: one of them is a range.
pub open spec fn is_animation<D, C>(domain: Span<D>, center: Span<C>) -> bool {
    domain is Range || center is Range
}

/// Number of frames of a plan. The frame count counts only for an animation.
pub open spec fn plan_len<D, C>(domain: Span<D>, center: Span<C>, frame_count: u32) -> nat {
    if is_animation(domain, center) {
        frame_count as nat
    } else {
        1
    }
}

/// Where frame `index` of `frame_count` frames lies.
pub open spec fn tween_of(frame_count: u32, index: u32) -> Tween {
    Tween {
        index,
        last: if frame_count == 0 {
            0
        } else {
            (frame_count - 1) as u32
        },
    }
}

/// `value` is what `span` holds at `tween`: its one value where it is fixed,
/// a result of `blend` on its two ends where it is a range.
pub open spec fn holds_at<T, B: Fn(T, T, Tween) -> T>(
    span: Span<T>,
    tween: Tween,
    blend: B,
    value: T,
) -> bool {
    match span {
        Span::Fixed(only) => value == only,
        Span::Range { start, end } => blend.ensures((start, end, tween), value),
    }
}

/// `viewport` is frame `index` of the plan.
pub open spec fn is_frame<D, C, BD: Fn(D, D, Tween) -> D, BC: Fn(C, C, Tween) -> C>(
    domain: Span<D>,
    center: Span<C>,
    frame_count: u32,
    index: u32,
    blend_domain: BD,
    blend_center: BC,
    viewport: Viewport<D, C>,
) -> bool {
    &&& holds_at(domain, tween_of(frame_count, index), blend_domain, viewport.domain)
    &&& holds_at(center, tween_of(frame_count, index), blend_center, viewport.center)
}

impl<T: Copy> Span<T> {
    /// Whether the setting is a range.
    pub fn is_range(&self) -> (range: bool)
        ensures
            range == (*self is Range),
    {
        match self {
            Span::Fixed(_) => false,
            Span::Range { .. } => true,
        }
    }

    /// The value at `tween`.
    pub fn at<B: Fn(T, T, Tween) -> T>(&self, tween: Tween, blend: &B) -> (value: T)
        requires
            forall|start: T, end: T| blend.requires((start, end, tween)),
        ensures
            holds_at(*self, tween, *blend, value),
    {
        match self {
            Span::Fixed(only) => *only,
            Span::Range { start, end } => blend(*start, *end, tween),
        }
    }
}

/// Number of frames that a plan has.
pub fn frames_in_plan<D: Copy, C: Copy>(domain: &Span<D>, center: &Span<C>, frame_count: u32) -> (len:
    u32)
    ensures
        len == plan_len(*domain, *center, frame_count),
{
    if domain.is_range() || center.is_range() {
        frame_count
    } else {
        1
    }
}

/// The viewport of frame `index` of a plan. Any frame can be asked for, in
/// any order and more than once.
pub fn viewport_at<D: Copy, C: Copy, BD: Fn(D, D, Tween) -> D, BC: Fn(C, C, Tween) -> C>(
    domain: &Span<D>,
    center: &Span<C>,
    frame_count: u32,
    index: u32,
    blend_domain: &BD,
    blend_center: &BC,
) -> (viewport: Viewport<D, C>)
    requires
        index < plan_len(*domain, *center, frame_count),
        forall|start: D, end: D, tween: Tween| blend_domain.requires((start, end, tween)),
        forall|start: C, end: C, tween: Tween| blend_center.requires((start, end, tween)),
    ensures
        is_frame(*domain, *center, frame_count, index, *blend_domain, *blend_center, viewport),
{
    let last: u32 = if frame_count == 0 {
        0
    } else {
        frame_count - 1
    };
    let tween = Tween { index, last };
    Viewport { domain: domain.at(tween, blend_domain), center: center.at(tween, blend_center) }
}

/// The plan: the viewports of all frames, in order.
pub fn plan<D: Copy, C: Copy, BD: Fn(D, D, Tween) -> D, BC: Fn(C, C, Tween) -> C>(
    domain: &Span<D>,
    center: &Span<C>,
    frame_count: u32,
    blend_domain: BD,
    blend_center: BC,
) -> (frames: Vec<Viewport<D, C>>)
    requires
        forall|start: D, end: D, tween: Tween| blend_domain.requires((start, end, tween)),
        forall|start: C, end: C, tween: Tween| blend_center.requires((start, end, tween)),
    ensures
        frames@.len() == plan_len(*domain, *center, frame_count),
        forall|i: int|
            0 <= i < frames@.len() ==> is_frame(
                *domain,
                *center,
                frame_count,
                i as u32,
                blend_domain,
                blend_center,
                #[trigger] frames@[i],
            ),
{
    let len: u32 = frames_in_plan(domain, center, frame_count);
    let mut frames: Vec<Viewport<D, C>> = Vec::new();
    let mut index: u32 = 0;
    while index < len
        invariant
            index <= len,
            len == plan_len(*domain, *center, frame_count),
            frames@.len() == index,
            forall|start: D, end: D, tween: Tween| blend_domain.requires((start, end, tween)),
            forall|start: C, end: C, tween: Tween| blend_center.requires((start, end, tween)),
            forall|i: int|
                0 <= i < frames@.len() ==> is_frame(
                    *domain,
                    *center,
                    frame_count,
                    i as u32,
                    blend_domain,
                    blend_center,
                    #[trigger] frames@[i],
                ),
        decreases len - index,
    {
        let viewport = viewport_at(
            domain,
            center,
            frame_count,
            index,
            &blend_domain,
            &blend_center,
        );
        frames.push(viewport);
        index = index + 1;
    }
    frames
}

/// Every frame of an animation lies on the way from the start to the end:
/// the first frame at the start, the last frame at the end, each frame one
/// step after the one before it.
pub proof fn lemma_tween_on_the_way(frame_count: u32, index: u32)
    requires
        index < frame_count,
    ensures
        tween_of(frame_count, index).last == frame_count - 1,
        tween_of(frame_count, index).index == index,
        0 <= tween_of(frame_count, index).index <= tween_of(frame_count, index).last,
        index == frame_count - 1 ==> tween_of(frame_count, index).index == tween_of(
            frame_count,
            index,
        ).last,
{
}

/// A plan without a range has one frame, which shows the two fixed values,
/// whatever the frame count.
pub proof fn lemma_still_plan<D, C, BD: Fn(D, D, Tween) -> D, BC: Fn(C, C, Tween) -> C>(
    domain: Span<D>,
    center: Span<C>,
    frame_count: u32,
    blend_domain: BD,
    blend_center: BC,
    viewport: Viewport<D, C>,
)
    requires
        !is_animation(domain, center),
        is_frame(domain, center, frame_count, 0, blend_domain, blend_center, viewport),
    ensures
        plan_len(domain, center, frame_count) == 1,
        domain == Span::Fixed(viewport.domain),
        center == Span::Fixed(viewport.center),
{
}

} // verus!
