use vstd::prelude::*;

use vstd::arithmetic::div_mod::lemma_fundamental_div_mod_converse;

use crate::image::{same_size, Image};
use crate::pixel::{blend, smooth, Pixel};

verus! {

/// A run of interpolation: at least two images of one size, and at least one
/// step per segment.
pub open spec fn valid_run(images: Seq<Image>, steps: nat) -> bool {
    &&& images.len() >= 2
    &&& steps >= 1
    &&& same_size(images)
}

/// The index of the last frame of a run: `(n - 1) * steps`.
pub open spec fn last_index(n: nat, steps: nat) -> nat {
    ((n - 1) * steps) as nat
}

/// How many frames a run of `n` images yields: `(n - 1) * steps + 1`.
pub open spec fn frame_count(n: nat, steps: nat) -> nat {
    last_index(n, steps) + 1
}

/// The pixels of `a` blended toward those of `b` by `local / steps`.
pub open spec fn blend_pixels(local: nat, steps: nat, a: Seq<Pixel>, b: Seq<Pixel>) -> Seq<Pixel> {
    Seq::new(a.len(), |i: int| blend(local, steps, a[i], b[i]))
}

/// Frame `k` of a run: the source image itself at the start of a segment,
/// otherwise a blend of the segment's two ends.
pub open spec fn frame(images: Seq<Image>, steps: nat, k: nat) -> Seq<Pixel> {
    let segment = k / steps;
    let local = k % steps;
    if local == 0 {
        images[segment as int].spec_data()
    } else {
        blend_pixels(local, steps, images[segment as int].spec_data(), images[segment + 1int].spec_data())
    }
}

/// What a forward cursor standing on `(segment, local)` hands out next.
pub open spec fn cursor_emit(images: Seq<Image>, steps: nat, segment: nat, local: nat) -> Option<Seq<Pixel>> {
    if local >= steps {
        if segment + 1 < images.len() {
            Some(images[segment + 1int].spec_data())
        } else {
            None
        }
    } else if local == 0 {
        Some(images[segment as int].spec_data())
    } else if segment + 1 < images.len() {
        Some(blend_pixels(local, steps, images[segment as int].spec_data(), images[segment + 1int].spec_data()))
    } else {
        None
    }
}

/// Where a forward cursor standing on `(segment, local)` goes next.
pub open spec fn cursor_advance(n: nat, steps: nat, segment: nat, local: nat) -> (nat, nat) {
    if local >= steps {
        if segment + 1 < n {
            (segment + 1, 1)
        } else {
            (segment, local)
        }
    } else if local == 0 {
        (segment, 1)
    } else if segment + 1 < n {
        (segment, local + 1)
    } else {
        (segment, local)
    }
}

/// The frames that a forward cursor hands out from `(segment, local)`, at most
/// `fuel` of them, up to the first step that hands out nothing.
pub open spec fn cursor_run(images: Seq<Image>, steps: nat, segment: nat, local: nat, fuel: nat) -> Seq<Seq<Pixel>>
    decreases fuel,
{
    if fuel == 0 {
        Seq::empty()
    } else {
        match cursor_emit(images, steps, segment, local) {
            None => Seq::empty(),
            Some(f) => {
                let next = cursor_advance(images.len(), steps, segment, local);
                seq![f] + cursor_run(images, steps, next.0, next.1, (fuel - 1) as nat)
            },
        }
    }
}

/// The cursor states that a forward traversal from `(0, 0)` passes through.
pub open spec fn reachable(n: nat, steps: nat, segment: nat, local: nat) -> bool {
    ||| segment == 0 && local == 0
    ||| 1 <= local <= steps && segment + 1 < n
    ||| local == 1 && segment + 1 == n
}

/// The global frame index of a cursor state.
pub open spec fn position(steps: nat, segment: nat, local: nat) -> nat {
    segment * steps + local
}

proof fn lemma_index_split(k: nat, steps: nat, segment: nat, local: nat)
    requires
        0 < steps,
        local < steps,
        k == segment * steps + local,
    ensures
        k / steps == segment,
        k % steps == local,
{
    lemma_fundamental_div_mod_converse(k as int, steps as int, segment as int, local as int);
}

/// One step of a forward cursor from a reachable state: it hands out the
/// frame at its position, or nothing once past the last one, and moves on
/// to the next reachable state.
pub proof fn lemma_cursor_step(images: Seq<Image>, steps: nat, segment: nat, local: nat)
    requires
        valid_run(images, steps),
        reachable(images.len(), steps, segment, local),
    ensures
        ({
            let n = images.len();
            let p = position(steps, segment, local);
            let next = cursor_advance(n, steps, segment, local);
            &&& p <= last_index(n, steps) + 1
            &&& p <= last_index(n, steps) ==> cursor_emit(images, steps, segment, local) == Some(frame(images, steps, p))
                && reachable(n, steps, next.0, next.1)
                && position(steps, next.0, next.1) == p + 1
            &&& p == last_index(n, steps) + 1 ==> cursor_emit(images, steps, segment, local) is None
                && next == (segment, local)
        }),
{
    let n = images.len();
    let s = steps;
    assert(segment * s + s == (segment + 1) * s) by (nonlinear_arith);
    if segment + 1 < n {
        assert((segment + 1) * s <= (n - 1) * s) by (nonlinear_arith)
            requires
                segment + 1 <= n - 1,
        ;
    }
    if segment + 1 == n {
        assert(segment * s == (n - 1) * s);
    }
    if local == s {
        lemma_index_split(segment * s + s, s, segment + 1, 0);
    } else if segment == 0 && local == 0 {
        lemma_index_split(0, s, 0, 0);
    } else if local < s && segment + 1 < n {
        lemma_index_split(segment * s + local, s, segment, local);
    }
}

/// From a reachable state, a forward cursor hands out exactly the frames from
/// its position to the last one, in order.
pub proof fn lemma_cursor_run_from(images: Seq<Image>, steps: nat, segment: nat, local: nat, fuel: nat)
    requires
        valid_run(images, steps),
        reachable(images.len(), steps, segment, local),
        fuel >= frame_count(images.len(), steps) - position(steps, segment, local),
    ensures
        cursor_run(images, steps, segment, local, fuel) =~= Seq::new(
            (frame_count(images.len(), steps) - position(steps, segment, local)) as nat,
            |j: int| frame(images, steps, position(steps, segment, local) + j as nat),
        ),
    decreases fuel,
{
    lemma_cursor_step(images, steps, segment, local);
    let p = position(steps, segment, local);
    if p <= last_index(images.len(), steps) {
        let next = cursor_advance(images.len(), steps, segment, local);
        lemma_cursor_run_from(images, steps, next.0, next.1, (fuel - 1) as nat);
    }
}

/// The forward cursor started at `(0, 0)` and the closed-form index formula
/// give the same frames in the same order, and the cursor stops after the
/// last one, however much further it is driven.
pub proof fn lemma_stateful_matches_stateless(images: Seq<Image>, steps: nat, fuel: nat)
    requires
        valid_run(images, steps),
        fuel >= frame_count(images.len(), steps),
    ensures
        cursor_run(images, steps, 0, 0, fuel) =~= Seq::new(
            frame_count(images.len(), steps),
            |k: int| frame(images, steps, k as nat),
        ),
{
    lemma_cursor_run_from(images, steps, 0, 0, fuel);
}


/// The first frame of a run is the first image, pixel for pixel.
pub proof fn lemma_first_frame(images: Seq<Image>, steps: nat)
    requires
        valid_run(images, steps),
    ensures
        frame(images, steps, 0) == images[0].spec_data(),
{
    lemma_index_split(0, steps, 0, 0);
}

/// The last frame of a run is the last image, pixel for pixel.
pub proof fn lemma_last_frame(images: Seq<Image>, steps: nat)
    requires
        valid_run(images, steps),
    ensures
        frame(images, steps, last_index(images.len(), steps)) == images[images.len() - 1].spec_data(),
{
    let n = images.len();
    lemma_index_split(last_index(n, steps), steps, (n - 1) as nat, 0);
}

/// The pixels of an image handed out, if any.
pub open spec fn emitted(r: Option<Image>) -> Option<Seq<Pixel>> {
    match r {
        Some(img) => Some(img.spec_data()),
        None => None,
    }
}

proof fn lemma_segment_bounds(k: nat, steps: nat, n: nat)
    requires
        0 < steps,
        2 <= n,
        k <= last_index(n, steps),
    ensures
        k / steps < n,
        k % steps != 0 ==> k / steps + 1 < n,
{
    let q = k / steps;
    let r = k % steps;
    vstd::arithmetic::div_mod::lemma_fundamental_div_mod(k as int, steps as int);
    assert(q * steps <= k);
    if q >= n {
        assert(q * steps >= n * steps) by (nonlinear_arith)
            requires
                q >= n,
                steps > 0,
        ;
        assert(n * steps > (n - 1) * steps) by (nonlinear_arith)
            requires
                n >= 1,
                steps > 0,
        ;
    }
    if r != 0 && q + 1 >= n {
        assert(q * steps >= (n - 1) * steps) by (nonlinear_arith)
            requires
                q >= n - 1,
                steps > 0,
        ;
    }
}

/// The pixels of `start` blended toward those of `end` by `local / steps`.
fn blend_frames(local: usize, steps: usize, start: &Image, end: &Image) -> (r: Image)
    requires
        0 < steps,
        local <= steps,
        start.spec_width() == end.spec_width(),
        start.spec_height() == end.spec_height(),
    ensures
        r.spec_data() == blend_pixels(local as nat, steps as nat, start.spec_data(), end.spec_data()),
        r.spec_width() == start.spec_width(),
        r.spec_height() == start.spec_height(),
{
    start.len_matches();
    end.len_matches();
    let a = start.data();
    let b = end.data();
    let mut out: Vec<Pixel> = Vec::with_capacity(a.len());
    let mut i: usize = 0;
    while i < a.len()
        invariant
            a@ == start.spec_data(),
            b@ == end.spec_data(),
            a@.len() == b@.len(),
            0 < steps,
            local <= steps,
            i <= a@.len(),
            out@ =~= blend_pixels(local as nat, steps as nat, a@, b@).take(i as int),
        decreases a@.len() - i,
    {
        out.push(smooth(local, steps, a[i], b[i]));
        i = i + 1;
    }
    assert(out@ =~= blend_pixels(local as nat, steps as nat, a@, b@));
    Image::from_pixels(out, start.width(), start.height())
}

/// Frame `k` of the run of `images` with `steps` steps per segment, computed
/// on its own from the index alone.
pub fn frame_at(images: &[Image], steps: usize, k: usize) -> (r: Image)
    requires
        valid_run(images@, steps as nat),
        k <= last_index(images@.len(), steps as nat),
    ensures
        r.spec_data() == frame(images@, steps as nat, k as nat),
        r.spec_width() == images@[0].spec_width(),
        r.spec_height() == images@[0].spec_height(),
{
    proof {
        lemma_segment_bounds(k as nat, steps as nat, images@.len());
    }
    let segment = k / steps;
    let local = k % steps;
    if local == 0 {
        images[segment].duplicate()
    } else {
        blend_frames(local, steps, &images[segment], &images[segment + 1])
    }
}

/// Every frame of the run of `images` with `steps` steps per segment, in
/// order, each computed on its own from its index.
pub fn interpolate_all(images: &[Image], steps: usize) -> (r: Vec<Image>)
    requires
        valid_run(images@, steps as nat),
        last_index(images@.len(), steps as nat) < usize::MAX,
    ensures
        r@.len() == frame_count(images@.len(), steps as nat),
        forall|k: int|
            0 <= k < r@.len() ==> (#[trigger] r@[k]).spec_data() == frame(images@, steps as nat, k as nat)
                && r@[k].spec_width() == images@[0].spec_width()
                && r@[k].spec_height() == images@[0].spec_height(),
{
    let last = (images.len() - 1) * steps;
    let mut out: Vec<Image> = Vec::new();
    let mut k: usize = 0;
    while k <= last
        invariant
            valid_run(images@, steps as nat),
            last == last_index(images@.len(), steps as nat),
            last < usize::MAX,
            k <= last + 1,
            out@.len() == k,
            forall|j: int|
                0 <= j < out@.len() ==> (#[trigger] out@[j]).spec_data() == frame(images@, steps as nat, j as nat)
                    && out@[j].spec_width() == images@[0].spec_width()
                    && out@[j].spec_height() == images@[0].spec_height(),
        decreases last + 1 - k,
    {
        out.push(frame_at(images, steps, k));
        k = k + 1;
    }
    out
}

/// A forward cursor over the frames of a run, handing them out one at a time.
#[derive(Debug)]
pub struct Interpolator {
    images: Vec<Image>,
    image_no: usize,
    frame_no: usize,
    steps_per_interpolation: usize,
}

impl Interpolator {
    pub closed spec fn spec_images(&self) -> Seq<Image> {
        self.images@
    }

    pub closed spec fn spec_steps(&self) -> nat {
        self.steps_per_interpolation as nat
    }

    /// The segment that the cursor stands in.
    pub closed spec fn spec_segment(&self) -> nat {
        self.image_no as nat
    }

    /// The cursor's step within its segment.
    pub closed spec fn spec_local(&self) -> nat {
        self.frame_no as nat
    }

    /// The global index of the frame that the cursor hands out next.
    pub open spec fn cursor_position(&self) -> nat {
        position(self.spec_steps(), self.spec_segment(), self.spec_local())
    }

    pub open spec fn wf(&self) -> bool {
        &&& valid_run(self.spec_images(), self.spec_steps())
        &&& last_index(self.spec_images().len(), self.spec_steps()) < usize::MAX
        &&& reachable(self.spec_images().len(), self.spec_steps(), self.spec_segment(), self.spec_local())
    }

    /// A cursor at the first frame of the run of `images` with `steps` steps
    /// per segment.
    pub fn new(images: Vec<Image>, steps: usize) -> (r: Self)
        requires
            valid_run(images@, steps as nat),
            last_index(images@.len(), steps as nat) < usize::MAX,
        ensures
            r.wf(),
            r.spec_images() == images@,
            r.spec_steps() == steps,
            r.spec_segment() == 0,
            r.spec_local() == 0,
    {
        Interpolator { images, image_no: 0, frame_no: 0, steps_per_interpolation: steps }
    }

    /// Hands out the frame under the cursor and moves the cursor on, or hands
    /// out nothing once the last frame is behind it.
    pub fn next(&mut self) -> (r: Option<Image>)
        requires
            old(self).wf(),
        ensures
            final(self).wf(),
            final(self).spec_images() == old(self).spec_images(),
            final(self).spec_steps() == old(self).spec_steps(),
            (final(self).spec_segment(), final(self).spec_local()) == cursor_advance(
                old(self).spec_images().len(),
                old(self).spec_steps(),
                old(self).spec_segment(),
                old(self).spec_local(),
            ),
            emitted(r) == cursor_emit(
                old(self).spec_images(),
                old(self).spec_steps(),
                old(self).spec_segment(),
                old(self).spec_local(),
            ),
            r matches Some(img) ==> img.spec_width() == old(self).spec_images()[0].spec_width()
                && img.spec_height() == old(self).spec_images()[0].spec_height(),
    {
        proof {
            lemma_cursor_step(self.images@, self.steps_per_interpolation as nat, self.image_no as nat, self.frame_no as nat);
            assert(self.images@[self.image_no as int].spec_width() == self.images@[0].spec_width());
        }
        let n = self.images.len();
        let steps = self.steps_per_interpolation;
        let segment = self.image_no;
        let local = self.frame_no;
        if local >= steps {
            if segment + 1 < n {
                self.image_no = segment + 1;
                self.frame_no = 1;
                Some(self.images[segment + 1].duplicate())
            } else {
                None
            }
        } else if local == 0 {
            self.frame_no = 1;
            Some(self.images[segment].duplicate())
        } else if segment + 1 < n {
            self.frame_no = local + 1;
            Some(blend_frames(local, steps, &self.images[segment], &self.images[segment + 1]))
        } else {
            None
        }
    }

    /// Drives the cursor to the end, handing out every frame from its
    /// position to the last one, in order.
    pub fn collect_frames(&mut self) -> (r: Vec<Image>)
        requires
            old(self).wf(),
        ensures
            final(self).wf(),
            final(self).spec_images() == old(self).spec_images(),
            final(self).spec_steps() == old(self).spec_steps(),
            r@.len() == frame_count(old(self).spec_images().len(), old(self).spec_steps()) - old(self).cursor_position(),
            forall|j: int|
                0 <= j < r@.len() ==> (#[trigger] r@[j]).spec_data() == frame(
                    old(self).spec_images(),
                    old(self).spec_steps(),
                    old(self).cursor_position() + j as nat,
                ) && r@[j].spec_width() == old(self).spec_images()[0].spec_width()
                    && r@[j].spec_height() == old(self).spec_images()[0].spec_height(),
    {
        let ghost images = self.spec_images();
        let ghost steps = self.spec_steps();
        let ghost start = self.cursor_position();
        let mut out: Vec<Image> = Vec::new();
        proof {
            lemma_cursor_step(images, steps, self.spec_segment(), self.spec_local());
        }
        loop
            invariant
                self.wf(),
                self.spec_images() == images,
                self.spec_steps() == steps,
                self.cursor_position() == start + out@.len(),
                self.cursor_position() <= frame_count(images.len(), steps),
                forall|j: int|
                    0 <= j < out@.len() ==> (#[trigger] out@[j]).spec_data() == frame(images, steps, start + j as nat)
                        && out@[j].spec_width() == images[0].spec_width()
                        && out@[j].spec_height() == images[0].spec_height(),
            ensures
                self.cursor_position() == frame_count(images.len(), steps),
            decreases frame_count(images.len(), steps) - self.cursor_position(),
        {
            proof {
                lemma_cursor_step(images, steps, self.spec_segment(), self.spec_local());
            }
            match self.next() {
                Some(img) => out.push(img),
                None => break,
            }
        }
        out
    }
}

} // verus!
