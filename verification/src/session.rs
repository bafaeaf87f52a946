use vstd::prelude::*;

use crate::decimal::{
    all_digits, decimal, decimal_value, law_decimal_notation, law_zero_padded_notation,
    lemma_zero_padded_value, push_decimal, push_zero_padded, zero_padded,
};

verus! {

/// Width of the full-resolution image.
pub const W: usize = 800;
/// Height of the full-resolution image.
pub const H: usize = 600;
/// While the scene is being edited the image is rendered this many times smaller.
pub const PREVIEW_SCALE: usize = 2;
/// Milliseconds without edits after which rendering goes back to full resolution.
pub const PREVIEW_SETTLE_MS: u128 = 300;
/// Bounces a ray may take in the interactive renderer.
pub const RECURSION_DEPTH: i32 = 16;
/// Worker threads of the interactive renderer.
pub const THREAD_COUNT: usize = 10;

/// What the bookkeeping of a progressive render session holds.
pub ghost struct SessionView {
    pub width: nat,
    pub height: nat,
    pub samples: nat,
    pub preview: bool,
}

impl SessionView {
    /// A session renders either the full image or the reduced preview, and
    /// the preview flag tells which.
    pub open spec fn wf(self) -> bool {
        if self.preview {
            self.width == W / PREVIEW_SCALE && self.height == H / PREVIEW_SCALE
        } else {
            self.width == W && self.height == H
        }
    }

    /// The session after rendering starts over at `width` by `height`.
    pub open spec fn restarted(self, width: nat, height: nat, preview: bool) -> SessionView {
        SessionView { width, height, samples: 0, preview }
    }

    /// What one frame of the user interface does to the session: an edit
    /// restarts rendering at preview resolution; once no edit has come for
    /// [`PREVIEW_SETTLE_MS`] a preview restarts at full resolution; otherwise
    /// nothing changes. The second part is the resolution rendering restarts
    /// at, if it does.
    pub open spec fn frame(self, edited: bool, ms_since_edit: nat) -> (SessionView, Option<(nat, nat)>) {
        if edited {
            let (w, h) = ((W / PREVIEW_SCALE) as nat, (H / PREVIEW_SCALE) as nat);
            (self.restarted(w, h, true), Some((w, h)))
        } else if self.preview && ms_since_edit >= PREVIEW_SETTLE_MS {
            (self.restarted(W as nat, H as nat, false), Some((W as nat, H as nat)))
        } else {
            (self, None)
        }
    }
}

/// The integer bookkeeping of an interactive, progressive render: the
/// resolution being rendered, how many samples have been accumulated, and
/// whether the reduced preview is showing.
pub struct RenderSession {
    width: usize,
    height: usize,
    sample_count: u32,
    preview: bool,
}

impl View for RenderSession {
    type V = SessionView;

    closed spec fn view(&self) -> SessionView {
        SessionView {
            width: self.width as nat,
            height: self.height as nat,
            samples: self.sample_count as nat,
            preview: self.preview,
        }
    }
}

impl RenderSession {
    /// A session that starts rendering the full image with no samples yet.
    pub fn new() -> (s: Self)
        ensures
            s@ == (SessionView { width: W as nat, height: H as nat, samples: 0, preview: false }),
            s@.wf(),
    {
        RenderSession { width: W, height: H, sample_count: 0, preview: false }
    }

    /// Width of the image being rendered.
    pub fn width(&self) -> (w: usize)
        ensures
            w == self@.width,
    {
        self.width
    }

    /// Height of the image being rendered.
    pub fn height(&self) -> (h: usize)
        ensures
            h == self@.height,
    {
        self.height
    }

    /// Samples accumulated since rendering last started over.
    pub fn sample_count(&self) -> (n: u32)
        ensures
            n == self@.samples,
    {
        self.sample_count
    }

    /// Whether the reduced preview is being rendered.
    pub fn is_preview(&self) -> (p: bool)
        ensures
            p == self@.preview,
    {
        self.preview
    }

    /// Counts one more accumulated sample.
    pub fn record_sample(&mut self)
        requires
            old(self)@.samples < u32::MAX,
        ensures
            final(self)@ == (SessionView { samples: old(self)@.samples + 1, ..old(self)@ }),
    {
        self.sample_count = self.sample_count + 1;
    }

    /// Takes the decision at the end of a user-interface frame (see
    /// [`SessionView::frame`]): `edited` tells whether the scene changed in
    /// this frame, `ms_since_edit` how long ago the last edit was. Returns the
    /// resolution at which rendering has to start over, if it has to.
    pub fn end_frame(&mut self, edited: bool, ms_since_edit: u128) -> (restart: Option<(usize, usize)>)
        requires
            old(self)@.wf(),
        ensures
            final(self)@ == old(self)@.frame(edited, ms_since_edit as nat).0,
            (match old(self)@.frame(edited, ms_since_edit as nat).1 {
                Some((w, h)) => restart == Some((w as usize, h as usize)),
                None => restart is None,
            }),
            final(self)@.wf(),
    {
        if edited {
            let (w, h) = (W / PREVIEW_SCALE, H / PREVIEW_SCALE);
            self.restart(w, h, true);
            Some((w, h))
        } else if self.preview && ms_since_edit >= PREVIEW_SETTLE_MS {
            self.restart(W, H, false);
            Some((W, H))
        } else {
            None
        }
    }

    fn restart(&mut self, width: usize, height: usize, preview: bool)
        ensures
            final(self)@ == old(self)@.restarted(width as nat, height as nat, preview),
    {
        self.width = width;
        self.height = height;
        self.sample_count = 0;
        self.preview = preview;
    }
}

/// The preview is the 800 by 600 image scaled down twice: 400 by 300.
pub proof fn law_resolutions()
    ensures
        W == 800 && H == 600,
        W / PREVIEW_SCALE == 400 && H / PREVIEW_SCALE == 300,
        PREVIEW_SETTLE_MS == 300,
{
}

/// Every frame in which the scene was edited restarts rendering at the
/// preview resolution, 400 by 300, with no samples, whatever the session was
/// doing before (even if it was already showing a fresh preview).
pub proof fn law_every_edit_restarts_preview(s: SessionView, ms_since_edit: nat)
    ensures
        s.frame(true, ms_since_edit).1 == Some((400nat, 300nat)),
        s.frame(true, ms_since_edit).0.samples == 0,
        s.frame(true, ms_since_edit).0.preview,
        s.frame(true, ms_since_edit).0.width == 400,
        s.frame(true, ms_since_edit).0.height == 300,
{
}

/// Without an edit, a preview restarts at the full 800 by 600 resolution,
/// with no samples, exactly when at least 300 ms have passed since the last
/// edit; before that the frame leaves the session as it is.
pub proof fn law_settle_threshold(s: SessionView, ms_since_edit: nat)
    requires
        s.preview,
    ensures
        ms_since_edit >= 300 ==> s.frame(false, ms_since_edit) == (
            SessionView { width: 800, height: 600, samples: 0, preview: false },
            Some((800nat, 600nat)),
        ),
        ms_since_edit < 300 ==> s.frame(false, ms_since_edit) == (s, None::<(nat, nat)>),
{
}

/// Every frame keeps the session either at full resolution or at the preview's.
pub proof fn law_frame_keeps_wf(s: SessionView, edited: bool, ms_since_edit: nat)
    requires
        s.wf(),
    ensures
        s.frame(edited, ms_since_edit).0.wf(),
{
}

/// Whenever rendering starts over, the accumulated samples are dropped.
pub proof fn law_restart_drops_samples(s: SessionView, edited: bool, ms_since_edit: nat)
    requires
        s.frame(edited, ms_since_edit).1 is Some,
    ensures
        s.frame(edited, ms_since_edit).0.samples == 0,
        s.frame(edited, ms_since_edit).1 == Some((s.frame(edited, ms_since_edit).0.width, s.frame(edited, ms_since_edit).0.height)),
{
}

/// While edits keep coming, and until they have settled, rendering stays at
/// preview resolution: after an edit, a frame without an edit that comes
/// too soon changes nothing.
pub proof fn law_preview_until_settled(s: SessionView, first_ms: nat, ms_since_edit: nat)
    requires
        ms_since_edit < PREVIEW_SETTLE_MS,
    ensures
        s.frame(true, first_ms).0.frame(false, ms_since_edit) == (s.frame(true, first_ms).0, None::<(nat, nat)>),
        s.frame(true, first_ms).0.preview,
{
}

/// Once edits have settled, a preview goes back to full resolution.
pub proof fn law_settled_preview_goes_full(s: SessionView, first_ms: nat, ms_since_edit: nat)
    requires
        ms_since_edit >= PREVIEW_SETTLE_MS,
    ensures
        s.frame(true, first_ms).0.frame(false, ms_since_edit).1 == Some((W as nat, H as nat)),
        !s.frame(true, first_ms).0.frame(false, ms_since_edit).0.preview,
{
}

/// At full resolution and without edits, samples keep accumulating: frames
/// change nothing.
pub proof fn law_full_resolution_is_stable(s: SessionView, ms_since_edit: nat)
    requires
        !s.preview,
    ensures
        s.frame(false, ms_since_edit) == (s, None::<(nat, nat)>),
{
}

/// Name of the `n`-th saved render: `render_` and `n` with at least three
/// digits, then the `.ppm` extension.
pub open spec fn spec_render_file_name(n: nat) -> Seq<char> {
    "render_"@ + zero_padded(n, 3) + ".ppm"@
}

/// Name of the file the `n`-th saved render goes to, such as `render_007.ppm`.
pub fn render_file_name(n: u32) -> (name: String)
    ensures
        name@ == spec_render_file_name(n as nat),
{
    let mut name = String::from_str("render_");
    push_zero_padded(&mut name, n as u64, 3);
    name.append(".ppm");
    name
}

/// Different render numbers never share a file name.
pub proof fn law_render_file_names_distinct(a: nat, b: nat)
    requires
        a != b,
    ensures
        spec_render_file_name(a) != spec_render_file_name(b),
{
    reveal_strlit("render_");
    reveal_strlit(".ppm");
    let (na, nb) = (spec_render_file_name(a), spec_render_file_name(b));
    let (pa, pb) = (zero_padded(a, 3), zero_padded(b, 3));
    if na == nb {
        assert(na.len() == 7 + pa.len() + 4);
        assert(nb.len() == 7 + pb.len() + 4);
        assert(na.subrange(7, 7 + pa.len() as int) =~= pa);
        assert(nb.subrange(7, 7 + pb.len() as int) =~= pb);
        lemma_zero_padded_value(a, 3);
        lemma_zero_padded_value(b, 3);
    }
}

/// The file name of render `n` is `render_`, then a run of digits at least
/// three long that reads as `n`, then `.ppm`.
pub proof fn law_render_file_name_parts(n: nat)
    ensures
        ({
            let name = spec_render_file_name(n);
            let digits = name.subrange(7, name.len() - 4);
            &&& name.len() >= 14
            &&& name.take(7) == "render_"@
            &&& name.skip(name.len() - 4) == ".ppm"@
            &&& all_digits(digits)
            &&& decimal_value(digits) == n
            &&& digits.len() == if decimal(n).len() < 3 { 3 } else { decimal(n).len() }
        }),
{
    reveal_strlit("render_");
    reveal_strlit(".ppm");
    law_zero_padded_notation(n, 3);
    let name = spec_render_file_name(n);
    let z = zero_padded(n, 3);
    assert(name.subrange(7, name.len() - 4) =~= z);
    assert(name.take(7) =~= "render_"@);
    assert(name.skip(name.len() - 4) =~= ".ppm"@);
}

/// Name given to a sphere added to a scene that has `count` spheres.
pub open spec fn spec_new_sphere_name(count: nat) -> Seq<char> {
    "Sphere "@ + decimal(count + 1)
}

/// Name of a sphere added to a scene of `count` spheres: `Sphere ` and its
/// position, counted from one.
pub fn new_sphere_name(count: usize) -> (name: String)
    requires
        count < usize::MAX,
    ensures
        name@ == spec_new_sphere_name(count as nat),
{
    let mut name = String::from_str("Sphere ");
    push_decimal(&mut name, (count + 1) as u64);
    name
}

/// A new sphere's name is `Sphere ` followed by the decimal notation, without
/// leading zeros, of its position counted from one.
pub proof fn law_new_sphere_name_parts(count: nat)
    ensures
        ({
            let name = spec_new_sphere_name(count);
            let digits = name.skip(7);
            &&& name.take(7) == "Sphere "@
            &&& digits.len() >= 1
            &&& all_digits(digits)
            &&& decimal_value(digits) == count + 1
            &&& digits[0] != '0'
        }),
{
    reveal_strlit("Sphere ");
    law_decimal_notation(count + 1);
    let name = spec_new_sphere_name(count);
    assert(name.skip(7) =~= decimal(count + 1));
    assert(name.take(7) =~= "Sphere "@);
    if decimal(count + 1).len() == 1 {
        assert(decimal(count + 1) != seq!['0']);
        assert(decimal(count + 1) =~= seq![decimal(count + 1)[0]]);
    }
}

} // verus!
