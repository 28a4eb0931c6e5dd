//! Routing of captured microphone samples into Opus-sized frames for the two
//! logical channels: the duo channel (always on) and the leader net (only
//! while push-to-talk is held).
use vstd::prelude::*;

use crate::ptt::PttState;

verus! {

/// Opus frame size: 20ms at 48kHz mono = 960 samples.
pub const OPUS_FRAME_SAMPLES: usize = 960;

/// Configuration for the audio pipeline.
#[derive(Debug, Clone)]
pub struct AudioConfig {
    /// Shared PTT state (set by the UI/hotkey layer).
    pub ptt: PttState,
}

/// The whole frames of `OPUS_FRAME_SAMPLES` samples at the front of `s`, in order.
pub open spec fn whole_frames<T>(s: Seq<T>) -> Seq<Seq<T>> {
    Seq::new(
        s.len() / 960,
        |i: int| s.subrange(i * 960, i * 960 + 960),
    )
}

/// What is left of `s` after its whole frames are taken.
pub open spec fn frame_rest<T>(s: Seq<T>) -> Seq<T> {
    s.subrange(((s.len() / 960) * 960) as int, s.len() as int)
}

/// Mono samples waiting to fill a frame on each channel.
#[derive(Debug)]
pub struct FrameRouter<T> {
    duo: Vec<T>,
    leader: Vec<T>,
}

/// The frames one block of input completes.
#[derive(Debug)]
pub struct RoutedFrames<T> {
    /// Frames for the duo channel, in order.
    pub duo: Vec<Vec<T>>,
    /// Frames for the leader net, in order.
    pub leader: Vec<Vec<T>>,
}

/// The views of a sequence of vectors.
pub open spec fn frames_view<T>(v: Seq<Vec<T>>) -> Seq<Seq<T>> {
    v.map_values(|f: Vec<T>| f@)
}

impl<T: Copy> FrameRouter<T> {
    /// Samples waiting on the duo channel.
    pub closed spec fn duo_pending(&self) -> Seq<T> {
        self.duo@
    }

    /// Samples waiting on the leader net.
    pub closed spec fn leader_pending(&self) -> Seq<T> {
        self.leader@
    }

    /// Both channels hold less than a whole frame.
    pub open spec fn wf(&self) -> bool {
        self.duo_pending().len() < 960 && self.leader_pending().len() < 960
    }

    /// A router with nothing pending.
    pub fn new() -> (r: Self)
        ensures
            r.duo_pending().len() == 0,
            r.leader_pending().len() == 0,
            r.wf(),
    {
        FrameRouter { duo: Vec::new(), leader: Vec::new() }
    }

    /// Whether a block of `n` samples can be routed without the pending
    /// buffers outgrowing `usize`.
    pub fn can_take(&self, n: usize) -> (r: bool)
        ensures
            r == (self.duo_pending().len() + n <= usize::MAX && self.leader_pending().len() + n <= usize::MAX),
    {
        n <= usize::MAX - self.duo.len() && n <= usize::MAX - self.leader.len()
    }

    /// Route one block of mono samples. The duo channel always takes the
    /// samples; the leader net takes them only while `ptt_on`, and drops what
    /// it holds when PTT is off. Every whole frame completed is handed out,
    /// in order, and the rest waits for the next block.
    pub fn push(&mut self, mono: &[T], ptt_on: bool) -> (r: RoutedFrames<T>)
        requires
            old(self).duo_pending().len() + mono@.len() <= usize::MAX,
            old(self).leader_pending().len() + mono@.len() <= usize::MAX,
        ensures
            frames_view(r.duo@) == whole_frames(old(self).duo_pending() + mono@),
            final(self).duo_pending() == frame_rest(old(self).duo_pending() + mono@),
            ptt_on ==> frames_view(r.leader@) == whole_frames(old(self).leader_pending() + mono@),
            ptt_on ==> final(self).leader_pending() == frame_rest(old(self).leader_pending() + mono@),
            !ptt_on ==> r.leader@.len() == 0,
            !ptt_on ==> final(self).leader_pending().len() == 0,
            final(self).wf(),
    {
        let duo_all = append(&self.duo, mono);
        let (duo_frames, duo_rest) = split_frames(&duo_all);
        self.duo = duo_rest;
        if ptt_on {
            let leader_all = append(&self.leader, mono);
            let (leader_frames, leader_rest) = split_frames(&leader_all);
            self.leader = leader_rest;
            RoutedFrames { duo: duo_frames, leader: leader_frames }
        } else {
            self.leader = Vec::new();
            RoutedFrames { duo: duo_frames, leader: Vec::new() }
        }
    }
}

fn append<T: Copy>(a: &Vec<T>, b: &[T]) -> (r: Vec<T>)
    requires
        a@.len() + b@.len() <= usize::MAX,
    ensures
        r@ == a@ + b@,
{
    let mut out: Vec<T> = Vec::new();
    let mut i: usize = 0;
    while i < a.len()
        invariant
            0 <= i <= a@.len(),
            out@ == a@.take(i as int),
        decreases a@.len() - i,
    {
        out.push(a[i]);
        proof {
            assert(a@.take(i + 1) =~= a@.take(i as int).push(a@[i as int]));
        }
        i = i + 1;
    }
    let mut j: usize = 0;
    while j < b.len()
        invariant
            0 <= j <= b@.len(),
            out@ == a@ + b@.take(j as int),
        decreases b@.len() - j,
    {
        out.push(b[j]);
        proof {
            assert(b@.take(j + 1) =~= b@.take(j as int).push(b@[j as int]));
            assert(a@ + b@.take(j + 1) =~= (a@ + b@.take(j as int)).push(b@[j as int]));
        }
        j = j + 1;
    }
    proof {
        assert(a@.take(a@.len() as int) =~= a@);
        assert(b@.take(b@.len() as int) =~= b@);
    }
    out
}

fn copy_range<T: Copy>(s: &Vec<T>, from: usize, to: usize) -> (r: Vec<T>)
    requires
        from <= to <= s@.len(),
    ensures
        r@ == s@.subrange(from as int, to as int),
{
    let mut out: Vec<T> = Vec::new();
    let mut i: usize = from;
    while i < to
        invariant
            from <= i <= to,
            to <= s@.len(),
            out@ == s@.subrange(from as int, i as int),
        decreases to - i,
    {
        out.push(s[i]);
        proof {
            assert(s@.subrange(from as int, i + 1) =~= s@.subrange(from as int, i as int).push(s@[i as int]));
        }
        i = i + 1;
    }
    out
}

proof fn lemma_frame_in_bounds(i: int, n: int, len: int)
    requires
        0 <= i < n,
        0 <= len,
        n == len / 960,
    ensures
        i * 960 + 960 <= len,
{
    assert(i * 960 + 960 <= len) by (nonlinear_arith)
        requires
            0 <= i < n,
            0 <= len,
            n == len / 960,
    ;
}

fn split_frames<T: Copy>(s: &Vec<T>) -> (r: (Vec<Vec<T>>, Vec<T>))
    ensures
        frames_view(r.0@) == whole_frames(s@),
        r.1@ == frame_rest(s@),
        r.1@.len() < 960,
{
    let n = s.len() / 960;
    let mut frames: Vec<Vec<T>> = Vec::new();
    let mut i: usize = 0;
    while i < n
        invariant
            n == s@.len() / 960,
            s@.len() <= usize::MAX,
            0 <= i <= n,
            frames@.len() == i,
            forall|k: int| 0 <= k < i ==> (#[trigger] frames@[k])@ == s@.subrange(k * 960, k * 960 + 960),
        decreases n - i,
    {
        proof {
            lemma_frame_in_bounds(i as int, n as int, s@.len() as int);
        }
        let frame = copy_range(s, i * 960, i * 960 + 960);
        frames.push(frame);
        i = i + 1;
    }
    assert(n * 960 <= s@.len() && s@.len() - n * 960 < 960) by (nonlinear_arith)
        requires
            n == s@.len() / 960,
    ;
    let rest = copy_range(s, n * 960, s.len());
    proof {
        assert(frames_view(frames@) =~= whole_frames(s@));
    }
    (frames, rest)
}

// ── Laws ───────────────────────────────────────────────────────────────────

/// Routing loses and reorders no sample: the frames handed out, followed by
/// what waits, are exactly what waited before followed by the new samples.
pub proof fn law_frames_keep_every_sample<T>(s: Seq<T>)
    ensures
        whole_frames(s).len() * 960 + frame_rest(s).len() == s.len(),
        forall|i: int| 0 <= i < whole_frames(s).len() ==> (#[trigger] whole_frames(s)[i]).len() == 960,
        forall|i: int, j: int|
            0 <= i < whole_frames(s).len() && 0 <= j < 960 ==> #[trigger] whole_frames(s)[i][j] == s[i * 960 + j],
        forall|j: int| 0 <= j < frame_rest(s).len() ==> #[trigger] frame_rest(s)[j] == s[whole_frames(s).len() * 960 + j],
{
    let n = s.len() / 960;
    assert(n * 960 <= s.len() && s.len() - n * 960 < 960) by (nonlinear_arith)
        requires
            n == s.len() / 960,
    ;
    assert forall|i: int| 0 <= i < whole_frames(s).len() implies (#[trigger] whole_frames(s)[i]).len() == 960 by {
        assert(i * 960 + 960 <= s.len()) by (nonlinear_arith)
            requires
                0 <= i < n,
                n == s.len() / 960,
        ;
    }
    assert forall|i: int, j: int|
        0 <= i < whole_frames(s).len() && 0 <= j < 960 implies #[trigger] whole_frames(s)[i][j] == s[i * 960 + j] by {
        assert(i * 960 + 960 <= s.len()) by (nonlinear_arith)
            requires
                0 <= i < n,
                n == s.len() / 960,
        ;
    }
}

} // verus!
