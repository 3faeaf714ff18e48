//! The sample buffers of an analyzer: blocks of frames (one row of channel
//! samples per frame) arrive from the input, and the analyzer sees either a
//! sliding window of the latest frames or the buffer cut into whole windows.
use vstd::prelude::*;
use vstd::string::StringExecFns;
use crate::decimal::{decimal, u64_to_decimal};

verus! {

/// The frames after a block arrives: the block is appended when its frames
/// are as wide as the buffer's, and refused (the buffer stays) otherwise.
pub open spec fn appended<T>(buffer: Seq<Vec<T>>, block: Seq<Vec<T>>, channels: nat, block_channels: nat) -> Seq<Vec<T>> {
    if channels == block_channels {
        buffer + block
    } else {
        buffer
    }
}

/// The last `n` frames of `frames`; a window of no frames keeps them all.
pub open spec fn keep_last<T>(frames: Seq<Vec<T>>, n: nat) -> Seq<Vec<T>> {
    if n == 0 {
        frames
    } else {
        frames.subrange(frames.len() - n, frames.len() as int)
    }
}

fn append_block<T>(buffer: Vec<Vec<T>>, block: Vec<Vec<T>>, channels: usize, block_channels: usize) -> (all: Vec<Vec<T>>)
    ensures
        all@ == appended(buffer@, block@, channels as nat, block_channels as nat),
{
    let mut all = buffer;
    if channels == block_channels {
        let mut block = block;
        all.append(&mut block);
    }
    all
}

/// The window an analyzer sees after a block arrives: the block appended
/// when its frames are as wide as the window's (`channels`), then the last
/// `window_frames` frames kept; a window of no frames keeps every frame.
pub fn slide_window<T>(
    window: Vec<Vec<T>>,
    block: Vec<Vec<T>>,
    channels: usize,
    block_channels: usize,
    window_frames: usize,
) -> (next: Vec<Vec<T>>)
    requires
        window_frames <= appended(window@, block@, channels as nat, block_channels as nat).len(),
    ensures
        next@ == keep_last(appended(window@, block@, channels as nat, block_channels as nat), window_frames as nat),
{
    let mut all = append_block(window, block, channels, block_channels);
    if window_frames == 0 {
        all
    } else {
        let at = all.len() - window_frames;
        all.split_off(at)
    }
}

/// A window of `frames` silent frames of `channels` samples each, the
/// window an analyzer starts from.
pub fn silent_window<T: Copy>(frames: usize, channels: usize, silence: T) -> (window: Vec<Vec<T>>)
    ensures
        window.len() == frames,
        forall|i: int| 0 <= i < frames ==> (#[trigger] window@[i])@ == Seq::new(channels as nat, |k: int| silence),
{
    let mut window: Vec<Vec<T>> = Vec::new();
    while window.len() < frames
        invariant
            window.len() <= frames,
            forall|i: int| 0 <= i < window.len() ==> (#[trigger] window@[i])@ == Seq::new(
                channels as nat,
                |k: int| silence,
            ),
        decreases frames - window.len(),
    {
        let mut row: Vec<T> = Vec::new();
        while row.len() < channels
            invariant
                row.len() <= channels,
                forall|k: int| 0 <= k < row.len() ==> row@[k] == silence,
            decreases channels - row.len(),
        {
            row.push(silence);
        }
        assert(row@ =~= Seq::new(channels as nat, |k: int| silence));
        window.push(row);
    }
    window
}

/// The window after a run of blocks, each as wide as the window, arrives
/// (each step as `slide_window` takes it).
pub open spec fn window_after<T>(window: Seq<Vec<T>>, blocks: Seq<Seq<Vec<T>>>, w: nat) -> Seq<Vec<T>>
    decreases blocks.len(),
{
    if blocks.len() == 0 {
        window
    } else {
        window_after(keep_last(window + blocks[0], w), blocks.drop_first(), w)
    }
}

proof fn lemma_keep_last_twice<T>(s: Seq<Vec<T>>, b: Seq<Vec<T>>, w: nat)
    requires
        s.len() >= w,
    ensures
        keep_last(keep_last(s, w) + b, w) =~= keep_last(s + b, w),
{
}

/// The window an analyzer sees is always the last `w` frames of everything
/// it was given: after any run of blocks as wide as the window, starting
/// from a window of `w` frames (such as `silent_window`), the window is the
/// last `w` frames of the starting window followed by every frame
/// received, in order. (A window of no frames keeps every frame.)
pub proof fn lemma_window_is_latest_frames<T>(window: Seq<Vec<T>>, blocks: Seq<Seq<Vec<T>>>, w: nat)
    requires
        w == 0 || window.len() == w,
    ensures
        window_after(window, blocks, w) == keep_last(window + blocks.flatten(), w),
    decreases blocks.len(),
{
    if blocks.len() > 0 {
        let next = keep_last(window + blocks[0], w);
        lemma_window_is_latest_frames(next, blocks.drop_first(), w);
        lemma_keep_last_twice(window + blocks[0], blocks.drop_first().flatten(), w);
        assert(blocks.flatten() == blocks[0] + blocks.drop_first().flatten());
        assert(window + blocks[0] + blocks.drop_first().flatten() =~= window + blocks.flatten());
    } else {
        assert(window + blocks.flatten() =~= window);
        assert(keep_last(window, w) =~= window);
    }
}

/// The buffer cut into whole windows of `window_frames` frames, in order, and
/// the frames left over.
pub open spec fn cut_into_windows<T>(frames: Seq<Vec<T>>, window_frames: nat, windows: Seq<Vec<Vec<T>>>, rest: Seq<Vec<T>>) -> bool {
    &&& windows.len() == frames.len() / window_frames
    &&& forall|i: int| 0 <= i < windows.len() ==> (#[trigger] windows[i])@ == frames.subrange(
        i * window_frames,
        (i + 1) * window_frames,
    )
    &&& rest == frames.subrange((windows.len() * window_frames) as int, frames.len() as int)
}

/// The frames cut, from the oldest on, into whole windows of `w` frames,
/// and the frames left over.
pub open spec fn cut<T>(frames: Seq<Vec<T>>, w: nat) -> (Seq<Seq<Vec<T>>>, Seq<Vec<T>>)
    decreases frames.len(),
{
    if w == 0 || frames.len() < w {
        (Seq::empty(), frames)
    } else {
        let later = cut(frames.subrange(w as int, frames.len() as int), w);
        (seq![frames.subrange(0, w as int)] + later.0, later.1)
    }
}

/// The frames of each window, as sequences.
pub open spec fn window_views<T>(windows: Seq<Vec<Vec<T>>>) -> Seq<Seq<Vec<T>>> {
    windows.map_values(|v: Vec<Vec<T>>| v@)
}

/// After a block arrives, hand the analyzer every whole window of
/// `window_frames` frames, oldest first, and keep the frames left over. The
/// block is appended when its frames are as wide as the buffer's. The
/// buffer may hold at most `max_frames` frames (one second of samples)
/// once the block is in.
pub fn take_windows<T>(
    buffer: Vec<Vec<T>>,
    block: Vec<Vec<T>>,
    channels: usize,
    block_channels: usize,
    window_frames: usize,
    max_frames: usize,
) -> (res: (Vec<Vec<Vec<T>>>, Vec<Vec<T>>))
    requires
        window_frames > 0,
        appended(buffer@, block@, channels as nat, block_channels as nat).len() <= max_frames,
    ensures
        cut_into_windows(
            appended(buffer@, block@, channels as nat, block_channels as nat),
            window_frames as nat,
            res.0@,
            res.1@,
        ),
        window_views(res.0@) == cut(appended(buffer@, block@, channels as nat, block_channels as nat), window_frames as nat).0,
        res.1@ == cut(appended(buffer@, block@, channels as nat, block_channels as nat), window_frames as nat).1,
{
    let all = append_block(buffer, block, channels, block_channels);
    let ghost frames = all@;
    let ghost w = window_frames as int;
    let mut windows: Vec<Vec<Vec<T>>> = Vec::new();
    let mut rest = all;
    let ghost mut offset: int = 0;
    proof {
        vstd::arithmetic::mul::lemma_mul_basics(w);
        assert(window_views(windows@) =~= Seq::<Seq<Vec<T>>>::empty());
        assert(Seq::<Seq<Vec<T>>>::empty() + cut(rest@, w as nat).0 =~= cut(rest@, w as nat).0);
    }
    while rest.len() >= window_frames
        invariant
            window_frames > 0,
            w == window_frames,
            offset == windows.len() * w,
            0 <= offset <= frames.len(),
            rest@ == frames.subrange(offset, frames.len() as int),
            forall|i: int| 0 <= i < windows.len() ==> (#[trigger] windows@[i])@ == frames.subrange(i * w, (i + 1) * w),
            cut(frames, w as nat) == (window_views(windows@) + cut(rest@, w as nat).0, cut(rest@, w as nat).1),
        decreases rest.len(),
    {
        let ghost before = rest@;
        let ghost views_before = window_views(windows@);
        let tail = rest.split_off(window_frames);
        proof {
            let later = cut(before.subrange(w, before.len() as int), w as nat);
            assert(cut(before, w as nat) == (seq![before.subrange(0, w)] + later.0, later.1));
            assert(tail@ =~= before.subrange(w, before.len() as int));
            assert(rest@ =~= before.subrange(0, w));
            assert(window_views(windows@.push(rest)) =~= views_before.push(rest@));
            assert(views_before + (seq![rest@] + later.0) =~= views_before.push(rest@) + later.0);
        }
        proof {
            vstd::arithmetic::mul::lemma_mul_is_distributive_add_other_way(w, windows.len() as int, 1);
        }
        windows.push(rest);
        rest = tail;
        proof {
            offset = offset + w;
        }
    }
    proof {
        assert(cut(rest@, w as nat) == (Seq::<Seq<Vec<T>>>::empty(), rest@));
        assert(window_views(windows@) + Seq::<Seq<Vec<T>>>::empty() =~= window_views(windows@));
        let n = frames.len() as int;
        let k = windows.len() as int;
        assert(n - offset < w);
        vstd::arithmetic::div_mod::lemma_fundamental_div_mod(n, w);
        vstd::arithmetic::div_mod::lemma_div_is_ordered(offset, n, w);
        vstd::arithmetic::div_mod::lemma_div_multiples_vanish(k, w);
        vstd::arithmetic::mul::lemma_mul_is_commutative(k, w);
        vstd::arithmetic::mul::lemma_mul_is_distributive_add_other_way(w, k, 1);
        assert(n / w == k) by {
            vstd::arithmetic::div_mod::lemma_div_is_ordered(n, offset + w - 1, w);
            vstd::arithmetic::div_mod::lemma_fundamental_div_mod_converse(n, w, k, n - offset);
        }
    }
    (windows, rest)
}

/// The buffer lengths the spectrum of a sample buffer is computed for: the
/// powers of two from 2 to 4096.
pub open spec fn is_fft_size(n: nat) -> bool {
    n == 2 || n == 4 || n == 8 || n == 16 || n == 32 || n == 64 || n == 128 || n == 256 || n == 512
        || n == 1024 || n == 2048 || n == 4096
}

/// The message of a sample buffer whose spectrum cannot be computed.
pub open spec fn fft_size_message(n: nat) -> Seq<char> {
    "sample buffer length must be power of two between 2 and 4096, but is "@ + decimal(n)
}

/// A failure to compute the spectrum of a sample buffer.
#[derive(Debug, Clone)]
pub struct FFTError {
    msg: String,
}

impl View for FFTError {
    type V = Seq<char>;

    /// The description of the failure.
    closed spec fn view(&self) -> Seq<char> {
        self.msg@
    }
}

impl FFTError {
    /// A failure described by `msg`.
    pub fn new(msg: String) -> (e: FFTError)
        ensures
            e@ == msg@,
    {
        FFTError { msg }
    }

    /// The text the failure is shown as.
    pub fn message(&self) -> (m: String)
        ensures
            m@ == "fft error: "@ + self@,
    {
        let mut m = String::from_str("fft error: ");
        m.append(self.msg.as_str());
        m
    }
}

/// Check that the spectrum of a buffer of `len` samples can be computed.
pub fn check_fft_size(len: usize) -> (res: Result<(), FFTError>)
    ensures
        is_fft_size(len as nat) <==> res is Ok,
        res matches Err(e) ==> e@ == fft_size_message(len as nat),
{
    let mut size: usize = 2;
    while size <= 4096
        invariant
            2 <= size <= 8192,
            size == 2 || size == 4 || size == 8 || size == 16 || size == 32 || size == 64 || size == 128
                || size == 256 || size == 512 || size == 1024 || size == 2048 || size == 4096 || size == 8192,
            forall|k: nat| is_fft_size(k) && k < size ==> k != len,
        decreases 8192 - size,
    {
        if len == size {
            return Ok(());
        }
        size = size * 2;
    }
    let mut m = String::from_str("sample buffer length must be power of two between 2 and 4096, but is ");
    m.append(u64_to_decimal(len as u64).as_str());
    Err(FFTError::new(m))
}

proof fn lemma_cut_parts<T>(frames: Seq<Vec<T>>, w: nat)
    requires
        w > 0,
    ensures
        cut(frames, w).0.flatten() + cut(frames, w).1 =~= frames,
        forall|i: int| 0 <= i < cut(frames, w).0.len() ==> (#[trigger] cut(frames, w).0[i]).len() == w,
        cut(frames, w).1.len() < w,
    decreases frames.len(),
{
    if frames.len() >= w {
        let later_frames = frames.subrange(w as int, frames.len() as int);
        lemma_cut_parts(later_frames, w);
        let later = cut(later_frames, w);
        let ws = seq![frames.subrange(0, w as int)] + later.0;
        assert(ws.drop_first() =~= later.0);
        assert(ws.flatten() == frames.subrange(0, w as int) + later.0.flatten());
        assert(frames.subrange(0, w as int) + later.0.flatten() + later.1 =~= frames.subrange(0, w as int)
            + (later.0.flatten() + later.1));
        assert(frames =~= frames.subrange(0, w as int) + later_frames);
    }
}

/// The windows handed out over a run of blocks, each as wide as the buffer,
/// starting from the frames `pending` (each step as `take_windows` takes
/// it).
pub open spec fn windows_run<T>(pending: Seq<Vec<T>>, blocks: Seq<Seq<Vec<T>>>, w: nat) -> Seq<Seq<Vec<T>>>
    decreases blocks.len(),
{
    if blocks.len() == 0 {
        Seq::empty()
    } else {
        let c = cut(pending + blocks[0], w);
        c.0 + windows_run(c.1, blocks.drop_first(), w)
    }
}

/// The frames left pending after a run of blocks (see `windows_run`).
pub open spec fn pending_after<T>(pending: Seq<Vec<T>>, blocks: Seq<Seq<Vec<T>>>, w: nat) -> Seq<Vec<T>>
    decreases blocks.len(),
{
    if blocks.len() == 0 {
        pending
    } else {
        pending_after(cut(pending + blocks[0], w).1, blocks.drop_first(), w)
    }
}

/// Over any run of blocks, the windows handed to the analyzer are
/// consecutive runs of exactly `w` frames of the received stream, in order,
/// none skipped and none overlapping: together with the frames still
/// pending they are the frames pending at the start followed by every
/// frame received. Fewer than `w` frames stay pending.
pub proof fn lemma_windows_cover_the_stream<T>(pending: Seq<Vec<T>>, blocks: Seq<Seq<Vec<T>>>, w: nat)
    requires
        w > 0,
        pending.len() < w,
    ensures
        windows_run(pending, blocks, w).flatten() + pending_after(pending, blocks, w) =~= pending + blocks.flatten(),
        forall|i: int| 0 <= i < windows_run(pending, blocks, w).len() ==> (#[trigger] windows_run(
            pending,
            blocks,
            w,
        )[i]).len() == w,
        pending_after(pending, blocks, w).len() < w,
    decreases blocks.len(),
{
    if blocks.len() > 0 {
        let all = pending + blocks[0];
        let c = cut(all, w);
        let rest_blocks = blocks.drop_first();
        lemma_cut_parts(all, w);
        lemma_windows_cover_the_stream(c.1, rest_blocks, w);
        let later = windows_run(c.1, rest_blocks, w);
        vstd::seq_lib::lemma_flatten_concat(c.0, later);
        assert(blocks.flatten() == blocks[0] + rest_blocks.flatten());
        assert(c.0.flatten() + later.flatten() + pending_after(c.1, rest_blocks, w) =~= c.0.flatten() + (
        later.flatten() + pending_after(c.1, rest_blocks, w)));
        assert(c.0.flatten() + (c.1 + rest_blocks.flatten()) =~= (c.0.flatten() + c.1) + rest_blocks.flatten());
        assert(pending + blocks[0] + rest_blocks.flatten() =~= pending + blocks.flatten());
        let ws = windows_run(pending, blocks, w);
        assert forall|i: int| 0 <= i < ws.len() implies (#[trigger] ws[i]).len() == w by {
            if i < c.0.len() {
                assert(ws[i] == c.0[i]);
            } else {
                assert(ws[i] == later[i - c.0.len()]);
            }
        }
    }
}

} // verus!
