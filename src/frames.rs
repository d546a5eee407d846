//! Lossy frame selection: raw capture bytes are cut into whole frames, and
//! only the newest whole frame is painted; older ones are dropped and
//! counted, so a slow terminal never sees stale pictures.
use vstd::prelude::*;
use crate::encode::{frame_to_rgb_ansi, painted_rgb};

verus! {

/// The bytes of a sequence of frames, one after the other.
pub open spec fn flatten(frames: Seq<Seq<u8>>) -> Seq<u8>
    decreases frames.len(),
{
    if frames.len() == 0 {
        seq![]
    } else {
        flatten(frames.drop_last()) + frames.last()
    }
}

pub ghost struct PipelineView {
    pub width: nat,
    pub height: nat,
    /// Bytes after the last whole frame.
    pub pending: Seq<u8>,
    /// Whole frames not yet painted, oldest first.
    pub held: Seq<Seq<u8>>,
    /// How many whole frames were dropped unpainted.
    pub dropped: nat,
}

impl PipelineView {
    pub open spec fn frame_size(self) -> nat {
        self.width * self.height * 3
    }

    pub open spec fn wf(self) -> bool {
        &&& 0 < self.frame_size() <= usize::MAX
        &&& self.height % 2 == 0
        &&& self.pending.len() < self.frame_size()
        &&& forall|i: int| 0 <= i < self.held.len() ==> self.held[i].len() == self.frame_size()
    }
}

/// The frames of one capture at one size, from raw bytes to painted output.
pub struct RenderPipeline {
    width: usize,
    height: usize,
    frame_size: usize,
    pending: Vec<u8>,
    held: Vec<Vec<u8>>,
    dropped: u64,
}

impl View for RenderPipeline {
    type V = PipelineView;

    closed spec fn view(&self) -> PipelineView {
        PipelineView {
            width: self.width as nat,
            height: self.height as nat,
            pending: self.pending@,
            held: self.held@.map_values(|f: Vec<u8>| f@),
            dropped: self.dropped as nat,
        }
    }
}

impl RenderPipeline {
    closed spec fn inv(&self) -> bool {
        &&& self.frame_size == self@.frame_size()
        &&& self@.wf()
    }

    pub closed spec fn well_formed(&self) -> bool {
        self.inv()
    }

    /// A pipeline for frames of `width` × `height` pixels, three bytes each.
    pub fn new(width: usize, height: usize) -> (r: RenderPipeline)
        requires
            width > 0,
            height > 0,
            height % 2 == 0,
            width * height * 3 <= usize::MAX,
        ensures
            r.well_formed(),
            r@.width == width,
            r@.height == height,
            r@.pending.len() == 0,
            r@.held.len() == 0,
            r@.dropped == 0,
    {
        proof {
            assert(width * height * 3 > 0) by (nonlinear_arith)
                requires
                    width > 0,
                    height > 0,
            ;
        }
        let r = RenderPipeline {
            width,
            height,
            frame_size: width * height * 3,
            pending: Vec::new(),
            held: Vec::new(),
            dropped: 0,
        };
        assert(r@.held =~= Seq::<Seq<u8>>::empty());
        r
    }

    /// Takes bytes read from the capture. Whole frames join the held ones in
    /// order; the rest stays pending.
    pub fn feed(&mut self, bytes: &[u8])
        requires
            old(self).well_formed(),
        ensures
            final(self).well_formed(),
            flatten(final(self)@.held) + final(self)@.pending == flatten(old(self)@.held) + old(self)@.pending
                + bytes@,
            final(self)@.held.take(old(self)@.held.len() as int) == old(self)@.held,
            final(self)@.width == old(self)@.width,
            final(self)@.height == old(self)@.height,
            final(self)@.dropped == old(self)@.dropped,
    {
        let ghost start = flatten(old(self)@.held) + old(self)@.pending;
        let mut i: usize = 0;
        while i < bytes.len()
            invariant
                self.inv(),
                i <= bytes@.len(),
                flatten(self@.held) + self@.pending == start + bytes@.take(i as int),
                self@.held.take(old(self)@.held.len() as int) == old(self)@.held,
                self@.held.len() >= old(self)@.held.len(),
                self@.width == old(self)@.width,
                self@.height == old(self)@.height,
                self@.dropped == old(self)@.dropped,
            decreases bytes@.len() - i,
        {
            let ghost held_before = self@.held;
            let ghost pending_before = self@.pending;
            self.pending.push(bytes[i]);
            assert(bytes@.take(i + 1) =~= bytes@.take(i as int).push(bytes@[i as int]));
            if self.pending.len() == self.frame_size {
                let mut frame: Vec<u8> = Vec::new();
                core::mem::swap(&mut frame, &mut self.pending);
                let ghost whole = frame@;
                self.held.push(frame);
                assert(self@.held.drop_last() =~= held_before);
                assert(self@.held.last() == whole);
                assert(whole =~= pending_before.push(bytes@[i as int]));
                assert(flatten(self@.held) == flatten(held_before) + whole);
                assert(self@.held.take(old(self)@.held.len() as int) =~= old(self)@.held);
                assert(forall|k: int| 0 <= k < self@.held.len() ==> self@.held[k].len() == self@.frame_size()) by {
                    assert forall|k: int| 0 <= k < self@.held.len() implies self@.held[k].len() == self@.frame_size() by {
                        if k < held_before.len() {
                            assert(self@.held[k] == held_before[k]);
                        }
                    }
                }
            } else {
                assert(self@.held =~= held_before);
            }
            assert(flatten(self@.held) + self@.pending =~= flatten(held_before) + pending_before.push(bytes@[i as int]));
            assert(flatten(held_before) + pending_before.push(bytes@[i as int])
                =~= (flatten(held_before) + pending_before).push(bytes@[i as int]));
            i += 1;
            assert(flatten(self@.held) + self@.pending =~= start + bytes@.take(i as int));
        }
        assert(bytes@.take(i as int) =~= bytes@);
    }

    /// Hands out the newest held frame and drops the older ones, adding
    /// their number to the drop count (which stops at the largest `u64`).
    /// With no whole frame held, nothing changes.
    pub fn take_newest(&mut self) -> (r: Option<Vec<u8>>)
        requires
            old(self).well_formed(),
        ensures
            final(self).well_formed(),
            final(self)@.width == old(self)@.width,
            final(self)@.height == old(self)@.height,
            final(self)@.pending == old(self)@.pending,
            old(self)@.held.len() == 0 ==> r is None && final(self)@ == old(self)@,
            old(self)@.held.len() > 0 ==> {
                &&& r is Some
                &&& r.unwrap()@ == old(self)@.held.last()
                &&& final(self)@.held.len() == 0
                &&& final(self)@.dropped == if old(self)@.dropped + old(self)@.held.len() - 1 > u64::MAX {
                    u64::MAX as nat
                } else {
                    (old(self)@.dropped + old(self)@.held.len() - 1) as nat
                }
            },
    {
        match self.held.pop() {
            None => {
                assert(self@.held =~= old(self)@.held);
                None
            },
            Some(frame) => {
                let older = self.held.len();
                self.held.clear();
                self.dropped = self.dropped.saturating_add(older as u64);
                assert(self@.held =~= Seq::<Seq<u8>>::empty());
                Some(frame)
            },
        }
    }

    /// Paints the newest held frame, if there is one, dropping the older ones.
    pub fn next_painted(&mut self) -> (r: Option<Vec<u8>>)
        requires
            old(self).well_formed(),
        ensures
            final(self).well_formed(),
            r is Some <==> old(self)@.held.len() > 0,
            r is Some ==> r.unwrap()@ == painted_rgb(old(self)@.held.last(), old(self)@.height, old(self)@.width, 0, 0),
            final(self)@.held.len() == 0,
            final(self)@.pending == old(self)@.pending,
    {
        match self.take_newest() {
            None => None,
            Some(frame) => Some(frame_to_rgb_ansi(&frame, self.height, self.width, 0, 0)),
        }
    }

    /// Number of frames dropped unpainted so far.
    pub fn dropped(&self) -> (r: u64)
        ensures
            r == self@.dropped,
    {
        self.dropped
    }

    /// Bytes of one whole frame.
    pub fn frame_size(&self) -> (r: usize)
        requires
            self.well_formed(),
        ensures
            r == self@.frame_size(),
    {
        self.frame_size
    }
}

} // verus!
