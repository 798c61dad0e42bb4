use vstd::prelude::*;
use crate::generator::{DataGenerator, BLOCK_SIZE};
use crate::options::{ShredError, ShredOptions};
use crate::plan::{pass_plan, plan_passes, PassKind};

verus! {

/// What a file holds after `data` was written over it from offset 0.
pub open spec fn overwritten(before: Seq<u8>, data: Seq<u8>) -> Seq<u8> {
    data + before.skip(data.len() as int)
}

/// What a file that held `before` holds after each pass in `history` wrote
/// its bytes over it, in order.
pub open spec fn image_after(before: Seq<u8>, history: Seq<Seq<u8>>) -> Seq<u8>
    decreases history.len(),
{
    if history.len() == 0 {
        before
    } else {
        overwritten(image_after(before, history.drop_last()), history.last())
    }
}

/// `n` zero bytes.
pub open spec fn zeros(n: nat) -> Seq<u8> {
    Seq::new(n, |i: int| 0u8)
}

pub open spec fn all_zero(s: Seq<u8>) -> bool {
    forall|i: int| 0 <= i < s.len() ==> s[i] == 0
}

/// The length of the next block: what is left of the range, at most a block.
pub open spec fn chunk_for(len: nat, pos: nat) -> nat {
    if len - pos < BLOCK_SIZE { (len - pos) as nat } else { BLOCK_SIZE as nat }
}

/// One pass over the byte range `[0, len)` of a file: a write cursor that
/// moves from 0 to `len`, one block at a time.
///
/// The caller asks for a block with `prepare_block`, writes the first
/// `chunk_len` bytes of `block` at the file's current offset, and reports how
/// many bytes the write took with `record_written`. A short write is followed
/// by a fresh block for the rest of the range.
pub struct OverwritePass {
    kind: PassKind,
    len: usize,
    pos: usize,
    block: [u8; BLOCK_SIZE],
    chunk: usize,
    /// The bytes written so far in this pass, from offset 0.
    written: Ghost<Seq<u8>>,
}

impl OverwritePass {
    pub closed spec fn spec_kind(&self) -> PassKind {
        self.kind
    }

    pub closed spec fn spec_len(&self) -> nat {
        self.len as nat
    }

    pub closed spec fn spec_pos(&self) -> nat {
        self.pos as nat
    }

    /// The bytes handed out by the pending block, or empty when none is.
    pub closed spec fn spec_pending(&self) -> Seq<u8> {
        self.block@.take(self.chunk as int)
    }

    /// The bytes confirmed as written in this pass, from offset 0.
    pub closed spec fn spec_written(&self) -> Seq<u8> {
        self.written@
    }

    pub closed spec fn wf(&self) -> bool {
        &&& self.pos <= self.len
        &&& self.written@.len() == self.pos
        &&& self.chunk <= BLOCK_SIZE
        &&& self.pos + self.chunk <= self.len
        &&& (self.kind == PassKind::Zero ==> all_zero(self.written@))
        &&& (self.kind == PassKind::Zero ==> all_zero(self.block@.take(self.chunk as int)))
    }

    pub open spec fn spec_complete(&self) -> bool {
        self.spec_pos() == self.spec_len()
    }

    /// A pass of `kind` over the first `len` bytes, with the cursor at 0.
    pub fn new(kind: PassKind, len: usize) -> (r: Self)
        ensures
            r.wf(),
            r.spec_kind() == kind,
            r.spec_len() == len,
            r.spec_pos() == 0,
            r.spec_written() == Seq::<u8>::empty(),
            r.spec_pending() == Seq::<u8>::empty(),
    {
        let r = OverwritePass { kind, len, pos: 0, block: DataGenerator::zero(), chunk: 0, written: Ghost(Seq::empty()) };
        assert(r.block@.take(0) =~= Seq::<u8>::empty());
        r
    }

    pub fn kind(&self) -> (r: PassKind)
        ensures
            r == self.spec_kind(),
    {
        self.kind
    }

    /// Whether the cursor reached the end of the range.
    pub fn is_complete(&self) -> (r: bool)
        ensures
            r == self.spec_complete(),
    {
        self.pos == self.len
    }

    /// The offset of the cursor.
    pub fn position(&self) -> (r: usize)
        ensures
            r == self.spec_pos(),
    {
        self.pos
    }

    /// The buffer of the pending block; its first `chunk_len` bytes are to be written.
    pub fn block(&self) -> (r: &[u8; BLOCK_SIZE])
        requires
            self.wf(),
        ensures
            r@.take(self.spec_pending().len() as int) == self.spec_pending(),
    {
        assert(self.block@.take(self.chunk as int).len() == self.chunk);
        assert(self.block@.take(self.chunk as int).take(self.chunk as int) =~= self.block@.take(self.chunk as int));
        &self.block
    }

    /// How many bytes of the pending block are to be written; 0 when none is pending.
    pub fn chunk_len(&self) -> (r: usize)
        requires
            self.wf(),
        ensures
            r == self.spec_pending().len(),
    {
        self.chunk
    }

    /// Fills the block for the rest of the range: as many bytes as are left,
    /// at most a block; zeros for a zero pass, fresh random bytes for a random
    /// pass. Fails only where the random source fails, leaving the cursor.
    pub fn prepare_block(&mut self) -> (r: Result<(), ShredError>)
        requires
            old(self).wf(),
            !old(self).spec_complete(),
        ensures
            final(self).wf(),
            final(self).spec_kind() == old(self).spec_kind(),
            final(self).spec_len() == old(self).spec_len(),
            final(self).spec_pos() == old(self).spec_pos(),
            final(self).spec_written() == old(self).spec_written(),
            r is Ok ==> final(self).spec_pending().len() == chunk_for(old(self).spec_len(), old(self).spec_pos()),
            r is Ok && old(self).spec_kind() == PassKind::Zero ==> final(self).spec_pending() == zeros(
                chunk_for(old(self).spec_len(), old(self).spec_pos()),
            ),
            r is Err ==> r == Err::<(), ShredError>(ShredError::IoFailure) && old(self).spec_kind() == PassKind::Random,
    {
        let left = self.len - self.pos;
        let n: usize = if left < BLOCK_SIZE { left } else { BLOCK_SIZE };
        match self.kind {
            PassKind::Zero => {
                self.block = DataGenerator::zero();
            },
            PassKind::Random => {
                match DataGenerator::random() {
                    Some(b) => {
                        self.block = b;
                    },
                    None => {
                        self.chunk = 0;
                        assert(self.block@.take(0) =~= Seq::<u8>::empty());
                        return Err(ShredError::IoFailure);
                    },
                }
            },
        }
        self.chunk = n;
        if self.kind == PassKind::Zero {
            assert(self.block@.take(n as int) =~= zeros(n as nat));
        }
        Ok(())
    }

    /// Records that a write took the first `n` bytes of the pending block.
    /// Refuses a count of 0 or one larger than the block, which no write that
    /// made progress reports, and changes nothing then.
    pub fn record_written(&mut self, n: usize) -> (r: Result<(), ShredError>)
        requires
            old(self).wf(),
        ensures
            final(self).wf(),
            final(self).spec_kind() == old(self).spec_kind(),
            final(self).spec_len() == old(self).spec_len(),
            (r is Ok) == (0 < n <= old(self).spec_pending().len()),
            r is Ok ==> final(self).spec_pos() == old(self).spec_pos() + n,
            r is Ok ==> final(self).spec_written() == old(self).spec_written() + old(self).spec_pending().take(n as int),
            r is Ok ==> final(self).spec_pending() == Seq::<u8>::empty(),
            r is Err ==> r == Err::<(), ShredError>(ShredError::IoFailure) && *final(self) == *old(self),
    {
        if n == 0 || n > self.chunk {
            return Err(ShredError::IoFailure);
        }
        let ghost taken = self.block@.take(self.chunk as int).take(n as int);
        assert(taken =~= self.block@.take(n as int));
        self.written = Ghost(self.written@ + taken);
        self.pos = self.pos + n;
        self.chunk = 0;
        assert(self.block@.take(0) =~= Seq::<u8>::empty());
        Ok(())
    }
}


/// The whole overwrite of one file: the passes of the plan, one after the
/// other, each over the length the file had when the shred began.
///
/// The caller drives the current pass through `prepare_block`, `block`,
/// `chunk_len` and `record_written`; once `pass_complete` holds it flushes the
/// file durably and calls `finish_pass`, until `is_done`.
pub struct FileShred {
    passes: Vec<PassKind>,
    next: usize,
    len: usize,
    current: OverwritePass,
    /// The bytes that each finished pass wrote, in order.
    history: Ghost<Seq<Seq<u8>>>,
}

impl FileShred {
    pub closed spec fn spec_plan(&self) -> Seq<PassKind> {
        self.passes@
    }

    pub closed spec fn spec_len(&self) -> nat {
        self.len as nat
    }

    /// The bytes that each finished pass wrote, in order.
    pub closed spec fn spec_history(&self) -> Seq<Seq<u8>> {
        self.history@
    }

    /// The pass in progress.
    pub closed spec fn spec_current(&self) -> OverwritePass {
        self.current
    }

    pub open spec fn spec_done(&self) -> bool {
        self.spec_history().len() == self.spec_plan().len()
    }

    /// The pass in progress, while there is one, is the next pass of the
    /// plan, spans the file's length, and has its cursor within it.
    pub open spec fn current_in_range(&self) -> bool {
        !self.spec_done() ==> {
            &&& self.spec_current().spec_kind() == self.spec_plan()[self.spec_history().len() as int]
            &&& self.spec_current().spec_len() == self.spec_len()
            &&& self.spec_current().spec_pos() <= self.spec_len()
        }
    }

    pub closed spec fn wf(&self) -> bool {
        &&& self.history@.len() == self.next
        &&& self.next <= self.passes@.len()
        &&& self.passes@.len() <= 2 * 255
        &&& forall|k: int| 0 <= k < self.next ==> (#[trigger] self.history@[k]).len() == self.len
        &&& forall|k: int|
            0 <= k < self.next && self.passes@[k] == PassKind::Zero ==> all_zero(#[trigger] self.history@[k])
        &&& self.next < self.passes@.len() ==> {
            &&& self.current.wf()
            &&& self.current.spec_kind() == self.passes@[self.next as int]
            &&& self.current.spec_len() == self.len
        }
    }

    /// The overwrite of a file of `len` bytes with the passes that `options`
    /// ask for, none of them begun.
    pub fn new(options: &ShredOptions, len: usize) -> (r: Self)
        ensures
            r.wf(),
            r.spec_plan() == pass_plan(*options),
            r.spec_len() == len,
            r.spec_history() == Seq::<Seq<u8>>::empty(),
            r.current_in_range(),
            r.spec_plan().len() > 0 ==> r.spec_current().spec_pos() == 0,
            r.spec_plan().len() > 0 ==> r.spec_current().spec_pending() == Seq::<u8>::empty(),
    {
        let passes = plan_passes(options);
        let kind = if passes.len() > 0 { passes[0] } else { PassKind::Zero };
        FileShred { passes, next: 0, len, current: OverwritePass::new(kind, len), history: Ghost(Seq::empty()) }
    }

    /// Whether every pass of the plan has finished.
    pub fn is_done(&self) -> (r: bool)
        requires
            self.wf(),
        ensures
            r == self.spec_done(),
    {
        self.next == self.passes.len()
    }

    /// The number of passes finished so far.
    pub fn passes_finished(&self) -> (r: usize)
        requires
            self.wf(),
        ensures
            r == self.spec_history().len(),
    {
        self.next
    }

    /// The number of passes of the plan.
    pub fn total_passes(&self) -> (r: usize)
        ensures
            r == self.spec_plan().len(),
    {
        self.passes.len()
    }

    /// The kind of the pass in progress.
    pub fn current_kind(&self) -> (r: PassKind)
        requires
            self.wf(),
            !self.spec_done(),
        ensures
            r == self.spec_plan()[self.spec_history().len() as int],
    {
        self.current.kind()
    }

    /// Whether the pass in progress has written the whole range.
    pub fn pass_complete(&self) -> (r: bool)
        requires
            self.wf(),
            !self.spec_done(),
        ensures
            r == self.spec_current().spec_complete(),
    {
        self.current.is_complete()
    }

    /// The buffer of the pending block of the pass in progress.
    pub fn block(&self) -> (r: &[u8; BLOCK_SIZE])
        requires
            self.wf(),
            !self.spec_done(),
        ensures
            r@.take(self.spec_current().spec_pending().len() as int) == self.spec_current().spec_pending(),
    {
        self.current.block()
    }

    /// How many bytes of the pending block are to be written.
    pub fn chunk_len(&self) -> (r: usize)
        requires
            self.wf(),
            !self.spec_done(),
        ensures
            r == self.spec_current().spec_pending().len(),
    {
        self.current.chunk_len()
    }

    /// Prepares the next block of the pass in progress (see `OverwritePass::prepare_block`).
    pub fn prepare_block(&mut self) -> (r: Result<(), ShredError>)
        requires
            old(self).wf(),
            !old(self).spec_done(),
            !old(self).spec_current().spec_complete(),
        ensures
            final(self).wf(),
            final(self).spec_plan() == old(self).spec_plan(),
            final(self).spec_len() == old(self).spec_len(),
            final(self).spec_history() == old(self).spec_history(),
            final(self).spec_current().spec_pos() == old(self).spec_current().spec_pos(),
            final(self).spec_current().spec_written() == old(self).spec_current().spec_written(),
            final(self).current_in_range(),
            r is Ok ==> final(self).spec_current().spec_pending().len() == chunk_for(
                old(self).spec_len(),
                old(self).spec_current().spec_pos(),
            ),
            r is Ok && old(self).spec_plan()[old(self).spec_history().len() as int] == PassKind::Zero
                ==> final(self).spec_current().spec_pending() == zeros(
                chunk_for(old(self).spec_len(), old(self).spec_current().spec_pos()),
            ),
            r is Err ==> r == Err::<(), ShredError>(ShredError::IoFailure)
                && old(self).spec_plan()[old(self).spec_history().len() as int] == PassKind::Random,
    {
        self.current.prepare_block()
    }

    /// Records a write of `n` bytes of the pending block (see `OverwritePass::record_written`).
    pub fn record_written(&mut self, n: usize) -> (r: Result<(), ShredError>)
        requires
            old(self).wf(),
            !old(self).spec_done(),
        ensures
            final(self).wf(),
            final(self).spec_plan() == old(self).spec_plan(),
            final(self).spec_len() == old(self).spec_len(),
            final(self).spec_history() == old(self).spec_history(),
            (r is Ok) == (0 < n <= old(self).spec_current().spec_pending().len()),
            r is Ok ==> final(self).spec_current().spec_pos() == old(self).spec_current().spec_pos() + n,
            final(self).current_in_range(),
            r is Ok ==> final(self).spec_current().spec_written() == old(self).spec_current().spec_written()
                + old(self).spec_current().spec_pending().take(n as int),
            r is Ok ==> final(self).spec_current().spec_pending() == Seq::<u8>::empty(),
            r is Err ==> r == Err::<(), ShredError>(ShredError::IoFailure) && *final(self) == *old(self),
    {
        self.current.record_written(n)
    }

    /// Closes the pass in progress, whose bytes now cover the whole range,
    /// and begins the next one of the plan, if any.
    pub fn finish_pass(&mut self)
        requires
            old(self).wf(),
            !old(self).spec_done(),
            old(self).spec_current().spec_complete(),
        ensures
            final(self).wf(),
            final(self).spec_plan() == old(self).spec_plan(),
            final(self).spec_len() == old(self).spec_len(),
            final(self).spec_history() == old(self).spec_history().push(old(self).spec_current().spec_written()),
            final(self).current_in_range(),
            !final(self).spec_done() ==> final(self).spec_current().spec_pos() == 0,
            !final(self).spec_done() ==> final(self).spec_current().spec_pending() == Seq::<u8>::empty(),
    {
        let ghost done = self.current.spec_written();
        self.history = Ghost(self.history@.push(done));
        self.next = self.next + 1;
        if self.next < self.passes.len() {
            self.current = OverwritePass::new(self.passes[self.next], self.len);
        }
        assert forall|k: int| 0 <= k < self.next implies (#[trigger] self.history@[k]).len() == self.len by {
            if k < self.next - 1 {
                assert(self.history@[k] == old(self).history@[k]);
            }
        }
    }
}

/// Every finished pass covers the whole range, so the file keeps its length
/// and holds what the last pass wrote.
pub proof fn lemma_image_after_full_passes(before: Seq<u8>, history: Seq<Seq<u8>>)
    requires
        forall|k: int| 0 <= k < history.len() ==> (#[trigger] history[k]).len() == before.len(),
    ensures
        image_after(before, history).len() == before.len(),
        history.len() > 0 ==> image_after(before, history) == history.last(),
    decreases history.len(),
{
    if history.len() > 0 {
        let rest = history.drop_last();
        assert forall|k: int| 0 <= k < rest.len() implies (#[trigger] rest[k]).len() == before.len() by {
            assert(rest[k] == history[k]);
        }
        lemma_image_after_full_passes(before, rest);
        let prev = image_after(before, rest);
        assert(prev.skip(history.last().len() as int) =~= Seq::<u8>::empty());
        assert(overwritten(prev, history.last()) =~= history.last());
    }
}

/// Each finished pass wrote the whole range of the file, from offset 0.
pub proof fn lemma_finished_passes_cover_file(s: FileShred)
    requires
        s.wf(),
    ensures
        forall|k: int| 0 <= k < s.spec_history().len() ==> (#[trigger] s.spec_history()[k]).len() == s.spec_len(),
        s.spec_history().len() <= s.spec_plan().len(),
{
}

/// Once every pass of a non-empty plan has finished, the file holds exactly
/// the bytes of the last pass, whatever it held before: nothing of the
/// original contents remains.
pub proof fn lemma_finished_shred_holds_last_pass(s: FileShred, before: Seq<u8>)
    requires
        s.wf(),
        s.spec_done(),
        before.len() == s.spec_len(),
        s.spec_plan().len() > 0,
    ensures
        image_after(before, s.spec_history()) == s.spec_history().last(),
        image_after(before, s.spec_history()).len() == before.len(),
{
    lemma_image_after_full_passes(before, s.spec_history());
}

/// Two files of the same length, shredded with passes that wrote the same
/// bytes, end up identical once a non-empty plan has finished.
pub proof fn lemma_shred_forgets_original(s: FileShred, first: Seq<u8>, second: Seq<u8>)
    requires
        s.wf(),
        s.spec_done(),
        first.len() == s.spec_len(),
        second.len() == s.spec_len(),
        s.spec_plan().len() > 0,
    ensures
        image_after(first, s.spec_history()) == image_after(second, s.spec_history()),
{
    lemma_finished_shred_holds_last_pass(s, first);
    lemma_finished_shred_holds_last_pass(s, second);
}

/// A shred keeps the file's length: whatever the file held, once every pass
/// of the plan has finished it holds exactly as many bytes as before.
pub proof fn lemma_shred_keeps_length(s: FileShred, before: Seq<u8>)
    requires
        s.wf(),
        s.spec_done(),
        before.len() == s.spec_len(),
    ensures
        image_after(before, s.spec_history()).len() == before.len(),
{
    lemma_image_after_full_passes(before, s.spec_history());
}

/// A plan that ends with a zero pass leaves any file of length `L` as `L`
/// zero bytes.
pub proof fn lemma_zero_pass_last_clears(s: FileShred, before: Seq<u8>)
    requires
        s.wf(),
        s.spec_done(),
        before.len() == s.spec_len(),
        s.spec_plan().len() > 0,
        s.spec_plan().last() == PassKind::Zero,
    ensures
        image_after(before, s.spec_history()) == zeros(before.len()),
{
    lemma_image_after_full_passes(before, s.spec_history());
    let last = s.spec_history().last();
    assert(last == s.spec_history()[s.spec_history().len() - 1]);
    assert(last =~= zeros(before.len()));
}

/// Shredding a file that already holds only zeros, with a plan that is empty
/// or ends with a zero pass, leaves it as it was: the same length, all zeros.
pub proof fn lemma_reshred_zero_file(s: FileShred, len: nat)
    requires
        s.wf(),
        s.spec_done(),
        s.spec_len() == len,
        s.spec_plan().len() == 0 || s.spec_plan().last() == PassKind::Zero,
    ensures
        image_after(zeros(len), s.spec_history()) == zeros(len),
{
    if s.spec_plan().len() > 0 {
        lemma_zero_pass_last_clears(s, zeros(len));
    }
}

/// With the default numbers of passes, and any other plan with a zero pass,
/// the plan ends with a zero pass.
pub proof fn lemma_plan_ends_with_zero(options: ShredOptions)
    requires
        options.zero_passes > 0,
    ensures
        pass_plan(options).len() > 0,
        pass_plan(options).last() == PassKind::Zero,
{
}

} // verus!
