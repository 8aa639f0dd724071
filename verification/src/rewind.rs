use std::collections::VecDeque;
use std::sync::mpsc::{Receiver, SyncSender};

use vstd::prelude::*;

use crate::channels::{offer_to_worker, take_ready};
use crate::text::{append_decimal, decimal};

verus! {

/// Why a compressed rewind snapshot could not be restored.
#[derive(Debug, Clone, Copy, PartialEq, Eq)]
pub enum SnapshotErrorKind {
    OutputTooSmall { expected: usize, actual: usize },
    LiteralOutOfBounds,
    ExpectedAnotherByte,
    OffsetZero,
    OffsetOutOfBounds,
    /// A kind of error that this library does not know by name.
    Unrecognized,
    /// The compressed bytes are too long to be decoded without overflowing a
    /// literal or match length.
    TooLarge,
}

/// A snapshot error: its kind and the message to show.
#[derive(Debug, Clone, PartialEq, Eq)]
pub struct SnapshotError {
    pub kind: SnapshotErrorKind,
    pub message: String,
}

/// `lz4_flex` adds the bytes of a literal or match length into a `u32`, each
/// 0xFF byte continuing the length, and then adds up to 19 to it. A run of fewer
/// than this many 0xFF bytes keeps those sums within `u32::MAX`.
pub const FF_RUN_LIMIT: usize = 16843008;

/// Machines of at most this many bytes always compress to snapshots that
/// `lz4_flex` decodes safely.
pub const SAFE_MACHINE_LEN: usize = 15000000;

/// The machine size that a compressed snapshot declares in its first four bytes
/// (a little-endian `u32`).
pub open spec fn declared_size(data: Seq<u8>) -> int {
    data[0] as int + data[1] as int * 0x100 + data[2] as int * 0x10000 + data[3] as int * 0x1000000
}

/// How many 0xFF bytes `s` ends with.
pub open spec fn trailing_ff(s: Seq<u8>) -> nat
    decreases s.len(),
{
    if s.len() > 0 && s.last() == 0xFF {
        trailing_ff(s.drop_last()) + 1
    } else {
        0
    }
}

/// Whether `data` holds no run of `FF_RUN_LIMIT` consecutive 0xFF bytes.
pub open spec fn short_ff_runs(data: Seq<u8>) -> bool {
    forall|i: int| 0 <= i <= data.len() ==> #[trigger] trailing_ff(data.take(i)) < FF_RUN_LIMIT
}

/// Whether `lz4_flex` can decode `data` without panicking: no length field can
/// overflow its `u32`, the output buffer it declares can be allocated (`vec!`
/// refuses more than `isize::MAX` bytes), and the output position plus a length
/// fits a `usize` (which only a 32-bit target can miss).
pub open spec fn decodable(data: Seq<u8>) -> bool {
    &&& short_ff_runs(data)
    &&& data.len() >= 4 ==> declared_size(data) <= isize::MAX && declared_size(data) + 255 * data.len() + 19
        <= usize::MAX
}

/// Law: a sequence ends with no more 0xFF bytes than it has.
pub proof fn lemma_trailing_ff_bounded(s: Seq<u8>)
    ensures
        trailing_ff(s) <= s.len(),
    decreases s.len(),
{
    if s.len() > 0 {
        lemma_trailing_ff_bounded(s.drop_last());
    }
}

/// The bytes that `lz4_flex::block::compress_prepend_size` makes of `input`: the
/// input length as a little-endian `u32`, then the LZ4 block.
pub uninterp spec fn lz4_size_prepended(input: Seq<u8>) -> Seq<u8>;

/// What `lz4_flex::block::decompress_size_prepended` gives back for `data`:
/// the restored bytes, or the kind of error it reports.
pub uninterp spec fn lz4_size_prepended_restored(data: Seq<u8>) -> Result<Seq<u8>, SnapshotErrorKind>;

/// Whether decompressing `data` gives back exactly `bytes`.
pub open spec fn restores(data: Seq<u8>, bytes: Seq<u8>) -> bool {
    lz4_size_prepended_restored(data) is Ok && lz4_size_prepended_restored(data)->Ok_0 == bytes
}

/// Whether decompressing `data` fails with an error of kind `kind`.
pub open spec fn fails_with(data: Seq<u8>, kind: SnapshotErrorKind) -> bool {
    lz4_size_prepended_restored(data) is Err && lz4_size_prepended_restored(data)->Err_0 == kind
}

/// Calls `lz4_flex::block::compress_prepend_size`, on input short enough that
/// its `get_maximum_output_size` (`16 + 4 + len * 110 / 100`) does not overflow.
/// Claims that the result is `lz4_size_prepended(input)`; that it is at most
/// that maximum plus the 4 prepended bytes long and starts with the input length
/// as a little-endian `u32`, as the source writes it; and, as the crate documents
/// the pair, that `decompress_size_prepended` restores the input from it whenever
/// the input length fits that `u32`.
#[verifier::external_body]
fn lz4_compress(input: &Vec<u8>) -> (packed: Vec<u8>)
    requires
        input@.len() * 110 <= usize::MAX,
    ensures
        packed@ == lz4_size_prepended(input@),
        4 <= packed@.len() <= 24 + input@.len() * 110 / 100,
        declared_size(packed@) == input@.len() % 0x1_0000_0000,
        input@.len() <= u32::MAX ==> lz4_size_prepended_restored(packed@) is Ok
            && lz4_size_prepended_restored(packed@)->Ok_0 == input@,
{
    lz4_flex::block::compress_prepend_size(input)
}

/// Calls `lz4_flex::block::decompress_size_prepended` on input that it decodes
/// without panicking, and tells the variants of its `DecompressError` apart (a
/// variant added later is `Unrecognized`). Claims that the result, or the kind of
/// error, is `lz4_size_prepended_restored(data)`. The message is the error's own
/// `Display` text; it is not stated. The output buffer of the declared size is
/// allocated first; that this allocation succeeds is a matter of the machine's
/// memory and is not stated.
#[verifier::external_body]
fn lz4_decompress(data: &Vec<u8>) -> (restored: Result<Vec<u8>, SnapshotError>)
    requires
        decodable(data@),
    ensures
        match restored {
            Ok(bytes) => lz4_size_prepended_restored(data@) is Ok
                && lz4_size_prepended_restored(data@)->Ok_0 == bytes@,
            Err(error) => lz4_size_prepended_restored(data@) is Err
                && lz4_size_prepended_restored(data@)->Err_0 == error.kind,
        },
{
    lz4_flex::block::decompress_size_prepended(data).map_err(|error| {
        let kind = match &error {
            lz4_flex::block::DecompressError::OutputTooSmall { expected, actual } => SnapshotErrorKind::OutputTooSmall { expected: *expected, actual: *actual },
            lz4_flex::block::DecompressError::LiteralOutOfBounds => SnapshotErrorKind::LiteralOutOfBounds,
            lz4_flex::block::DecompressError::ExpectedAnotherByte => SnapshotErrorKind::ExpectedAnotherByte,
            lz4_flex::block::DecompressError::OffsetZero => SnapshotErrorKind::OffsetZero,
            lz4_flex::block::DecompressError::OffsetOutOfBounds => SnapshotErrorKind::OffsetOutOfBounds,
            _ => SnapshotErrorKind::Unrecognized,
        };
        SnapshotError { kind, message: error.to_string() }
    })
}

/// A machine snapshot taken for rewinding, before compression.
pub struct RewindCapture {
    pub machine: Vec<u8>,
    pub generation: u64,
    pub tas_cursor: usize,
    pub lag_frames: u64,
    pub controller_reads: u64,
}

/// A compressed machine snapshot in the rewind history.
#[derive(Debug)]
pub struct RewindPoint {
    pub compressed_machine: Vec<u8>,
    pub uncompressed_len: usize,
    pub generation: u64,
    pub tas_cursor: usize,
    pub lag_frames: u64,
    pub controller_reads: u64,
}

/// The message for a snapshot refused as too large.
pub open spec fn snapshot_too_large_text() -> Seq<char> {
    "rewind snapshot is too large to restore"@
}

impl RewindPoint {
    /// Compresses the machine bytes of `capture`, keeping its bookkeeping. The
    /// compressed bytes restore exactly the captured machine, and for a machine
    /// of at most `SAFE_MACHINE_LEN` bytes they are decodable, so `decompress`
    /// gives the machine back (round trip).
    pub fn compress(capture: RewindCapture) -> (point: Self)
        requires
            capture.machine@.len() * 110 <= usize::MAX,
        ensures
            capture.machine@.len() <= SAFE_MACHINE_LEN ==> decodable(point.compressed_machine@),
            point.compressed_machine@ == lz4_size_prepended(capture.machine@),
            point.uncompressed_len == capture.machine@.len(),
            point.generation == capture.generation,
            point.tas_cursor == capture.tas_cursor,
            point.lag_frames == capture.lag_frames,
            point.controller_reads == capture.controller_reads,
            capture.machine@.len() <= u32::MAX ==> restores(point.compressed_machine@, capture.machine@),
    {
        let compressed_machine = lz4_compress(&capture.machine);
        proof {
            let len = capture.machine@.len();
            let packed = compressed_machine@;
            if len <= SAFE_MACHINE_LEN {
                assert(len * 110 / 100 <= 16500000);
                assert forall|i: int| 0 <= i <= packed.len() implies #[trigger] trailing_ff(packed.take(i)) < FF_RUN_LIMIT by {
                    lemma_trailing_ff_bounded(packed.take(i));
                }
                assert(declared_size(packed) == len);
            }
        }
        RewindPoint {
            compressed_machine,
            uncompressed_len: capture.machine.len(),
            generation: capture.generation,
            tas_cursor: capture.tas_cursor,
            lag_frames: capture.lag_frames,
            controller_reads: capture.controller_reads,
        }
    }

    /// Restores the machine bytes of this point. Compressed bytes that cannot be
    /// decoded safely (a run of `FF_RUN_LIMIT` 0xFF bytes, or a declared size that
    /// cannot be allocated or added to) are refused as too large.
    pub fn decompress(&self) -> (machine: Result<Vec<u8>, SnapshotError>)
        ensures
            !decodable(self.compressed_machine@) ==> (machine matches Err(error)
                && error.kind == SnapshotErrorKind::TooLarge && error.message@ == snapshot_too_large_text()),
            decodable(self.compressed_machine@) ==> match machine {
                Ok(bytes) => restores(self.compressed_machine@, bytes@),
                Err(error) => fails_with(self.compressed_machine@, error.kind),
            },
    {
        let data = &self.compressed_machine;
        if !has_short_ff_runs(data) || !declared_size_fits(data) {
            return Err(SnapshotError {
                kind: SnapshotErrorKind::TooLarge,
                message: String::from_str("rewind snapshot is too large to restore"),
            });
        }
        lz4_decompress(data)
    }
}

fn has_short_ff_runs(data: &Vec<u8>) -> (short: bool)
    ensures
        short == short_ff_runs(data@),
{
    let mut run: usize = 0;
    let mut k: usize = 0;
    proof {
        assert(data@.take(0) =~= Seq::<u8>::empty());
    }
    while k < data.len()
        invariant
            k <= data@.len(),
            run == trailing_ff(data@.take(k as int)),
            forall|i: int| 0 <= i <= k ==> #[trigger] trailing_ff(data@.take(i)) < FF_RUN_LIMIT,
        decreases data@.len() - k,
    {
        proof {
            assert(data@.take(k + 1).drop_last() =~= data@.take(k as int));
            assert(data@.take(k + 1).last() == data@[k as int]);
        }
        run = if data[k] == 0xFF { run + 1 } else { 0 };
        if run >= FF_RUN_LIMIT {
            assert(trailing_ff(data@.take(k + 1)) >= FF_RUN_LIMIT);
            return false;
        }
        k += 1;
    }
    true
}

fn declared_size_fits(data: &Vec<u8>) -> (fits: bool)
    ensures
        fits == (data@.len() >= 4 ==> declared_size(data@) <= isize::MAX && declared_size(data@) + 255 * data@.len()
            + 19 <= usize::MAX),
{
    if data.len() < 4 {
        return true;
    }
    let size: u64 = data[0] as u64 + data[1] as u64 * 0x100 + data[2] as u64 * 0x10000 + data[3] as u64 * 0x1000000;
    if size > isize::MAX as u64 {
        return false;
    }
    let declared = size as usize;
    match data.len().checked_mul(255) {
        Some(scaled) => match scaled.checked_add(19) {
            Some(lengths) => lengths.checked_add(declared).is_some(),
            None => false,
        },
        None => false,
    }
}

/// Law (round trip): a point whose compressed bytes are decodable and restore a
/// machine of at most `u32::MAX` bytes decompresses to exactly that machine.
/// `compress` establishes both premises for machines of at most
/// `SAFE_MACHINE_LEN` bytes.
pub proof fn lemma_rewind_round_trip(point: RewindPoint, machine: Seq<u8>, restored: Result<Vec<u8>, SnapshotError>)
    requires
        machine.len() <= u32::MAX,
        decodable(point.compressed_machine@),
        restores(point.compressed_machine@, machine),
        match restored {
            Ok(bytes) => restores(point.compressed_machine@, bytes@),
            Err(error) => fails_with(point.compressed_machine@, error.kind),
        },
    ensures
        restored matches Ok(bytes) && bytes@ == machine,
{
}

/// Hands captures to the compression worker and receives compressed points back.
pub struct RewindCompressor {
    pub captures: SyncSender<RewindCapture>,
    pub points: Receiver<RewindPoint>,
}

impl RewindCompressor {
    /// Offers a capture to the worker; a capture that finds the short queue full,
    /// or the worker gone, is dropped so that emulation never waits.
    pub fn submit(&self, capture: RewindCapture) {
        let _queued = offer_to_worker(&self.captures, capture);
    }
}

/// How many rewind points the history holds for `rewind_seconds` of play at
/// `frames_per_second`, with one point every `interval_frames` frames (at least 1),
/// never fewer than one point.
pub open spec fn rewind_capacity(rewind_seconds: usize, frames_per_second: usize, interval_frames: u32) -> int {
    let interval = if interval_frames == 0 { 1 } else { interval_frames as int };
    let product = rewind_seconds * frames_per_second;
    let saturated = if product > usize::MAX { usize::MAX as int } else { product };
    let limit = saturated / interval;
    if limit < 1 { 1 } else { limit }
}

/// The points of `points` that carry `generation`, in their order.
pub open spec fn points_of_generation(points: Seq<RewindPoint>, generation: u64) -> Seq<RewindPoint>
    decreases points.len(),
{
    if points.len() == 0 {
        Seq::empty()
    } else {
        let earlier = points_of_generation(points.drop_last(), generation);
        if points.last().generation == generation {
            earlier.push(points.last())
        } else {
            earlier
        }
    }
}

/// The last `keep` items of `items`, or all of them when there are no more.
pub open spec fn newest<T>(items: Seq<T>, keep: int) -> Seq<T> {
    if items.len() > keep {
        items.subrange(items.len() - keep, items.len() as int)
    } else {
        items
    }
}

/// The rewind history: compressed points, oldest first, and the generation that
/// a compressed point must carry to be accepted.
pub struct RewindHistory {
    points: VecDeque<RewindPoint>,
    generation: u64,
}

impl RewindHistory {
    /// The points in the history, oldest first.
    pub closed spec fn points(&self) -> Seq<RewindPoint> {
        self.points@
    }

    /// The generation of captures that the history currently accepts.
    pub closed spec fn current_generation(&self) -> u64 {
        self.generation
    }

    /// An empty history at generation 0.
    pub fn new() -> (history: Self)
        ensures
            history.points() == Seq::<RewindPoint>::empty(),
            history.current_generation() == 0,
    {
        RewindHistory { points: VecDeque::new(), generation: 0 }
    }

    /// The generation to stamp on a new capture.
    pub fn generation(&self) -> (generation: u64)
        ensures
            generation == self.current_generation(),
    {
        self.generation
    }

    /// The number of points held.
    pub fn len(&self) -> (n: usize)
        ensures
            n == self.points().len(),
    {
        self.points.len()
    }

    /// Appends `point` when it belongs to the current generation; a point made
    /// from a capture taken before the last invalidation is dropped.
    pub fn accept(&mut self, point: RewindPoint) -> (accepted: bool)
        ensures
            accepted == (point.generation == old(self).current_generation()),
            final(self).current_generation() == old(self).current_generation(),
            final(self).points() == if accepted {
                old(self).points().push(point)
            } else {
                old(self).points()
            },
    {
        if point.generation == self.generation {
            self.points.push_back(point);
            true
        } else {
            false
        }
    }

    /// Drops the oldest points until at most `limit` (at least one) remain.
    pub fn trim_to(&mut self, limit: usize)
        ensures
            final(self).current_generation() == old(self).current_generation(),
            final(self).points() == newest(old(self).points(), if limit < 1 { 1int } else { limit as int }),
    {
        let keep = if limit < 1 { 1 } else { limit };
        let ghost start = self.points@;
        while self.points.len() > keep
            invariant
                keep >= 1,
                keep == if limit < 1 { 1int } else { limit as int },
                self.generation == old(self).generation,
                start == old(self).points@,
                start.len() > keep ==> self.points@.len() >= keep,
                start.len() <= keep ==> self.points@ == start,
                start.len() >= self.points@.len() ==> self.points@ == start.subrange(
                    start.len() - self.points@.len(),
                    start.len() as int,
                ),
                start.len() >= self.points@.len(),
            decreases self.points@.len(),
        {
            let _dropped = self.points.pop_front();
            assert(self.points@ =~= start.subrange(start.len() - self.points@.len(), start.len() as int));
        }
        proof {
            if start.len() <= keep {
                assert(self.points@ =~= start);
            }
        }
    }

    /// Takes the compressed points that the worker has finished, keeps those of
    /// the current generation in arrival order, then trims the history to what
    /// `rewind_seconds` of play needs. Which points have arrived depends on the
    /// worker; `absorb_rewind_points` says what happens for each batch.
    pub fn collect_compressed_rewind_points(
        &mut self,
        compressor: &RewindCompressor,
        rewind_seconds: usize,
        frames_per_second: usize,
        interval_frames: u32,
    )
        ensures
            final(self).current_generation() == old(self).current_generation(),
            exists|ready: Seq<RewindPoint>| final(self).points() == newest(
                old(self).points() + #[trigger] points_of_generation(ready, old(self).current_generation()),
                rewind_capacity(rewind_seconds, frames_per_second, interval_frames),
            ),
            final(self).points().len() <= rewind_capacity(rewind_seconds, frames_per_second, interval_frames),
            forall|i: int| 0 <= i < final(self).points().len() ==> (#[trigger] final(self).points()[i]).generation
                == old(self).current_generation() || old(self).points().contains(final(self).points()[i]),
    {
        let ready = take_ready(&compressor.points);
        self.absorb_rewind_points(ready, rewind_seconds, frames_per_second, interval_frames);
    }

    /// Adds a batch of compressed points to the history: those of the current
    /// generation are appended in their order, the others dropped, and then only
    /// the newest points that `rewind_seconds` of play needs are kept.
    pub fn absorb_rewind_points(
        &mut self,
        ready: Vec<RewindPoint>,
        rewind_seconds: usize,
        frames_per_second: usize,
        interval_frames: u32,
    )
        ensures
            final(self).current_generation() == old(self).current_generation(),
            final(self).points() == newest(
                old(self).points() + points_of_generation(ready@, old(self).current_generation()),
                rewind_capacity(rewind_seconds, frames_per_second, interval_frames),
            ),
            final(self).points().len() <= rewind_capacity(rewind_seconds, frames_per_second, interval_frames),
            forall|i: int| 0 <= i < final(self).points().len() ==> (#[trigger] final(self).points()[i]).generation
                == old(self).current_generation() || old(self).points().contains(final(self).points()[i]),
    {
        let ghost batch = ready@;
        self.accept_all(ready);
        let interval: usize = if interval_frames == 0 { 1 } else { interval_frames as usize };
        let product = match rewind_seconds.checked_mul(frames_per_second) {
            Some(product) => product,
            None => usize::MAX,
        };
        let limit = product / interval;
        proof {
            let product = rewind_seconds as int * frames_per_second as int;
            assert(limit as int == (if product > usize::MAX { usize::MAX as int } else { product }) / (interval as int));
        }
        let ghost before = self.points@;
        self.trim_to(limit);
        assert(self.points@ == newest(
            old(self).points@ + points_of_generation(batch, old(self).generation),
            rewind_capacity(rewind_seconds, frames_per_second, interval_frames),
        ));
        proof {
            assert forall|i: int| 0 <= i < self.points@.len() implies before.contains(#[trigger] self.points@[i]) by {
                if before.len() > self.points@.len() {
                    assert(self.points@[i] == before[before.len() - self.points@.len() + i]);
                }
            }
        }
    }

    /// Offers each point to the history in order: the points of the current
    /// generation are appended in their order, the others dropped.
    pub fn accept_all(&mut self, ready: Vec<RewindPoint>)
        ensures
            final(self).current_generation() == old(self).current_generation(),
            final(self).points() == old(self).points() + points_of_generation(ready@, old(self).current_generation()),
            old(self).points().is_prefix_of(final(self).points()),
            forall|i: int| old(self).points().len() <= i < final(self).points().len()
                ==> (#[trigger] final(self).points()[i]).generation == old(self).current_generation(),
            forall|i: int| 0 <= i < final(self).points().len() ==> (#[trigger] final(self).points()[i]).generation
                == old(self).current_generation() || old(self).points().contains(final(self).points()[i]),
    {
        let ghost start = self.points@;
        let ghost all = ready@;
        for point in iter: ready.into_iter()
            invariant
                iter.seq() == all,
                self.generation == old(self).generation,
                start == old(self).points@,
                self.points@ == start + points_of_generation(all.take(iter.index() as int), self.generation),
                start.is_prefix_of(self.points@),
                forall|i: int| start.len() <= i < self.points@.len()
                    ==> (#[trigger] self.points@[i]).generation == self.generation,
        {
            assert(all.take(iter.index() + 1).drop_last() =~= all.take(iter.index() as int));
            let ghost before = self.points@;
            self.accept(point);
            assert(self.points@ =~= start + points_of_generation(all.take(iter.index() + 1), self.generation));
        }
        assert(all.take(all.len() as int) =~= all);
        assert forall|i: int| 0 <= i < self.points@.len() implies (#[trigger] self.points@[i]).generation
            == self.generation || start.contains(self.points@[i]) by {
            if i < start.len() {
                assert(start[i] == self.points@[i]);
            }
        }
    }

    /// Makes every capture taken so far stale, so that its compressed point will
    /// not be accepted.
    pub fn invalidate_pending_rewind_captures(&mut self)
        ensures
            final(self).current_generation() == old(self).current_generation().wrapping_add(1),
            final(self).current_generation() != old(self).current_generation(),
            final(self).points() == old(self).points(),
    {
        self.generation = self.generation.wrapping_add(1);
    }

    /// Forgets every point and makes every pending capture stale.
    pub fn clear_rewind_history(&mut self)
        ensures
            final(self).current_generation() == old(self).current_generation().wrapping_add(1),
            final(self).points() == Seq::<RewindPoint>::empty(),
    {
        self.invalidate_pending_rewind_captures();
        self.points.clear();
    }

    /// Removes and returns the newest point, the one a single rewind restores.
    pub fn take_latest(&mut self) -> (point: Option<RewindPoint>)
        ensures
            final(self).current_generation() == old(self).current_generation(),
            old(self).points().len() == 0 ==> point is None && final(self).points() == old(self).points(),
            old(self).points().len() > 0 ==> point == Some(old(self).points().last())
                && final(self).points() == old(self).points().drop_last(),
    {
        self.points.pop_back()
    }

    /// Takes the newest point and restores its machine bytes for one rewind
    /// step. An empty history, or a snapshot that does not restore, gives the
    /// status line to show instead; the point is used up either way.
    pub fn take_rewind_target(&mut self) -> (target: Result<(RewindPoint, Vec<u8>), String>)
        ensures
            final(self).current_generation() == old(self).current_generation(),
            old(self).points().len() == 0 ==> final(self).points() == old(self).points() && target is Err
                && target->Err_0@ == "Rewind buffer is empty"@,
            old(self).points().len() > 0 ==> final(self).points() == old(self).points().drop_last(),
            target is Ok ==> old(self).points().len() > 0 && target->Ok_0.0 == old(self).points().last()
                && (decodable(target->Ok_0.0.compressed_machine@) ==> restores(
                target->Ok_0.0.compressed_machine@,
                target->Ok_0.1@,
            )),
            old(self).points().len() > 0 && target is Err ==> has_prefix_text(target->Err_0@, "Rewind snapshot is corrupt: "@)
                && (decodable(old(self).points().last().compressed_machine@) ==> exists|kind: SnapshotErrorKind|
                fails_with(old(self).points().last().compressed_machine@, kind)),
    {
        match self.take_latest() {
            None => Err(String::from_str("Rewind buffer is empty")),
            Some(point) => match point.decompress() {
                Ok(machine) => Ok((point, machine)),
                Err(error) => {
                    let mut text = String::from_str("Rewind snapshot is corrupt: ");
                    let ghost head = text@;
                    text.append(error.message.as_str());
                    proof {
                        assert(text@.subrange(0, head.len() as int) =~= head);
                    }
                    Err(text)
                },
            },
        }
    }
}

/// Whether `s` begins with `prefix`.
pub open spec fn has_prefix_text(s: Seq<char>, prefix: Seq<char>) -> bool {
    s.len() >= prefix.len() && s.subrange(0, prefix.len() as int) == prefix
}

/// The status line after a rewind step: the TAS frame and the input frames
/// dropped while recording, "Rewinding…" while the rewind is held, else "Rewound".
pub open spec fn rewind_status_spec(recording: bool, removed: usize, tas_cursor: usize, rewinding: bool) -> Seq<char> {
    if recording {
        "Rewound to TAS frame "@ + decimal(tas_cursor as nat) + "; removed "@ + decimal(removed as nat)
            + " future input frame(s)"@
    } else if rewinding {
        "Rewinding…"@
    } else {
        "Rewound"@
    }
}

/// The status line after a rewind step.
pub fn rewind_status_text(recording: bool, removed: usize, tas_cursor: usize, rewinding: bool) -> (text: String)
    ensures
        text@ == rewind_status_spec(recording, removed, tas_cursor, rewinding),
{
    if recording {
        let mut text = String::from_str("Rewound to TAS frame ");
        append_decimal(&mut text, tas_cursor as u64);
        text.append("; removed ");
        append_decimal(&mut text, removed as u64);
        text.append(" future input frame(s)");
        text
    } else if rewinding {
        String::from_str("Rewinding…")
    } else {
        String::from_str("Rewound")
    }
}

/// The next deadline of a repeating step on a nanosecond clock: one interval
/// after the previous deadline, or, when the step is already a whole interval
/// late, one interval after `now`.
pub open spec fn next_rewind_deadline(deadline: int, now: int, interval: int) -> int {
    let next = deadline + interval;
    let late = if now > next { now - next } else { 0 };
    if late >= interval { now + interval } else { next }
}

/// Moves a step deadline forward by one interval rather than resetting it to
/// `now`, so that small timer delays do not lower the step rate, but gives up
/// the backlog once the step falls a whole interval behind. Times are
/// nanoseconds on a monotonic clock.
pub fn advance_rewind_deadline(deadline: u64, now: u64, interval: u64) -> (next: u64)
    requires
        deadline + interval <= u64::MAX,
        next_rewind_deadline(deadline as int, now as int, interval as int) <= u64::MAX,
    ensures
        next == next_rewind_deadline(deadline as int, now as int, interval as int),
        interval > 0 ==> now < next + interval,
{
    let next = deadline + interval;
    let late = if now > next { now - next } else { 0 };
    if late >= interval {
        now + interval
    } else {
        next
    }
}

/// Law: a step that runs less than one interval late keeps its cadence
/// (the next deadline is exactly one interval after the previous one), while a
/// step a whole interval late restarts the cadence from `now`.
pub proof fn lemma_small_delays_do_not_drift(deadline: int, now: int, interval: int)
    requires
        interval > 0,
    ensures
        now < deadline + 2 * interval ==> next_rewind_deadline(deadline, now, interval) == deadline + interval,
        now >= deadline + 2 * interval ==> next_rewind_deadline(deadline, now, interval) == now + interval,
{
}

/// The state of a held rewind button between frames.
pub struct RewindControl {
    pub rewind_active: bool,
    pub resume_after_rewind: bool,
    pub paused: bool,
    /// Deadline of the next rewind step, in nanoseconds on a monotonic clock.
    pub next_rewind_step: u64,
}

/// The status line shown when a held rewind ends.
#[derive(Debug, Clone, Copy, PartialEq, Eq)]
pub enum RewindNotice {
    ResumedAfterRewind,
    RewindStopped,
}

impl RewindNotice {
    /// The status text.
    pub fn text(&self) -> (text: &'static str)
        ensures
            text@ == match *self {
                RewindNotice::ResumedAfterRewind => "Resumed after rewind"@,
                RewindNotice::RewindStopped => "Rewind stopped"@,
            },
    {
        match *self {
            RewindNotice::ResumedAfterRewind => "Resumed after rewind",
            RewindNotice::RewindStopped => "Rewind stopped",
        }
    }
}

/// What the front end must do after one update of a held rewind: on `began`,
/// make pending captures stale, clear the audio pipeline and the frame budget;
/// on `step`, rewind one step; on `ended`, clear the audio pipeline and the frame
/// budget and show the notice.
#[derive(Debug, Clone, Copy, PartialEq, Eq)]
pub struct RewindTick {
    pub began: bool,
    pub step: bool,
    pub ended: Option<RewindNotice>,
}

/// The control state and actions after one update of a held rewind.
pub open spec fn rewind_update(before: RewindControl, held: bool, powered: bool, now: u64, interval: u64) -> (RewindControl, RewindTick) {
    if held {
        let start = if before.rewind_active { before.next_rewind_step } else { now };
        let step = now >= start;
        let next = if step { next_rewind_deadline(start as int, now as int, interval as int) as u64 } else { start };
        (
            RewindControl {
                rewind_active: true,
                resume_after_rewind: if before.rewind_active { before.resume_after_rewind } else { !before.paused },
                paused: before.rewind_active ==> before.paused,
                next_rewind_step: next,
            },
            RewindTick { began: !before.rewind_active, step, ended: None },
        )
    } else if before.rewind_active {
        let resume = before.resume_after_rewind && powered;
        (
            RewindControl {
                rewind_active: false,
                resume_after_rewind: false,
                paused: before.paused && !resume,
                next_rewind_step: before.next_rewind_step,
            },
            RewindTick {
                began: false,
                step: false,
                ended: Some(if resume { RewindNotice::ResumedAfterRewind } else { RewindNotice::RewindStopped }),
            },
        )
    } else {
        (before, RewindTick { began: false, step: false, ended: None })
    }
}

impl RewindControl {
    /// One frame of continuous rewinding: while the button is held, rewinds one
    /// step per interval (pausing emulation when the hold begins); when it is let
    /// go, resumes emulation if it was running before and the console is on.
    pub fn update_continuous_rewind(&mut self, held: bool, powered: bool, now: u64, interval: u64) -> (tick: RewindTick)
        requires
            held ==> now + interval <= u64::MAX,
            held && old(self).rewind_active ==> old(self).next_rewind_step + interval <= u64::MAX,
        ensures
            (*final(self), tick) == rewind_update(*old(self), held, powered, now, interval),
    {
        let mut tick = RewindTick { began: false, step: false, ended: None };
        if held {
            if !self.rewind_active {
                self.rewind_active = true;
                self.resume_after_rewind = !self.paused;
                self.paused = true;
                self.next_rewind_step = now;
                tick.began = true;
            }
            if now >= self.next_rewind_step {
                tick.step = true;
                self.next_rewind_step = advance_rewind_deadline(self.next_rewind_step, now, interval);
            }
        } else if self.rewind_active {
            self.rewind_active = false;
            if self.resume_after_rewind && powered {
                self.paused = false;
                tick.ended = Some(RewindNotice::ResumedAfterRewind);
            } else {
                tick.ended = Some(RewindNotice::RewindStopped);
            }
            self.resume_after_rewind = false;
        }
        tick
    }
}

/// The control state after the rewind button is held through the frames at
/// `times`, in order.
pub open spec fn hold_through(before: RewindControl, powered: bool, times: Seq<u64>, interval: u64) -> RewindControl
    decreases times.len(),
{
    if times.len() == 0 {
        before
    } else {
        rewind_update(hold_through(before, powered, times.drop_last(), interval), true, powered, times.last(), interval).0
    }
}

/// While the button stays held, rewinding is active, emulation is paused, and
/// whether to resume is what it was before the hold began.
pub proof fn lemma_holding_keeps_the_resume_choice(before: RewindControl, powered: bool, times: Seq<u64>, interval: u64)
    requires
        !before.rewind_active,
        times.len() >= 1,
    ensures
        hold_through(before, powered, times, interval).rewind_active,
        hold_through(before, powered, times, interval).paused,
        hold_through(before, powered, times, interval).resume_after_rewind == !before.paused,
    decreases times.len(),
{
    if times.len() > 1 {
        lemma_holding_keeps_the_resume_choice(before, powered, times.drop_last(), interval);
    } else {
        assert(times.drop_last().len() == 0);
        assert(hold_through(before, powered, times.drop_last(), interval) == before);
    }
}

/// Law: holding rewind for one or more frames and letting go with the console
/// on restores the pause state from before the hold: a running game resumes
/// ("Resumed after rewind"), a paused one stays paused ("Rewind stopped").
pub proof fn lemma_hold_then_release_resumes(before: RewindControl, times: Seq<u64>, later: u64, interval: u64)
    requires
        !before.rewind_active,
        times.len() >= 1,
    ensures
        hold_through(before, true, times, interval).paused,
        ({
            let (after, tick) = rewind_update(hold_through(before, true, times, interval), false, true, later, interval);
            &&& !after.rewind_active
            &&& !after.resume_after_rewind
            &&& after.paused == before.paused
            &&& tick.ended == Some(if before.paused { RewindNotice::RewindStopped } else { RewindNotice::ResumedAfterRewind })
        }),
{
    lemma_holding_keeps_the_resume_choice(before, true, times, interval);
}

/// Law: after an invalidation, a point carrying the generation that was current
/// before it is refused by `accept`.
pub proof fn lemma_invalidation_refuses_earlier_captures(before: u64, point_generation: u64)
    requires
        point_generation == before,
    ensures
        point_generation != before.wrapping_add(1),
{
}

} // verus!
