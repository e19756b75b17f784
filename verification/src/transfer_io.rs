//! Moving a file's bytes over a connection: how many are to move, in which steps, and what is
//! reported of it. The connection and the file are elsewhere.
use vstd::prelude::*;
use vstd::string::*;

verus! {

/// The most that one step moves.
pub const CHUNK: usize = 64 * 1024;

/// Aggregate bandwidth caps in bytes per second; 0 means unlimited.
pub struct BandwidthLimits {
    pub download: u64,
    pub upload: u64,
}

/// Sets both caps.
pub fn set_bandwidth_limits(limits: &mut BandwidthLimits, download_bps: u64, upload_bps: u64)
    ensures
        final(limits).download == download_bps,
        final(limits).upload == upload_bps,
{
    limits.download = download_bps;
    limits.upload = upload_bps;
}

pub const PAST_FILE: &'static str = "peer requested an offset past the end of the file";

pub const PAST_SIZE: &'static str = "resume offset past the declared file size";

pub const ENDED_EARLY: &'static str = "source ended before the expected number of bytes";

/// How many bytes go to a peer that asks for a file of `size` bytes from `offset` on.
pub fn upload_len(offset: u64, size: u64) -> (r: Result<u64, String>)
    ensures
        match r {
            Ok(n) => offset <= size && n == size - offset,
            Err(e) => offset > size && e@ == PAST_FILE@,
        },
{
    if offset > size {
        Err(PAST_FILE.to_owned())
    } else {
        Ok(size - offset)
    }
}

/// How many bytes come from a peer for a file of `expected` bytes that goes on at `offset`.
pub fn download_len(offset: u64, expected: u64) -> (r: Result<u64, String>)
    ensures
        match r {
            Ok(n) => offset <= expected && n == expected - offset,
            Err(e) => offset > expected && e@ == PAST_SIZE@,
        },
{
    if offset > expected {
        Err(PAST_SIZE.to_owned())
    } else {
        Ok(expected - offset)
    }
}

/// A copy of a known number of bytes, step by step.
pub struct CopyExact {
    offset: u64,
    len: u64,
    remaining: u64,
}

/// A copy in terms of what it stands for.
pub struct CopyModel {
    /// Where in the file the copy began.
    pub offset: u64,
    /// How many bytes it moves.
    pub len: u64,
    /// How many it has moved.
    pub done: u64,
}

impl View for CopyExact {
    type V = CopyModel;

    closed spec fn view(&self) -> CopyModel {
        CopyModel { offset: self.offset, len: self.len, done: (self.len - self.remaining) as u64 }
    }
}

/// How much the next step asks of the source: a chunk, or what is left where that is less.
pub open spec fn next_step(c: CopyModel) -> int {
    if c.len - c.done < CHUNK {
        c.len - c.done
    } else {
        CHUNK as int
    }
}

impl CopyExact {
    pub closed spec fn wf(&self) -> bool {
        self.remaining <= self.len && self.offset + self.len <= u64::MAX
    }

    /// No more is copied than was to be, and the copy ends within what 64 bits count.
    pub proof fn lemma_within(&self)
        requires
            self.wf(),
        ensures
            self@.done <= self@.len,
            self@.offset + self@.len <= u64::MAX,
    {
    }

    /// A copy of `len` bytes that begins at `offset` of the file.
    pub fn new(offset: u64, len: u64) -> (r: Self)
        requires
            offset + len <= u64::MAX,
        ensures
            r.wf(),
            r@ == (CopyModel { offset, len, done: 0 }),
    {
        CopyExact { offset, len, remaining: len }
    }

    /// How many bytes to ask of the source next; 0 when the copy is complete.
    pub fn want(&self) -> (r: usize)
        requires
            self.wf(),
        ensures
            r == next_step(self@),
            r == 0 <==> self@.done == self@.len,
            r <= CHUNK,
    {
        if self.remaining < CHUNK as u64 {
            self.remaining as usize
        } else {
            CHUNK
        }
    }

    /// The source gave `read` bytes. The copy fails where it gave none; otherwise the result is
    /// how much of the file is there, counted from its start.
    pub fn moved(&mut self, read: usize) -> (r: Result<u64, String>)
        requires
            old(self).wf(),
            read <= next_step(old(self)@),
            old(self)@.done < old(self)@.len,
        ensures
            final(self).wf(),
            match r {
                Ok(total) => read > 0 && final(self)@ == (CopyModel {
                    done: (old(self)@.done + read) as u64,
                    ..old(self)@
                }) && total == old(self)@.offset + old(self)@.done + read,
                Err(e) => read == 0 && e@ == ENDED_EARLY@ && final(self)@ == old(self)@,
            },
    {
        if read == 0 {
            return Err(ENDED_EARLY.to_owned());
        }
        self.remaining = self.remaining - read as u64;
        Ok(self.offset + (self.len - self.remaining))
    }
}

/// Whatever the source gives in each step, a step that gives something brings the copy nearer
/// its end and never past it.
pub proof fn law_copies_end_exactly(c: CopyModel, read: int)
    requires
        c.done <= c.len,
        0 < read <= next_step(c),
    ensures
        c.done < c.done + read <= c.len,
{
}

/// The shortest time between two progress reports of one transfer, in milliseconds.
pub const REPORT_INTERVAL_MS: u64 = 500;

/// Whether progress is reported: twice a second at most, but always at the end.
pub open spec fn report_due(bytes: u64, size: u64, elapsed_ms: u64) -> bool {
    bytes >= size || elapsed_ms >= REPORT_INTERVAL_MS
}

/// Decides whether to report progress, given the time since the last report.
pub fn should_report(bytes: u64, size: u64, elapsed_ms: u64) -> (r: bool)
    ensures
        r == report_due(bytes, size, elapsed_ms),
{
    !(bytes < size && elapsed_ms < REPORT_INTERVAL_MS)
}

/// The rolling average of the upload speed after one more sample: the first seeds it, later
/// ones count for three tenths.
pub open spec fn averaged(prev: u32, sample: u32) -> u32 {
    if prev == 0 {
        sample
    } else {
        ((prev * 7 + sample * 3) / 10) as u32
    }
}

/// Folds one sample into the rolling average of the upload speed.
pub fn record_upload_speed(prev: u32, sample: u32) -> (r: u32)
    ensures
        r == averaged(prev, sample),
{
    if prev == 0 {
        sample
    } else {
        ((prev as u64 * 7 + sample as u64 * 3) / 10) as u32
    }
}

/// The average never leaves the range between itself and the sample.
pub proof fn law_average_stays_between(prev: u32, sample: u32)
    requires
        prev > 0,
    ensures
        prev <= sample ==> prev <= averaged(prev, sample) <= sample,
        sample <= prev ==> sample <= averaged(prev, sample) <= prev,
{
}

/// A copy goes on in steps of a whole chunk while that much is left, and takes what is left in the
/// last.
pub proof fn law_steps_are_whole_chunks(c: CopyModel)
    requires
        c.done <= c.len,
    ensures
        c.done + next_step(c) <= c.len,
        c.len - c.done >= 0x1_0000 ==> next_step(c) == 0x1_0000,
        c.len - c.done < 0x1_0000 ==> c.done + next_step(c) == c.len,
{
}

/// An average moves three tenths of the way to a new sample, and the first sample counts whole.
pub proof fn law_the_average_moves_towards_the_sample(prev: u32, sample: u32)
    ensures
        prev == 0 ==> averaged(prev, sample) == sample,
        prev > 0 ==> 10 * averaged(prev, sample) <= 10 * prev + 3 * (sample - prev) < 10 * averaged(
            prev,
            sample,
        ) + 10,
{
}

/// The end of a transfer is always reported, and otherwise one report is half a second behind the
/// other.
pub proof fn law_reports_keep_their_distance(bytes: u64, size: u64, elapsed_ms: u64)
    ensures
        bytes == size ==> report_due(bytes, size, elapsed_ms),
        bytes < size ==> (report_due(bytes, size, elapsed_ms) <==> elapsed_ms >= 500),
{
}

} // verus!
