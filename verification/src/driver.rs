//! Driver-level types: errors, progress, drive status, mode pages, and the
//! buffered block writer used while burning.

use crate::addresses::Lba;
use crate::driver::mmc::write10_cmd;
use crate::scsi::{ScsiDirection, ScsiDriver, ScsiError, Transfer};
use std::sync::Arc;
use vstd::prelude::*;
use vstd::string::StringExecFns;

pub mod mmc;

verus! {

#[derive(Debug)]
pub enum CdrDriverError {
    IoError(std::io::Error),
    ScsiError(ScsiError),
    InvalidResponse,
}

impl From<std::io::Error> for CdrDriverError {
    fn from(value: std::io::Error) -> (r: CdrDriverError) {
        CdrDriverError::IoError(value)
    }
}

impl vstd::std_specs::convert::FromSpecImpl<std::io::Error> for CdrDriverError {
    open spec fn obeys_from_spec() -> bool {
        true
    }

    open spec fn from_spec(v: std::io::Error) -> CdrDriverError {
        CdrDriverError::IoError(v)
    }
}

impl From<ScsiError> for CdrDriverError {
    fn from(value: ScsiError) -> (r: CdrDriverError) {
        CdrDriverError::ScsiError(value)
    }
}

impl vstd::std_specs::convert::FromSpecImpl<ScsiError> for CdrDriverError {
    open spec fn obeys_from_spec() -> bool {
        true
    }

    open spec fn from_spec(v: ScsiError) -> CdrDriverError {
        CdrDriverError::ScsiError(v)
    }
}

impl CdrDriverError {
    /// The error as text: that of the I/O or SCSI error it wraps, or
    /// "Invalid response".
    pub fn message(&self) -> (r: String)
        ensures
            match self {
                CdrDriverError::IoError(e) => vstd::string::to_string_from_display_ensures::<
                    std::io::Error,
                >(e, r),
                CdrDriverError::ScsiError(e) => match e {
                    ScsiError::IoError(io) => vstd::string::to_string_from_display_ensures::<
                        std::io::Error,
                    >(io, r),
                    ScsiError::DriveError { cmd, sense_data } => r@
                        == crate::scsi::drive_error_text(
                        cmd@,
                        match sense_data {
                            Some(s) => Some(s.bytes@),
                            None => None,
                        },
                    ),
                },
                CdrDriverError::InvalidResponse => r@ == "Invalid response"@,
            },
    {
        match self {
            CdrDriverError::IoError(e) => e.to_string(),
            CdrDriverError::ScsiError(e) => e.message(),
            CdrDriverError::InvalidResponse => {
                let mut s = String::new();
                s.append("Invalid response");
                assert(s@ =~= "Invalid response"@);
                s
            },
        }
    }
}

#[derive(Debug, Copy, Clone, Default, PartialEq, Eq, Structural)]
pub enum BlankMode {
    #[default]
    Fast,
    Full,
}

#[derive(Clone, Copy, Debug, Default, PartialEq, Eq, Structural)]
pub struct Progress {
    pub progress: u64,
    pub total: u64,
}

impl Progress {
    pub fn new(progress: u64, total: u64) -> (r: Self)
        ensures
            r == (Progress { progress, total }),
    {
        Self { progress, total }
    }
}

#[derive(Debug, Clone, Copy, Eq, PartialEq, Structural)]
pub enum CdrStatusResult {
    Ready,
    NotReady,
    Busy(u16),
}

#[derive(Debug, Copy, Clone, Eq, PartialEq, Structural)]
pub enum CdrSessionFormat {
    CdDigitalAudio,
    CdRom,
}

/// A mode page as read with MODE SENSE: the page itself, the mode
/// parameter header, and the block descriptor (zeros when there was none).
pub struct CdrDriverModePage {
    result: Vec<u8>,
    header: [u8; 8],
    block_descriptor: [u8; 8],
}

impl CdrDriverModePage {
    pub closed spec fn page(&self) -> Seq<u8> {
        self.result@
    }

    pub closed spec fn header_bytes(&self) -> Seq<u8> {
        self.header@
    }

    pub closed spec fn block_descriptor_bytes(&self) -> Seq<u8> {
        self.block_descriptor@
    }

    pub(crate) fn from_parts(result: Vec<u8>, header: [u8; 8], block_descriptor: [u8; 8]) -> (r:
        Self)
        ensures
            r.page() == result@,
            r.header_bytes() == header@,
            r.block_descriptor_bytes() == block_descriptor@,
    {
        CdrDriverModePage { result, header, block_descriptor }
    }

    /// The mode page bytes.
    pub fn page_bytes(&self) -> (r: &[u8])
        ensures
            r@ == self.page(),
    {
        self.result.as_slice()
    }

    /// The mode parameter header.
    pub fn header(&self) -> (r: [u8; 8])
        ensures
            r@ == self.header_bytes(),
    {
        self.header
    }

    /// The block descriptor.
    pub fn block_descriptor(&self) -> (r: [u8; 8])
        ensures
            r@ == self.block_descriptor_bytes(),
    {
        self.block_descriptor
    }

    pub(crate) fn set_page(&mut self, result: Vec<u8>)
        ensures
            final(self).page() == result@,
            final(self).header_bytes() == old(self).header_bytes(),
            final(self).block_descriptor_bytes() == old(self).block_descriptor_bytes(),
    {
        self.result = result;
    }
}

pub struct CdrDriverBufferCapacity {
    pub capacity: u32,
    pub available: u32,
}

/// The number of queued bytes at which a writer sends them to the drive:
/// the largest multiple of the block size that fits in 64 KiB.
pub open spec fn flush_threshold(block_size: nat) -> nat {
    (65536nat / block_size) * block_size
}

/// Whether the drive may have answered the write of `queued` at `at` with
/// `outcome`, and what the write then returns and leaves queued.
pub open spec fn flushed_with<S: ScsiDriver>(
    device: S,
    at: Lba,
    queued: Seq<u8>,
    block_size: nat,
    r: Result<(), CdrDriverError>,
    left: Seq<u8>,
) -> bool {
    exists|outcome|
        #![trigger device.may_answer(write10_cmd(at, queued.len() / block_size), Transfer::Input(queued), outcome)]
        device.may_answer(
            write10_cmd(at, queued.len() / block_size),
            Transfer::Input(queued),
            outcome,
        ) && match outcome {
            Ok(_) => r is Ok && left == Seq::<u8>::empty(),
            Err(e) => r == Err::<(), CdrDriverError>(CdrDriverError::ScsiError(e)) && left
                == queued,
        }
}

/// Collects blocks and writes them to the drive with WRITE (10), 64 KiB at
/// a time.
pub struct Writer<S: ScsiDriver> {
    block_size: usize,
    address: Lba,
    scsi: Arc<S>,
    queued_writes: Vec<u8>,
    queued_at: Lba,
}

impl<S: ScsiDriver> Writer<S> {
    pub closed spec fn block_size(&self) -> nat {
        self.block_size as nat
    }

    /// The address of the next block to be written.
    pub closed spec fn next_address(&self) -> Lba {
        self.address
    }

    /// The bytes written but not yet sent to the drive.
    pub closed spec fn queued(&self) -> Seq<u8> {
        self.queued_writes@
    }

    /// The address of the first queued block.
    pub closed spec fn queued_at(&self) -> Lba {
        self.queued_at
    }

    pub closed spec fn device(&self) -> S {
        *self.scsi
    }

    /// Queued data is whole blocks, and the queued blocks run up to the
    /// next address.
    pub closed spec fn wf(&self) -> bool {
        &&& 0 < self.block_size <= 65536
        &&& self.queued_writes@.len() % (self.block_size as nat) == 0
        &&& self.queued_writes@.len() > 0 ==> self.queued_at.0 + self.queued_writes@.len() / (
        self.block_size as nat) == self.address.0
    }

    /// What writing the block `data` does: the address advances by one; the
    /// block joins the queue (which, if it was empty, now starts at the old
    /// address); and a queue that reaches the flush threshold is sent to the
    /// drive.
    pub open spec fn write_effect(
        self,
        after: Self,
        data: Seq<u8>,
        r: Result<(), CdrDriverError>,
    ) -> bool {
        &&& after.wf()
        &&& after.block_size() == self.block_size()
        &&& after.device() == self.device()
        &&& after.next_address().0 == self.next_address().0 + 1
        &&& after.queued_at() == (if self.queued().len() == 0 {
            self.next_address()
        } else {
            self.queued_at()
        })
        &&& {
            let pending = self.queued() + data;
            if pending.len() < flush_threshold(self.block_size()) {
                r is Ok && after.queued() == pending
            } else {
                flushed_with(
                    self.device(),
                    after.queued_at(),
                    pending,
                    self.block_size(),
                    r,
                    after.queued(),
                )
            }
        }
    }

    pub(crate) fn new(scsi: Arc<S>, block_size: usize, address: Lba) -> (r: Self)
        requires
            0 < block_size <= 65536,
        ensures
            r.wf(),
            r.block_size() == block_size,
            r.next_address() == address,
            r.queued() == Seq::<u8>::empty(),
            r.queued_at() == address,
            r.device() == *scsi,
    {
        proof {
            vstd::arithmetic::div_mod::lemma_small_mod(0, block_size as nat);
        }
        Writer { block_size, address, scsi, queued_writes: Vec::new(), queued_at: address }
    }

    pub fn address(&self) -> (r: Lba)
        ensures
            r == self.next_address(),
    {
        self.address
    }

    /// Queues one block. When the queue reaches 64 KiB it is sent to the
    /// drive; the address advances whether or not that send succeeds.
    pub fn write(&mut self, data: &[u8]) -> (r: Result<(), CdrDriverError>)
        requires
            old(self).wf(),
            data@.len() == old(self).block_size(),
            old(self).next_address().0 < u64::MAX,
        ensures
            old(self).write_effect(*final(self), data@, r),
    {
        let ghost old_len = self.queued_writes@.len();
        let ghost bs = self.block_size as nat;
        if self.queued_writes.len() == 0 {
            self.queued_at = self.address;
        }
        self.queued_writes.extend_from_slice(data);
        assert(self.queued_writes@ =~= old(self).queued() + data@);
        self.address = Lba(self.address.0 + 1);
        proof {
            vstd::arithmetic::div_mod::lemma_mod_add_multiples_vanish(old_len as int, bs as int);
            if old_len > 0 {
                vstd::arithmetic::div_mod::lemma_div_plus_one(old_len as int, bs as int);
            } else {
                vstd::arithmetic::div_mod::lemma_div_by_self(bs as int);
            }
        }
        proof {
            vstd::arithmetic::div_mod::lemma_fundamental_div_mod(65536, bs as int);
            vstd::arithmetic::div_mod::lemma_mod_pos_bound(65536, bs as int);
            let q = 65536int / (bs as int);
            assert(q * (bs as int) <= 65536) by (nonlinear_arith)
                requires
                    65536 == (bs as int) * q + 65536int % (bs as int),
                    65536int % (bs as int) >= 0,
            ;
        }
        let threshold = (65536 / self.block_size) * self.block_size;
        if self.queued_writes.len() >= threshold {
            self.flush()
        } else {
            Ok(())
        }
    }

    /// Sends the queued blocks to the drive with one WRITE (10) command at the
    /// address of the first queued block. The queue is emptied when the
    /// drive takes them.
    pub fn flush(&mut self) -> (r: Result<(), CdrDriverError>)
        requires
            old(self).wf(),
        ensures
            final(self).wf(),
            final(self).block_size() == old(self).block_size(),
            final(self).device() == old(self).device(),
            final(self).next_address() == old(self).next_address(),
            final(self).queued_at() == old(self).queued_at(),
            flushed_with(
                old(self).device(),
                old(self).queued_at(),
                old(self).queued(),
                old(self).block_size(),
                r,
                final(self).queued(),
            ),
    {
        let blocks = self.queued_writes.len() / self.block_size;
        let cmd = crate::driver::mmc::write10_command(self.queued_at, blocks);
        let outcome = self.scsi.send_cmd_with_direction(
            cmd.as_slice(),
            ScsiDirection::Input(self.queued_writes.as_slice()),
        );
        match outcome {
            Ok(_) => {
                self.queued_writes.clear();
                Ok(())
            },
            Err(e) => Err(CdrDriverError::ScsiError(e)),
        }
    }
}

/// Each block written moves a writer's next address on by one, whether or
/// not the drive took the data: after `n` writes it stands `n` blocks further.
pub proof fn lemma_writes_advance_address<S: ScsiDriver>(
    writers: Seq<Writer<S>>,
    blocks: Seq<Seq<u8>>,
    results: Seq<Result<(), CdrDriverError>>,
)
    requires
        writers.len() == blocks.len() + 1,
        results.len() == blocks.len(),
        forall|i: int|
            #![trigger blocks[i]]
            0 <= i < blocks.len() ==> writers[i].write_effect(writers[i + 1], blocks[i], results[i]),
    ensures
        writers.last().next_address().0 == writers[0].next_address().0 + blocks.len(),
    decreases blocks.len(),
{
    if blocks.len() > 0 {
        let n = blocks.len() - 1;
        assert(writers[n].write_effect(writers[n + 1], blocks[n], results[n]));
        lemma_writes_advance_address(writers.drop_last(), blocks.drop_last(), results.drop_last());
    }
}

} // verus!
