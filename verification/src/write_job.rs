use vstd::prelude::*;
use crate::write_plan::{align_down, padding_to_boundary, write_plan, WritePlan, lemma_write_plan_aligned};

verus! {

/// Why a write of the external flash was refused.
#[derive(Copy, Clone, Debug, PartialEq, Eq, Structural)]
pub enum WriteError {
    /// Fewer bytes arrived from the input than the requested length.
    InvalidInputLength,
    /// The bytes read back after writing differ from the bytes written.
    VerificationFailed,
}

/// Checks that reading the input produced exactly `length` bytes.
pub fn check_input_length(read_bytes: usize, length: u32) -> (res: Result<(), WriteError>)
    ensures
        res is Ok <==> read_bytes == length,
        res is Err ==> res == Err::<(), WriteError>(WriteError::InvalidInputLength),
{
    if read_bytes as u64 == length as u64 {
        Ok(())
    } else {
        Err(WriteError::InvalidInputLength)
    }
}

/// Where a write job stands: which answer from the flash it waits for.
#[derive(Copy, Clone, Debug, PartialEq, Eq, Structural)]
pub enum WritePhase {
    Start,
    AwaitFirstPart,
    AwaitLastPart,
    AwaitErase,
    AwaitWrite,
    AwaitReset,
    AwaitReadBack,
    Finished,
}

/// What the device answered to the last request of a write job.
#[derive(Debug)]
pub enum FlashEvent {
    /// The bytes that a read returned.
    Data(Vec<u8>),
    /// An erase, a write or a reset finished.
    Completed,
    /// The device could not carry out the request.
    DeviceFailed,
}

/// What a write job asks of the device next.
#[derive(Debug)]
pub enum FlashRequest {
    ReadData { address: u32, length: u32 },
    SectorErase { address: u32, length: u32 },
    WriteData { address: u32, data: Vec<u8> },
    ResetIntoFirmware,
    Done,
    Failed(WriteError),
    /// The job ended because the device failed; that failure is the outcome.
    Aborted,
}

/// The abstract state of a write job.
#[verifier::ext_equal]
pub ghost struct WriteJobView {
    pub verify: bool,
    pub in_place: bool,
    pub offset: u32,
    pub input: Seq<u8>,
    pub sector_size: u32,
    pub phase: WritePhase,
    /// The bytes read from the start of the first touched sector.
    pub first_part: Seq<u8>,
    /// The bytes handed to the flash in one write.
    pub written: Seq<u8>,
    /// The address where `written` goes.
    pub target: u32,
}

impl WriteJobView {
    /// The sector boundary at or below the offset.
    pub open spec fn first_address(self) -> u32 {
        align_down(self.offset as int, self.sector_size as int) as u32
    }

    /// How far the offset lies into its sector.
    pub open spec fn first_length(self) -> u32 {
        (self.offset % self.sector_size) as u32
    }

    /// The input's length as the device's 32-bit length field holds it.
    pub open spec fn input_length(self) -> u32 {
        self.input.len() as u32
    }

    /// The address just past the input.
    pub open spec fn last_address(self) -> u32 {
        (self.offset + self.input_length()) as u32
    }

    /// How many bytes follow the input up to the next sector boundary.
    pub open spec fn last_length(self) -> u32 {
        padding_to_boundary(self.offset + self.input_length(), self.sector_size as int) as u32
    }

    /// The length field of a request that covers `written`.
    pub open spec fn written_length(self) -> u32 {
        self.written.len() as u32
    }

    /// Which kind of answer the job waits for in its current phase.
    pub open spec fn awaits_data(self) -> bool {
        self.phase == WritePhase::AwaitFirstPart || self.phase == WritePhase::AwaitLastPart
            || self.phase == WritePhase::AwaitReadBack
    }
}

/// The bytes that an event carries (none for a completion).
pub open spec fn event_data(event: FlashEvent) -> Seq<u8> {
    match event {
        FlashEvent::Data(d) => d@,
        _ => Seq::empty(),
    }
}

/// The abstract form of a request.
#[verifier::ext_equal]
pub ghost enum RequestView {
    ReadData { address: u32, length: u32 },
    SectorErase { address: u32, length: u32 },
    WriteData { address: u32, data: Seq<u8> },
    ResetIntoFirmware,
    Done,
    Failed(WriteError),
    Aborted,
}

impl View for FlashRequest {
    type V = RequestView;

    open spec fn view(&self) -> RequestView {
        match self {
            FlashRequest::ReadData { address, length } => RequestView::ReadData {
                address: *address,
                length: *length,
            },
            FlashRequest::SectorErase { address, length } => RequestView::SectorErase {
                address: *address,
                length: *length,
            },
            FlashRequest::WriteData { address, data } => RequestView::WriteData {
                address: *address,
                data: data@,
            },
            FlashRequest::ResetIntoFirmware => RequestView::ResetIntoFirmware,
            FlashRequest::Done => RequestView::Done,
            FlashRequest::Failed(e) => RequestView::Failed(*e),
            FlashRequest::Aborted => RequestView::Aborted,
        }
    }
}

/// The first step of a job: an in-place write writes the input at once;
/// otherwise the bytes from the first touched sector's start up to the
/// offset are read.
pub open spec fn start_step(v: WriteJobView) -> (WriteJobView, RequestView) {
    if v.in_place {
        (
            WriteJobView { phase: WritePhase::AwaitWrite, ..v },
            RequestView::WriteData { address: v.offset, data: v.input },
        )
    } else {
        (
            WriteJobView { phase: WritePhase::AwaitFirstPart, ..v },
            RequestView::ReadData { address: v.first_address(), length: v.first_length() },
        )
    }
}

/// The step a job takes when the device answers with `data` (empty for a
/// completion), and the request it makes next.
pub open spec fn next_step(v: WriteJobView, data: Seq<u8>) -> (WriteJobView, RequestView) {
    match v.phase {
        WritePhase::AwaitFirstPart => (
            WriteJobView { phase: WritePhase::AwaitLastPart, first_part: data, ..v },
            RequestView::ReadData { address: v.last_address(), length: v.last_length() },
        ),
        WritePhase::AwaitLastPart => {
            let written = v.first_part + v.input + data;
            (
                WriteJobView { phase: WritePhase::AwaitErase, written: written, ..v },
                RequestView::SectorErase { address: v.target, length: written.len() as u32 },
            )
        },
        WritePhase::AwaitErase => (
            WriteJobView { phase: WritePhase::AwaitWrite, ..v },
            RequestView::WriteData { address: v.target, data: v.written },
        ),
        WritePhase::AwaitWrite => if v.verify {
            (WriteJobView { phase: WritePhase::AwaitReset, ..v }, RequestView::ResetIntoFirmware)
        } else {
            (WriteJobView { phase: WritePhase::Finished, ..v }, RequestView::Done)
        },
        WritePhase::AwaitReset => (
            WriteJobView { phase: WritePhase::AwaitReadBack, ..v },
            RequestView::ReadData { address: v.target, length: v.written_length() },
        ),
        WritePhase::AwaitReadBack => (
            WriteJobView { phase: WritePhase::Finished, ..v },
            if data == v.written {
                RequestView::Done
            } else {
                RequestView::Failed(WriteError::VerificationFailed)
            },
        ),
        _ => (v, RequestView::Done),
    }
}

/// The flash contents `mem` after `bytes` are written at `addr`.
pub open spec fn update_bytes(mem: Seq<u8>, addr: int, bytes: Seq<u8>) -> Seq<u8> {
    Seq::new(
        mem.len(),
        |i: int|
            if addr <= i < addr + bytes.len() {
                bytes[i - addr]
            } else {
                mem[i]
            },
    )
}

/// When the reads around the input return as many bytes as were asked for,
/// the bytes that a sector-preserving write hands to the flash start on a
/// sector boundary, fill whole sectors, and hold the input exactly at the
/// offset.
pub proof fn lemma_sector_write_region(v: WriteJobView, first: Seq<u8>, last: Seq<u8>)
    requires
        v.sector_size > 0,
        v.input.len() <= u32::MAX,
        v.offset + v.input.len() <= u32::MAX,
        first.len() == v.first_length(),
        last.len() == v.last_length(),
    ensures
        ({
            let written = first + v.input + last;
            &&& v.first_address() % v.sector_size == 0
            &&& v.first_address() + v.first_length() == v.offset
            &&& (written.len() as int) % (v.sector_size as int) == 0
            &&& v.first_address() + written.len() == v.last_address() + v.last_length()
            &&& written.subrange(v.first_length() as int, v.first_length() + v.input.len()) == v.input
        }),
{
    let b = v.sector_size as int;
    let o = v.offset as int;
    let n = v.input.len() as int;
    lemma_write_plan_aligned(o, n, b);
    assert(v.first_address() as int == align_down(o, b));
    assert(v.first_length() as int == o % b);
    assert(v.last_address() as int == o + n);
    assert(v.last_length() as int == padding_to_boundary(o + n, b));
    let written = first + v.input + last;
    assert(written.subrange(v.first_length() as int, v.first_length() + n) =~= v.input);
    let fa = align_down(o, b);
    assert(written.len() == o + n + padding_to_boundary(o + n, b) - fa);
    assert((fa + written.len()) % b == 0);
    vstd::arithmetic::div_mod::lemma_fundamental_div_mod(fa, b);
    vstd::arithmetic::div_mod::lemma_fundamental_div_mod(fa + written.len(), b);
    vstd::arithmetic::div_mod::lemma_mod_multiples_basic((fa + written.len()) / b - fa / b, b);
    assert(written.len() == ((fa + written.len()) / b - fa / b) * b) by (nonlinear_arith)
        requires
            fa == b * (fa / b) + fa % b,
            fa + written.len() == b * ((fa + written.len()) / b) + (fa + written.len()) % b,
            fa % b == 0,
            (fa + written.len()) % b == 0,
    ;
}

/// Writing the sectors again with the bytes that were read around the
/// input leaves the flash as if only the input had been written at the
/// offset: no byte outside the input changes.
pub proof fn lemma_sector_write_keeps_neighbours(mem: Seq<u8>, v: WriteJobView)
    requires
        v.sector_size > 0,
        v.input.len() <= u32::MAX,
        v.offset + v.input.len() <= u32::MAX,
        v.last_address() + v.last_length() <= mem.len(),
    ensures
        ({
            let first = mem.subrange(v.first_address() as int, v.offset as int);
            let last = mem.subrange(
                v.last_address() as int,
                v.last_address() + v.last_length(),
            );
            update_bytes(mem, v.first_address() as int, first + v.input + last)
                == update_bytes(mem, v.offset as int, v.input)
        }),
{
    let b = v.sector_size as int;
    let o = v.offset as int;
    let n = v.input.len() as int;
    lemma_write_plan_aligned(o, n, b);
    assert(v.first_address() as int == align_down(o, b));
    assert(v.last_address() as int == o + n);
    assert(v.last_length() as int == padding_to_boundary(o + n, b));
    let first = mem.subrange(v.first_address() as int, v.offset as int);
    let last = mem.subrange(v.last_address() as int, v.last_address() + v.last_length());
    let lhs = update_bytes(mem, v.first_address() as int, first + v.input + last);
    let rhs = update_bytes(mem, v.offset as int, v.input);
    assert forall|i: int| 0 <= i < mem.len() implies lhs[i] == rhs[i] by {
        let fa = v.first_address() as int;
        if fa <= i < o {
            assert((first + v.input + last)[i - fa] == first[i - fa]);
        } else if o <= i < o + n {
            assert((first + v.input + last)[i - fa] == v.input[i - o]);
        } else if o + n <= i < o + n + v.last_length() {
            assert((first + v.input + last)[i - fa] == last[i - (o + n)]);
        }
    }
    assert(lhs =~= rhs);
}

/// How many bytes a request reads (none for other requests).
pub open spec fn read_length(r: RequestView) -> nat {
    match r {
        RequestView::ReadData { length, .. } => length as nat,
        _ => 0,
    }
}

/// Where a request reads (zero for other requests).
pub open spec fn read_address(r: RequestView) -> int {
    match r {
        RequestView::ReadData { address, .. } => address as int,
        _ => 0,
    }
}

/// A verifying job finishes with success exactly when the bytes read back
/// are the bytes it wrote; any difference, anywhere, is reported as a failed
/// verification.
pub proof fn lemma_read_back_must_match(v: WriteJobView, data: Seq<u8>)
    requires
        v.phase == WritePhase::AwaitReadBack,
    ensures
        next_step(v, data).0.phase == WritePhase::Finished,
        next_step(v, data).1 == RequestView::Done <==> data == v.written,
        data != v.written ==> next_step(v, data).1 == RequestView::Failed(
            WriteError::VerificationFailed,
        ),
{
}

/// A sector-preserving job erases exactly the region it then writes: the
/// erase starts where the write starts and is as long as the bytes written,
/// which are the bytes read before the input, the input, and the bytes read
/// after it.
pub proof fn lemma_erase_matches_write(v: WriteJobView, data: Seq<u8>)
    requires
        v.phase == WritePhase::AwaitLastPart,
    ensures
        ({
            let (v2, r2) = next_step(v, data);
            let (v3, r3) = next_step(v2, Seq::empty());
            &&& v2.written == v.first_part + v.input + data
            &&& r2 == RequestView::SectorErase { address: v.target, length: v2.written.len() as u32 }
            &&& r3 == RequestView::WriteData { address: v.target, data: v2.written }
            &&& v3.phase == WritePhase::AwaitWrite
        }),
{
}

/// When the two reads of a sector-preserving job are answered with as many
/// bytes as they ask for, the region it erases and writes starts on a sector
/// boundary less than a sector below the offset, ends on a sector boundary
/// less than a sector past the input, reads before and after the input
/// exactly the bytes that share its sectors, and holds the input at the
/// offset.
pub proof fn lemma_sector_write_touches_whole_sectors(
    v: WriteJobView,
    first: Seq<u8>,
    last: Seq<u8>,
)
    requires
        v.phase == WritePhase::Start,
        !v.in_place,
        v.sector_size > 0,
        v.input.len() <= u32::MAX,
        v.offset + v.input.len() <= u32::MAX,
        v.target == v.first_address(),
        first.len() == read_length(start_step(v).1),
        last.len() == read_length(next_step(start_step(v).0, first).1),
    ensures
        ({
            let (v1, r1) = start_step(v);
            let (v2, r2) = next_step(v1, first);
            let (v3, r3) = next_step(v2, last);
            let b = v.sector_size as int;
            let start = v.target as int;
            let end = v.offset + v.input.len();
            let written = v3.written;
            &&& r1 is ReadData && read_address(r1) == start
            &&& r2 is ReadData && read_address(r2) == end
            &&& start % b == 0
            &&& start <= v.offset < start + b
            &&& (written.len() as int) % b == 0
            &&& end <= start + written.len() < end + b
            &&& written == first + v.input + last
            &&& written.subrange(v.offset - start, end - start) == v.input
        }),
{
    let b = v.sector_size as int;
    let o = v.offset as int;
    let n = v.input.len() as int;
    lemma_write_plan_aligned(o, n, b);
    assert(v.first_address() as int == align_down(o, b));
    assert(v.first_length() as int == o % b);
    assert(v.input_length() as int == n);
    assert(v.last_address() as int == o + n);
    assert(v.last_length() as int == padding_to_boundary(o + n, b));
    lemma_sector_write_region(v, first, last);
    let written = first + v.input + last;
    assert(written.subrange(o - v.target, o + n - v.target) =~= v.input);
}

/// The flash contents `mem` with `[addr, addr + len)` erased to 0xff.
pub open spec fn erase_bytes(mem: Seq<u8>, addr: int, len: int) -> Seq<u8> {
    Seq::new(mem.len(), |i: int| if addr <= i < addr + len { 0xffu8 } else { mem[i] })
}

/// How a flash whose reads return what was last written answers a request:
/// its contents afterwards and the bytes of its answer.
pub open spec fn faithful_flash(mem: Seq<u8>, r: RequestView) -> (Seq<u8>, Seq<u8>) {
    match r {
        RequestView::ReadData { address, length } => (
            mem,
            mem.subrange(address as int, address + length),
        ),
        RequestView::SectorErase { address, length } => (
            erase_bytes(mem, address as int, length as int),
            Seq::empty(),
        ),
        RequestView::WriteData { address, data } => (
            update_bytes(mem, address as int, data),
            Seq::empty(),
        ),
        _ => (mem, Seq::empty()),
    }
}

/// `steps` rounds of a job with a faithful flash, from state `v` with
/// contents `mem` and the pending request `r`: the job's state, the flash's
/// contents and the last request.
pub open spec fn drive(v: WriteJobView, mem: Seq<u8>, r: RequestView, steps: nat) -> (
    WriteJobView,
    Seq<u8>,
    RequestView,
)
    decreases steps,
{
    if steps == 0 {
        (v, mem, r)
    } else {
        let (mem2, answer) = faithful_flash(mem, r);
        let (v2, r2) = next_step(v, answer);
        drive(v2, mem2, r2, (steps - 1) as nat)
    }
}

/// How many answers a job takes before it is finished.
pub open spec fn job_steps(v: WriteJobView) -> nat {
    (if v.in_place { 1nat } else { 4nat }) + (if v.verify { 2nat } else { 0nat })
}

proof fn lemma_erase_then_write(mem: Seq<u8>, addr: int, data: Seq<u8>)
    ensures
        update_bytes(erase_bytes(mem, addr, data.len() as int), addr, data) == update_bytes(mem, addr, data),
{
    assert(update_bytes(erase_bytes(mem, addr, data.len() as int), addr, data) =~= update_bytes(mem, addr, data));
}

proof fn lemma_read_after_write(mem: Seq<u8>, addr: int, data: Seq<u8>)
    requires
        0 <= addr,
        addr + data.len() <= mem.len(),
    ensures
        update_bytes(mem, addr, data).subrange(addr, addr + data.len()) == data,
{
    assert(update_bytes(mem, addr, data).subrange(addr, addr + data.len()) =~= data);
}

/// On a flash whose reads return what was last written, every write job
/// finishes without failure, and the flash afterwards holds the input at the
/// offset and its old contents everywhere else.
pub proof fn lemma_write_job_on_faithful_flash(v: WriteJobView, mem: Seq<u8>)
    requires
        v.phase == WritePhase::Start,
        !v.in_place ==> v.sector_size > 0,
        v.input.len() <= u32::MAX,
        v.target == (if v.in_place { v.offset } else { v.first_address() }),
        v.written == (if v.in_place { v.input } else { Seq::<u8>::empty() }),
        v.in_place ==> v.offset + v.input.len() <= mem.len(),
        !v.in_place ==> v.offset + v.input.len() <= u32::MAX,
        !v.in_place ==> v.last_address() + v.last_length() <= mem.len(),
        !v.in_place ==> v.last_address() + v.last_length() <= u32::MAX,
    ensures
        ({
            let (v1, r1) = start_step(v);
            let (vf, memf, rf) = drive(v1, mem, r1, job_steps(v));
            &&& rf == RequestView::Done
            &&& vf.phase == WritePhase::Finished
            &&& memf == update_bytes(mem, v.offset as int, v.input)
        }),
{
    reveal_with_fuel(drive, 7);
    let (v1, r1) = start_step(v);
    if v.in_place {
        let (m1, a1) = faithful_flash(mem, r1);
        let (v2, r2) = next_step(v1, a1);
        assert(m1 == update_bytes(mem, v.offset as int, v.input));
        if v.verify {
            let (m2, a2) = faithful_flash(m1, r2);
            let (v3, r3) = next_step(v2, a2);
            let (m3, a3) = faithful_flash(m2, r3);
            lemma_read_after_write(mem, v.offset as int, v.input);
            assert(a3 == v.input);
            let (v4, r4) = next_step(v3, a3);
            assert(r4 == RequestView::Done);
        }
    } else {
        let o = v.offset as int;
        let n = v.input.len() as int;
        let b = v.sector_size as int;
        lemma_write_plan_aligned(o, n, b);
        assert(v.offset + v.input.len() <= u32::MAX);
        let fa = v.first_address() as int;
        let (m1, a1) = faithful_flash(mem, r1);
        let (v2, r2) = next_step(v1, a1);
        assert(a1 == mem.subrange(fa, o));
        let (m2, a2) = faithful_flash(m1, r2);
        let (v3, r3) = next_step(v2, a2);
        assert(a2 == mem.subrange(o + n, v.last_address() + v.last_length()));
        let written = a1 + v.input + a2;
        assert(v3.written == written);
        assert(written.len() == v.last_address() + v.last_length() - fa);
        assert(r3 == RequestView::SectorErase { address: v.target, length: written.len() as u32 });
        let (m3, a3) = faithful_flash(m2, r3);
        let (v4, r4) = next_step(v3, a3);
        assert(m3 == erase_bytes(mem, fa, written.len() as int));
        let (m4, a4) = faithful_flash(m3, r4);
        let (v5, r5) = next_step(v4, a4);
        lemma_erase_then_write(mem, fa, written);
        lemma_sector_write_keeps_neighbours(mem, v);
        assert(m4 == update_bytes(mem, o, v.input));
        if v.verify {
            let (m5, a5) = faithful_flash(m4, r5);
            let (v6, r6) = next_step(v5, a5);
            let (m6, a6) = faithful_flash(m5, r6);
            lemma_read_after_write(mem, fa, written);
            assert(a6 == written);
            let (v7, r7) = next_step(v6, a6);
            assert(r7 == RequestView::Done);
        }
    }
}

/// One write of the external flash, driven step by step: the job says what
/// to do next and is told what came back.
///
/// An in-place write writes the input at the offset as it is. Otherwise the
/// bytes that share a sector with the input are read first, the sectors are
/// erased, and they are written again with the input in the middle, so that
/// the bytes around the input keep their values. With `verify` the device is
/// reset into its firmware afterwards and the written bytes are read back and
/// compared.
pub struct WriteJob {
    verify: bool,
    in_place: bool,
    offset: u32,
    input: Vec<u8>,
    sector_size: u32,
    plan: WritePlan,
    phase: WritePhase,
    first_part: Vec<u8>,
    written: Vec<u8>,
    target: u32,
}

impl View for WriteJob {
    type V = WriteJobView;

    closed spec fn view(&self) -> WriteJobView {
        WriteJobView {
            verify: self.verify,
            in_place: self.in_place,
            offset: self.offset,
            input: self.input@,
            sector_size: self.sector_size,
            phase: self.phase,
            first_part: self.first_part@,
            written: self.written@,
            target: self.target,
        }
    }
}

fn bytes_equal(a: &Vec<u8>, b: &Vec<u8>) -> (res: bool)
    ensures
        res == (a@ == b@),
{
    if a.len() != b.len() {
        return false;
    }
    let mut i: usize = 0;
    while i < a.len()
        invariant
            a.len() == b.len(),
            i <= a.len(),
            forall|j: int| 0 <= j < i ==> a@[j] == b@[j],
        decreases a.len() - i,
    {
        if a[i] != b[i] {
            return false;
        }
        i = i + 1;
    }
    assert(a@ =~= b@);
    true
}

fn copy_bytes(a: &Vec<u8>) -> (res: Vec<u8>)
    ensures
        res@ == a@,
{
    let mut res: Vec<u8> = Vec::new();
    let mut i: usize = 0;
    while i < a.len()
        invariant
            i <= a.len(),
            res@ == a@.subrange(0, i as int),
        decreases a.len() - i,
    {
        res.push(a[i]);
        i = i + 1;
        assert(res@ =~= a@.subrange(0, i as int));
    }
    assert(a@.subrange(0, a.len() as int) =~= a@);
    res
}

impl WriteJob {
    /// The invariant that every step keeps.
    pub closed spec fn wf(&self) -> bool {
        &&& (self.in_place || self.sector_size > 0)
        &&& (self.in_place || self.offset + self@.input_length() <= u32::MAX)
        &&& (!self.in_place ==> {
            &&& self.plan.first_address == self@.first_address()
            &&& self.plan.first_length == self@.first_length()
            &&& self.plan.last_address == self@.last_address()
            &&& self.plan.last_length == self@.last_length()
            &&& self.target == self@.first_address()
        })
        &&& (self.in_place ==> {
            &&& self.target == self.offset
            &&& self.written@ == self.input@
            &&& self.phase != WritePhase::AwaitFirstPart
            &&& self.phase != WritePhase::AwaitLastPart
            &&& self.phase != WritePhase::AwaitErase
        })
    }

    /// A job that writes `input` at `offset` of a flash with sectors of
    /// `sector_size` bytes.
    pub fn new(verify: bool, in_place: bool, offset: u32, input: Vec<u8>, sector_size: u32) -> (job: WriteJob)
        requires
            in_place || sector_size > 0,
            in_place || offset + (input.len() as u32) <= u32::MAX,
        ensures
            job.wf(),
            job@.verify == verify,
            job@.in_place == in_place,
            job@.offset == offset,
            job@.input == input@,
            job@.sector_size == sector_size,
            job@.phase == WritePhase::Start,
            job@.target == (if in_place { offset } else { job@.first_address() }),
            job@.written == (if in_place { input@ } else { Seq::<u8>::empty() }),
            job@.first_part == Seq::<u8>::empty(),
    {
        let length = input.len() as u32;
        if in_place {
            let written = copy_bytes(&input);
            let plan = WritePlan { first_address: offset, first_length: 0, last_address: offset, last_length: 0 };
            WriteJob {
                verify,
                in_place,
                offset,
                input,
                sector_size,
                plan,
                phase: WritePhase::Start,
                first_part: Vec::new(),
                written,
                target: offset,
            }
        } else {
            let plan = write_plan(offset, length, sector_size);
            WriteJob {
                verify,
                in_place,
                offset,
                input,
                sector_size,
                plan,
                phase: WritePhase::Start,
                first_part: Vec::new(),
                written: Vec::new(),
                target: plan.first_address,
            }
        }
    }

    /// Where the job stands.
    pub fn phase(&self) -> (phase: WritePhase)
        ensures
            phase == self@.phase,
    {
        self.phase
    }

    /// The first request of the job.
    pub fn start(&mut self) -> (request: FlashRequest)
        requires
            old(self).wf(),
            old(self)@.phase == WritePhase::Start,
        ensures
            final(self).wf(),
            final(self)@ == start_step(old(self)@).0,
            request@ == start_step(old(self)@).1,
    {
        if self.in_place {
            self.phase = WritePhase::AwaitWrite;
            FlashRequest::WriteData { address: self.offset, data: copy_bytes(&self.input) }
        } else {
            self.phase = WritePhase::AwaitFirstPart;
            FlashRequest::ReadData { address: self.plan.first_address, length: self.plan.first_length }
        }
    }

    /// Takes the device's answer to the last request and gives the next one.
    pub fn next(&mut self, event: FlashEvent) -> (request: FlashRequest)
        requires
            old(self).wf(),
            old(self)@.phase != WritePhase::Start,
            old(self)@.phase != WritePhase::Finished,
            event is DeviceFailed || (old(self)@.awaits_data() <==> event is Data),
        ensures
            final(self).wf(),
            event is DeviceFailed ==> {
                &&& final(self)@ == (WriteJobView { phase: WritePhase::Finished, ..old(self)@ })
                &&& request@ == RequestView::Aborted
            },
            !(event is DeviceFailed) ==> {
                &&& final(self)@ == next_step(old(self)@, event_data(event)).0
                &&& request@ == next_step(old(self)@, event_data(event)).1
            },
    {
        if let FlashEvent::DeviceFailed = event {
            self.phase = WritePhase::Finished;
            return FlashRequest::Aborted;
        }
        match self.phase {
            WritePhase::AwaitFirstPart => {
                let data = match event {
                    FlashEvent::Data(d) => d,
                    _ => Vec::new(),
                };
                self.first_part = data;
                self.phase = WritePhase::AwaitLastPart;
                FlashRequest::ReadData { address: self.plan.last_address, length: self.plan.last_length }
            },
            WritePhase::AwaitLastPart => {
                let mut data = match event {
                    FlashEvent::Data(d) => d,
                    _ => Vec::new(),
                };
                let mut written = copy_bytes(&self.first_part);
                let mut middle = copy_bytes(&self.input);
                written.append(&mut middle);
                written.append(&mut data);
                let length = written.len() as u32;
                self.written = written;
                self.phase = WritePhase::AwaitErase;
                FlashRequest::SectorErase { address: self.target, length }
            },
            WritePhase::AwaitErase => {
                self.phase = WritePhase::AwaitWrite;
                FlashRequest::WriteData { address: self.target, data: copy_bytes(&self.written) }
            },
            WritePhase::AwaitWrite => {
                if self.verify {
                    self.phase = WritePhase::AwaitReset;
                    FlashRequest::ResetIntoFirmware
                } else {
                    self.phase = WritePhase::Finished;
                    FlashRequest::Done
                }
            },
            WritePhase::AwaitReset => {
                self.phase = WritePhase::AwaitReadBack;
                FlashRequest::ReadData { address: self.target, length: self.written.len() as u32 }
            },
            _ => {
                let data = match event {
                    FlashEvent::Data(d) => d,
                    _ => Vec::new(),
                };
                self.phase = WritePhase::Finished;
                if bytes_equal(&data, &self.written) {
                    FlashRequest::Done
                } else {
                    FlashRequest::Failed(WriteError::VerificationFailed)
                }
            },
        }
    }
}

} // verus!
