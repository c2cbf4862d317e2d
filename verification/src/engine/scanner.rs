//! The command scanner: its entry, the command block it reads, and the dispatch
//! records it walks.
use crate::engine::code;
use crate::engine::mt1959::Mt1959Engine;
use crate::error::{Anchor, FwError, Reason};
use crate::raw;
use crate::thumb;
use crate::thumb::{CommandRecord, TableShape};
use vstd::prelude::*;

verus! {

/// Bytes of one dispatch record.
pub const STRIDE: usize = 8;

/// Records that have to follow one another before a table is believed.
pub const MIN_RUN: usize = 8;

/// Flags of a live, media-gated record.
pub const LIVE_FLAGS: u8 = 1;

/// Offset of the handler pointer in a record.
pub const HANDLER_OFF: usize = 4;

/// Flags of the record that ends a table.
pub const TERM_FLAG: u8 = 3;

/// The shape of one record of the dispatch table.
fn record_shape() -> (r: TableShape)
    ensures
        r.handler_off == HANDLER_OFF,
{
    TableShape {
        base: 0,
        stride: STRIDE,
        opcode_off: 0,
        flags_off: 1,
        handler_off: HANDLER_OFF,
        term_flag: TERM_FLAG,
        max_records: 1,
    }
}

/// `img` with the record's handler pointer set to `handler`.
pub open spec fn repointed(img: Seq<u8>, rec: CommandRecord, handler: u32) -> Seq<u8> {
    raw::patched(img, rec.off + HANDLER_OFF, raw::le_bytes(handler))
}

/// Points the record at `handler`; its flags stay as they are.
pub fn repoint(image: &mut Vec<u8>, rec: &CommandRecord, handler: u32)
    requires
        rec.off + STRIDE <= old(image)@.len(),
    ensures
        final(image)@ == repointed(old(image)@, *rec, handler),
{
    let shape: TableShape = record_shape();
    thumb::replace_handler(image.as_mut_slice(), &shape, rec, handler);
}

/// `cmp r2,#imm` starts at one of the 63 offsets from `base`.
pub open spec fn compares_near(img: Seq<u8>, base: int, imm: u8) -> bool {
    exists|j: int|
        base <= j < base + 0x3F && j + 1 < img.len() && #[trigger] img[j] == imm && img[j + 1]
            == 0x2A
}

/// The READ BUFFER mode gate is near `base`: all five of its compares are.
pub open spec fn mode_gate_near(img: Seq<u8>, base: int) -> bool {
    &&& compares_near(img, base, 0x06)
    &&& compares_near(img, base, 0x07)
    &&& compares_near(img, base, 0x0A)
    &&& compares_near(img, base, 0x0B)
    &&& compares_near(img, base, 0x0C)
}

/// First offset of `[base, hi)` that the mode gate is near.
pub open spec fn first_mode_gate(img: Seq<u8>, base: int, hi: int) -> Option<int>
    decreases hi - base,
{
    if base >= hi {
        None
    } else if mode_gate_near(img, base) {
        Some(base)
    } else {
        first_mode_gate(img, base + 1, hi)
    }
}

/// The smaller of two offsets.
pub open spec fn least(a: int, b: int) -> int {
    if a < b {
        a
    } else {
        b
    }
}

/// Entry of the scanner: the prologue before its mode gate.
pub open spec fn scanner_entry(img: Seq<u8>) -> Result<u32, FwError> {
    match first_mode_gate(
        img,
        least(0x0001_8000, img.len() as int),
        least(0x0002_0000, img.len() as int),
    ) {
        None => Err(FwError::Refused(Reason::ScannerMissing)),
        Some(base) => match code::prologue_before(img, base / 2 * 2, 0x80) {
            Some(p) => Ok(p as u32),
            None => Err(FwError::Refused(Reason::ScannerPrologue { at: base as u32 })),
        },
    }
}

/// The command block address that the load at `ins` reads.
pub open spec fn cdb_load(img: Seq<u8>, ins: int) -> Result<u32, FwError> {
    if ins + 2 > img.len() {
        Err(FwError::Refused(Reason::ScannerTail { at: ins as u32 }))
    } else {
        let h = raw::hw_at(img, ins);
        if !(code::loads_literal_into(h, 3) || code::loads_literal_into(h, 5)) {
            Err(FwError::Refused(Reason::ScannerLoad { got: h }))
        } else if code::pool_at(ins, h) + 4 > img.len() {
            Err(FwError::Refused(Reason::ScannerPool { at: code::pool_at(ins, h) as u32 }))
        } else {
            let v = raw::u32_at(img, code::pool_at(ins, h));
            if code::in_sram(v) {
                Ok(v)
            } else {
                Err(FwError::Refused(Reason::ScannerLiteral { value: v }))
            }
        }
    }
}

/// The command block address that the scanner loads.
pub open spec fn cdb_base(img: Seq<u8>) -> Result<u32, FwError> {
    match scanner_entry(img) {
        Ok(entry) => cdb_load(img, entry + 2),
        Err(e) => Err(e),
    }
}

/// Target of the first call in `[off, end)` that follows `movs r2; movs r1; movs r0`.
pub open spec fn sense_call(img: Seq<u8>, off: int, end: int) -> Option<u32>
    decreases end - off,
{
    if off + 8 > end {
        None
    } else if code::moves_imm_into(raw::hw_at(img, off), 2) && code::moves_imm_into(
        raw::hw_at(img, off + 2),
        1,
    ) && code::moves_imm_into(raw::hw_at(img, off + 4), 0) && thumb::branch_target(
        thumb::BranchShape::Bl,
        img,
        off + 6,
    ) is Some {
        thumb::branch_target(thumb::BranchShape::Bl, img, off + 6)
    } else {
        sense_call(img, off + 2, end)
    }
}

/// `img.len()` less `n`, and zero where that would be negative.
pub open spec fn short_of(img: Seq<u8>, n: int) -> int {
    if img.len() >= n {
        img.len() - n
    } else {
        0
    }
}

/// The sense setter that the scanner calls.
pub open spec fn sense_setter_of(img: Seq<u8>) -> Result<u32, FwError> {
    match scanner_entry(img) {
        Ok(entry) => match sense_call(
            img,
            entry as int,
            least(entry + 0x120, short_of(img, 4)),
        ) {
            Some(t) => Ok(t),
            None => Err(FwError::Refused(Reason::SenseSetter)),
        },
        Err(e) => Err(e),
    }
}

/// A well-formed record is at `p`.
pub open spec fn record_at(img: Seq<u8>, p: int) -> bool {
    &&& p + STRIDE <= img.len()
    &&& raw::hw_at(img, p + 2) == 0
    &&& img[p + 1] <= 9 || img[p + 1] == 0x80 || img[p + 1] == 0x87
    &&& raw::u32_at(img, p + 4) < 0x0200_0000
}

/// How many well-formed records follow one another from `p` on.
pub open spec fn record_run(img: Seq<u8>, p: int) -> nat
    decreases img.len() - p,
{
    if record_at(img, p) {
        1 + record_run(img, p + STRIDE)
    } else {
        0
    }
}

/// The record at `p` is a live one for `opcode` with a handler in the image.
pub open spec fn live_at(img: Seq<u8>, p: int, opcode: u8) -> bool {
    &&& img[p] == opcode
    &&& img[p + 1] == LIVE_FLAGS
    &&& 0x1000 <= raw::u32_at(img, p + 4) / 2 * 2 < 0x0020_0000
}

/// The record at `p`, as a value.
pub open spec fn record_of(img: Seq<u8>, p: int) -> CommandRecord {
    CommandRecord {
        off: p as usize,
        opcode: img[p],
        flags: img[p + 1],
        handler: raw::u32_at(img, p + 4),
    }
}

/// The live records for `opcode` among the `n` records from `p` on.
pub open spec fn live_in_run(img: Seq<u8>, p: int, n: nat, opcode: u8) -> Seq<CommandRecord>
    decreases n,
{
    if n == 0 {
        Seq::empty()
    } else {
        let before = live_in_run(img, p, (n - 1) as nat, opcode);
        let q = p + STRIDE * (n - 1);
        if live_at(img, q, opcode) {
            before.push(record_of(img, q))
        } else {
            before
        }
    }
}

/// The live records for `opcode` in the coherent tables of `[off, end)`: runs of at
/// least [`MIN_RUN`] records, looked for at every fourth byte.
pub open spec fn live_records(img: Seq<u8>, off: int, end: int, opcode: u8) -> Seq<CommandRecord>
    decreases
            if off < end {
                end - off
            } else {
                0
            },
{
    if off + STRIDE > end {
        Seq::empty()
    } else if record_run(img, off) >= MIN_RUN {
        live_in_run(img, off, record_run(img, off), opcode) + live_records(
            img,
            off + STRIDE * record_run(img, off),
            end,
            opcode,
        )
    } else {
        live_records(img, off + 4, end, opcode)
    }
}

/// The one live record for `opcode` in `[lo, hi)`, when its handler starts with a
/// prologue.
pub open spec fn live_record_in(img: Seq<u8>, opcode: u8, lo: int, hi: int) -> Result<
    CommandRecord,
    FwError,
> {
    let found = live_records(img, lo, least(hi, img.len() as int), opcode);
    if found.len() != 1 {
        Err(
            FwError::Matches {
                what: Anchor::LiveRecord { opcode },
                count: found.len() as usize,
                lo: lo as usize,
                hi: hi as usize,
            },
        )
    } else if thumb::starts_with_prologue(img, (found[0].handler / 2 * 2) as int, 6) {
        Ok(found[0])
    } else {
        Err(FwError::Refused(Reason::HandlerPrologue { opcode, at: found[0].handler }))
    }
}

/// The first window from number `k` on that has the record; else what the last one
/// refused with, or `last` when none is left.
pub open spec fn live_record_among(
    img: Seq<u8>,
    opcode: u8,
    windows: Seq<(usize, usize)>,
    k: int,
    last: FwError,
) -> Result<CommandRecord, FwError>
    decreases windows.len() - k,
{
    if k >= windows.len() {
        Err(last)
    } else {
        match live_record_in(img, opcode, windows[k].0 as int, windows[k].1 as int) {
            Ok(r) => Ok(r),
            Err(e) => live_record_among(img, opcode, windows, k + 1, e),
        }
    }
}

/// The live record for `opcode` in the first window that has one.
pub open spec fn live_record(img: Seq<u8>, opcode: u8, windows: Seq<(usize, usize)>) -> Result<
    CommandRecord,
    FwError,
> {
    live_record_among(img, opcode, windows, 0, FwError::Refused(Reason::RecordWindow { opcode }))
}

/// Every window starts far enough below the largest offset to be stepped through.
pub open spec fn windows_fit(windows: Seq<(usize, usize)>) -> bool {
    forall|k: int| 0 <= k < windows.len() ==> (#[trigger] windows[k]).0 <= raw::IMAGE_LIMIT
}

/// The live records of a run are no more than the run is long.
proof fn lemma_live_in_run_len(img: Seq<u8>, p: int, n: nat, opcode: u8)
    ensures
        live_in_run(img, p, n, opcode).len() <= n,
    decreases n,
{
    if n > 0 {
        lemma_live_in_run_len(img, p, (n - 1) as nat, opcode);
    }
}

/// A run of records stays inside the image.
proof fn lemma_record_run_fits(img: Seq<u8>, p: int)
    requires
        0 <= p <= img.len(),
    ensures
        p + STRIDE * record_run(img, p) <= img.len(),
    decreases img.len() - p,
{
    if record_at(img, p) {
        lemma_record_run_fits(img, p + STRIDE);
    }
}

/// Whether a `cmp r2,#imm` starts at one of the 63 offsets from `base`.
fn has_compare_near(image: &[u8], base: usize, imm: u8) -> (r: bool)
    requires
        raw::addressable(image@),
        base <= image@.len(),
    ensures
        r == compares_near(image@, base as int, imm),
{
    let len: usize = image.len();
    let mut j: usize = base;
    while j < base + 0x3F && j + 1 < len
        invariant
            raw::addressable(image@),
            len == image@.len(),
            base <= j <= base + 0x3F,
            base <= len,
            forall|i: int|
                base <= i < j && i + 1 < len ==> !(#[trigger] image@[i] == imm && image@[i + 1]
                    == 0x2A),
        decreases len + 0x40 - j,
    {
        if image[j] == imm && image[j + 1] == 0x2A {
            return true;
        }
        j += 1;
    }
    false
}

impl Mt1959Engine {
    /// The scanner's entry: the `push {..,lr}` before its `0x3C` mode gate, which is
    /// a chain of `cmp r2,#{6,7,A,B,C}`.
    pub fn find_scanner_entry(&self, image: &[u8]) -> (r: Result<u32, FwError>)
        requires
            raw::addressable(image@),
        ensures
            r == scanner_entry(image@),
            r matches Ok(p) ==> p + 2 <= image@.len(),
    {
        let len: usize = image.len();
        let mut base: usize = if len < 0x0001_8000 {
            len
        } else {
            0x0001_8000
        };
        let hi: usize = if len < 0x0002_0000 {
            len
        } else {
            0x0002_0000
        };
        let ghost lo = base as int;
        while base < hi
            invariant
                raw::addressable(image@),
                len == image@.len(),
                hi <= len,
                lo == least(0x0001_8000, len as int),
                hi == least(0x0002_0000, len as int),
                first_mode_gate(image@, lo, hi as int) == first_mode_gate(
                    image@,
                    base as int,
                    hi as int,
                ),
            decreases hi - base,
        {
            if has_compare_near(image, base, 0x06) && has_compare_near(image, base, 0x07)
                && has_compare_near(image, base, 0x0A) && has_compare_near(image, base, 0x0B)
                && has_compare_near(image, base, 0x0C) {
                return match code::find_prologue_before(image, base / 2 * 2, 0x80) {
                    Some(p) => {
                        proof {
                            lemma_prologue_below(image@, (base / 2 * 2) as int, 0x80);
                        }
                        Ok(p as u32)
                    },
                    None => Err(FwError::Refused(Reason::ScannerPrologue { at: base as u32 })),
                };
            }
            base += 1;
        }
        Err(FwError::Refused(Reason::ScannerMissing))
    }

    /// The command block address: the literal of the `ldr r3` (or, on the classic
    /// scanner, `ldr r5`) that follows the scanner's prologue.
    pub fn find_cdb_base(&self, image: &[u8]) -> (r: Result<u32, FwError>)
        requires
            raw::addressable(image@),
        ensures
            r == cdb_base(image@),
    {
        let len: usize = image.len();
        let entry: usize = match self.find_scanner_entry(image) {
            Ok(p) => p as usize,
            Err(e) => return Err(e),
        };
        let ins: usize = entry + 2;
        if ins + 2 > len {
            return Err(FwError::Refused(Reason::ScannerTail { at: ins as u32 }));
        }
        let h: u16 = raw::halfword(image, ins);
        if h / 256 != 0x4B && h / 256 != 0x4D {
            return Err(FwError::Refused(Reason::ScannerLoad { got: h }));
        }
        let pool: usize = (ins + 4) / 4 * 4 + 4 * ((h % 256) as usize);
        if pool + 4 > len {
            return Err(FwError::Refused(Reason::ScannerPool { at: pool as u32 }));
        }
        let v: u32 = thumb_asm::read_u32(image, pool);
        if !code::is_sram(v) {
            return Err(FwError::Refused(Reason::ScannerLiteral { value: v }));
        }
        Ok(v)
    }

    /// The sense setter `set_sense(key, asc, ascq)`: what the scanner calls right
    /// after `movs r2; movs r1; movs r0`.
    pub fn sense_setter(&self, image: &[u8]) -> (r: Result<u32, FwError>)
        requires
            raw::addressable(image@),
        ensures
            r == sense_setter_of(image@),
    {
        let len: usize = image.len();
        let entry: usize = match self.find_scanner_entry(image) {
            Ok(p) => p as usize,
            Err(e) => return Err(e),
        };
        let room: usize = if len >= 4 {
            len - 4
        } else {
            0
        };
        let end: usize = if entry + 0x120 < room {
            entry + 0x120
        } else {
            room
        };
        let mut off: usize = entry;
        while off + 8 <= end
            invariant
                raw::addressable(image@),
                len == image@.len(),
                off <= len,
                scanner_entry(image@) == Ok::<u32, FwError>(entry as u32),
                end == least(entry + 0x120, short_of(image@, 4)),
                sense_call(image@, entry as int, end as int) == sense_call(
                    image@,
                    off as int,
                    end as int,
                ),
            decreases end + 8 - off,
        {
            if raw::halfword(image, off) / 256 == 0x22 && raw::halfword(image, off + 2) / 256
                == 0x21 && raw::halfword(image, off + 4) / 256 == 0x20 {
                match thumb_asm::decode_bl(image, off + 6) {
                    Some(t) => {
                        return Ok(t);
                    },
                    None => {},
                }
            }
            off += 2;
        }
        Err(FwError::Refused(Reason::SenseSetter))
    }

    /// The live dispatch record for `opcode`, from the first table window that has
    /// exactly one.
    pub fn find_live_record(
        &self,
        image: &[u8],
        opcode: u8,
        windows: &Vec<(usize, usize)>,
    ) -> (r: Result<CommandRecord, FwError>)
        requires
            raw::addressable(image@),
            windows_fit(windows@),
        ensures
            r == live_record(image@, opcode, windows@),
            r matches Ok(rec) ==> rec == record_of(image@, rec.off as int) && rec.off + STRIDE
                <= image@.len() && live_at(image@, rec.off as int, opcode),
    {
        let mut last: FwError = FwError::Refused(Reason::RecordWindow { opcode });
        let mut k: usize = 0;
        while k < windows.len()
            invariant
                raw::addressable(image@),
                windows_fit(windows@),
                k <= windows@.len(),
                live_record(image@, opcode, windows@) == live_record_among(
                    image@,
                    opcode,
                    windows@,
                    k as int,
                    last,
                ),
            decreases windows@.len() - k,
        {
            let (lo, hi): (usize, usize) = windows[k];
            match self.find_live_record_in(image, opcode, lo, hi) {
                Ok(rec) => {
                    return Ok(rec);
                },
                Err(e) => {
                    last = e;
                },
            }
            k += 1;
        }
        Err(last)
    }

    /// [`Self::find_live_record`] in one table window.
    pub fn find_live_record_in(
        &self,
        image: &[u8],
        opcode: u8,
        table_lo: usize,
        table_hi: usize,
    ) -> (r: Result<CommandRecord, FwError>)
        requires
            raw::addressable(image@),
            table_lo <= raw::IMAGE_LIMIT,
        ensures
            r == live_record_in(image@, opcode, table_lo as int, table_hi as int),
            r matches Ok(rec) ==> rec == record_of(image@, rec.off as int) && rec.off + STRIDE
                <= image@.len() && live_at(image@, rec.off as int, opcode),
    {
        let len: usize = image.len();
        let end: usize = if table_hi < len {
            table_hi
        } else {
            len
        };
        let mut hits: Vec<CommandRecord> = Vec::new();
        let mut off: usize = table_lo;
        while off + STRIDE <= end
            invariant
                raw::addressable(image@),
                len == image@.len(),
                end == least(table_hi as int, len as int),
                off <= len || off == table_lo,
                table_lo <= raw::IMAGE_LIMIT,
                hits@.len() <= off,
                live_records(image@, table_lo as int, end as int, opcode) == hits@ + live_records(
                    image@,
                    off as int,
                    end as int,
                    opcode,
                ),
                forall|i: int|
                    0 <= i < hits@.len() ==> (#[trigger] hits@[i]) == record_of(
                        image@,
                        hits@[i].off as int,
                    ) && hits@[i].off + STRIDE <= image@.len() && live_at(
                        image@,
                        hits@[i].off as int,
                        opcode,
                    ),
            decreases len - off,
        {
            let run: usize = count_records(image, off);
            if run >= MIN_RUN {
                let ghost before = hits@;
                let mut n: usize = 0;
                while n < run
                    invariant
                        raw::addressable(image@),
                        len == image@.len(),
                        n <= run,
                        run == record_run(image@, off as int),
                        off + STRIDE * run <= len,
                        hits@ == before + live_in_run(image@, off as int, n as nat, opcode),
                        forall|i: int|
                            0 <= i < hits@.len() ==> (#[trigger] hits@[i]) == record_of(
                                image@,
                                hits@[i].off as int,
                            ) && hits@[i].off + STRIDE <= image@.len() && live_at(
                                image@,
                                hits@[i].off as int,
                                opcode,
                            ),
                    decreases run - n,
                {
                    let q: usize = off + STRIDE * n;
                    let op: u8 = image[q];
                    let fl: u8 = image[q + 1];
                    let h: u32 = thumb_asm::read_u32(image, q + 4);
                    if op == opcode && fl == LIVE_FLAGS && 0x1000 <= h / 2 * 2 && h / 2 * 2
                        < 0x0020_0000 {
                        hits.push(CommandRecord { off: q, opcode: op, flags: fl, handler: h });
                    }
                    n += 1;
                }
                proof {
                    lemma_live_in_run_len(image@, off as int, run as nat, opcode);
                    let now = live_in_run(image@, off as int, run as nat, opcode);
                    let rest = live_records(image@, off + STRIDE * run, end as int, opcode);
                    assert(before + (now + rest) =~= (before + now) + rest);
                }
                off += STRIDE * run;
            } else {
                off += 4;
            }
        }
        proof {
            assert(hits@ + Seq::<CommandRecord>::empty() =~= hits@);
        }
        if hits.len() != 1 {
            return Err(
                FwError::Matches {
                    what: Anchor::LiveRecord { opcode },
                    count: hits.len(),
                    lo: table_lo,
                    hi: table_hi,
                },
            );
        }
        let rec: CommandRecord = hits[0];
        if !thumb_asm::prologue_is_push_lr(image, (rec.handler / 2 * 2) as usize, 6) {
            return Err(FwError::Refused(Reason::HandlerPrologue { opcode, at: rec.handler }));
        }
        Ok(rec)
    }
}

/// A prologue that is found is at or below where the search starts.
proof fn lemma_prologue_below(img: Seq<u8>, p: int, n: nat)
    requires
        0 <= p <= usize::MAX,
    ensures
        code::prologue_before(img, p, n) matches Some(q) ==> 2 <= q <= p && code::pushes_lr(
            raw::hw_at(img, q as int),
        ),
    decreases n,
{
    if n > 0 && p >= 2 {
        lemma_prologue_below(img, p - 2, (n - 1) as nat);
    }
}

/// How many well-formed records follow one another from `p` on.
fn count_records(image: &[u8], p: usize) -> (run: usize)
    requires
        raw::addressable(image@),
        p <= image@.len(),
    ensures
        run == record_run(image@, p as int),
        p + STRIDE * run <= image@.len(),
{
    let len: usize = image.len();
    let mut q: usize = p;
    let mut run: usize = 0;
    proof {
        lemma_record_run_fits(image@, p as int);
    }
    while q + STRIDE <= len
        invariant_except_break
            record_run(image@, p as int) == run + record_run(image@, q as int),
        invariant
            raw::addressable(image@),
            len == image@.len(),
            q == p + STRIDE * run,
            q <= len,
        ensures
            record_run(image@, p as int) == run,
        decreases len - q,
    {
        let fl: u8 = image[q + 1];
        let h: u32 = thumb_asm::read_u32(image, q + 4);
        if !(raw::halfword(image, q + 2) == 0 && (fl <= 9 || fl == 0x80 || fl == 0x87) && h
            < 0x0200_0000) {
            break;
        }
        run += 1;
        q += STRIDE;
    }
    run
}

} // verus!
