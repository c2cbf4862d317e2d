//! What the finders say of an image, in terms of its own bytes.
use crate::engine::code;
use crate::engine::flash;
use crate::engine::marks;
use crate::engine::oem;
use crate::engine::response;
use crate::engine::scanner;
use crate::engine::signatures::{FLASH_PROGRAM_SIG, RESPONSE_WRITER_SIG};
use crate::error::{FwError, Reason};
use crate::raw;
use crate::sig;
use crate::thumb;
use crate::thumb::CommandRecord;
use vstd::prelude::*;

verus! {

/// The word that the literal load at `p` reads: its offset counts words from the next word
/// but one.
pub open spec fn loaded(img: Seq<u8>, p: int) -> u32 {
    raw::u32_at(img, p - p % 4 + 4 + 4 * (raw::hw_at(img, p) % 256))
}

/// `v` lies in the first eight KiB of SRAM.
pub open spec fn in_cells(v: u32) -> bool {
    0x0200_0000 <= v < 0x0200_2000
}

/// The record `r` is in the image: its four bytes are the opcode, the flags of a live
/// record and zeros, its word is the handler, and a push of the link register is among the
/// handler's first six halfwords.
pub open spec fn recorded(img: Seq<u8>, r: CommandRecord, opcode: u8) -> bool {
    &&& r.off + 8 <= img.len()
    &&& img[r.off as int] == opcode
    &&& img[r.off + 1] == 1
    &&& img[r.off + 2] == 0
    &&& img[r.off + 3] == 0
    &&& r.opcode == opcode
    &&& r.flags == 1
    &&& r.handler == raw::u32_at(img, r.off + 4)
    &&& 0x1000 <= r.handler < 0x0020_0000
    &&& exists|k: int|
        #![trigger raw::hw_at(img, r.handler / 2 * 2 + 2 * k)]
        0 <= k < 6 && raw::hw_at(img, r.handler / 2 * 2 + 2 * k) / 256 == 0xB5
}

/// A record that was found in a window is one of the image's own.
proof fn lemma_recorded(img: Seq<u8>, opcode: u8, lo: int, hi: int)
    requires
        raw::addressable(img),
        0 <= lo,
    ensures
        scanner::live_record_in(img, opcode, lo, hi) matches Ok(r) ==> recorded(img, r, opcode)
            && lo <= r.off,
{
    marks::lemma_record_solid(img, opcode, lo, hi);
    if let Ok(r) = scanner::live_record_in(img, opcode, lo, hi) {
        let at = (r.handler / 2 * 2) as int;
        let k = choose|k: int|
            0 <= k < 6 && at + 2 * k + 2 <= img.len() && #[trigger] raw::hw_at(img, at + 2 * k)
                / 256 == 0xB5;
        assert(raw::hw_at(img, at + 2 * k) / 256 == 0xB5);
    }
}

/// A record that was found in one of the windows is one of the image's own.
proof fn lemma_recorded_among(
    img: Seq<u8>,
    opcode: u8,
    windows: Seq<(usize, usize)>,
    k: int,
    last: FwError,
)
    requires
        raw::addressable(img),
        0 <= k,
    ensures
        scanner::live_record_among(img, opcode, windows, k, last) matches Ok(r) ==> recorded(
            img,
            r,
            opcode,
        ) && exists|i: int|
            #![trigger windows[i]]
            k <= i < windows.len() && scanner::live_record_in(
                img,
                opcode,
                windows[i].0 as int,
                windows[i].1 as int,
            ) == Ok::<CommandRecord, FwError>(r),
    decreases windows.len() - k,
{
    if k < windows.len() {
        let (lo, hi) = windows[k];
        lemma_recorded(img, opcode, lo as int, hi as int);
        if let Err(e) = scanner::live_record_in(img, opcode, lo as int, hi as int) {
            lemma_recorded_among(img, opcode, windows, k + 1, e);
        }
    }
}

/// The live record that is found for an opcode is in the image, and so is what it says: the
/// handler that it names is the word of the record, and the code there is a function's.
pub proof fn law_live_record_is_in_the_image(
    img: Seq<u8>,
    opcode: u8,
    windows: Seq<(usize, usize)>,
)
    requires
        raw::addressable(img),
    ensures
        scanner::live_record(img, opcode, windows) matches Ok(r) ==> recorded(img, r, opcode)
            && exists|i: int|
            #![trigger windows[i]]
            0 <= i < windows.len() && windows[i].0 <= r.off,
{
    let none = FwError::Refused(Reason::RecordWindow { opcode });
    lemma_recorded_among(img, opcode, windows, 0, none);
    if let Ok(r) = scanner::live_record(img, opcode, windows) {
        let i = choose|i: int|
            #![trigger windows[i]]
            0 <= i < windows.len() && scanner::live_record_in(
                img,
                opcode,
                windows[i].0 as int,
                windows[i].1 as int,
            ) == Ok::<CommandRecord, FwError>(r);
        lemma_recorded(img, opcode, windows[i].0 as int, windows[i].1 as int);
        assert(windows[i].0 <= r.off);
    }
}

/// The live record that is found in a window is in the image.
pub proof fn law_live_record_of_a_window_is_in_the_image(
    img: Seq<u8>,
    opcode: u8,
    lo: int,
    hi: int,
)
    requires
        raw::addressable(img),
        0 <= lo,
    ensures
        scanner::live_record_in(img, opcode, lo, hi) matches Ok(r) ==> recorded(img, r, opcode)
            && lo <= r.off,
{
    lemma_recorded(img, opcode, lo, hi);
}

/// `cmp r2,#imm` is among the 63 offsets from `base` on.
pub open spec fn tests_mode(img: Seq<u8>, base: int, imm: u8) -> bool {
    exists|j: int|
        base <= j < base + 0x3F && j + 1 < img.len() && #[trigger] img[j] == imm && img[j + 1]
            == 0x2A
}

/// The five modes of READ BUFFER are tested near `base`.
pub open spec fn tests_modes(img: Seq<u8>, base: int) -> bool {
    &&& tests_mode(img, base, 6)
    &&& tests_mode(img, base, 7)
    &&& tests_mode(img, base, 10)
    &&& tests_mode(img, base, 11)
    &&& tests_mode(img, base, 12)
}

/// The first place that tests the modes tests them, and no place before it does.
proof fn lemma_first_modes(img: Seq<u8>, base: int, hi: int)
    ensures
        scanner::first_mode_gate(img, base, hi) matches Some(p) ==> base <= p < hi && tests_modes(
            img,
            p,
        ) && forall|q: int| base <= q < p ==> !#[trigger] tests_modes(img, q),
    decreases hi - base,
{
    if base < hi {
        assert(scanner::mode_gate_near(img, base) == tests_modes(img, base));
        if !tests_modes(img, base) {
            lemma_first_modes(img, base + 1, hi);
        }
    }
}

/// The nearest push of the link register at or before `p` is one, and none is nearer.
proof fn lemma_nearest_push(img: Seq<u8>, p: int, n: nat)
    requires
        p <= usize::MAX,
        p % 2 == 0,
    ensures
        code::prologue_before(img, p, n) matches Some(e) ==> 2 <= e <= p && e % 2 == 0 && p - e < 2
            * n && raw::hw_at(img, e as int) / 256 == 0xB5 && forall|q: int|
            e < q <= p && q % 2 == 0 ==> #[trigger] raw::hw_at(img, q) / 256 != 0xB5,
    decreases n,
{
    if n > 0 && p >= 2 && !code::pushes_lr(raw::hw_at(img, p)) {
        lemma_nearest_push(img, p - 2, (n - 1) as nat);
    }
}

/// The scanner that is found starts with the push of the link register that is nearest to
/// the first place in its window that tests the five modes of READ BUFFER.
pub proof fn law_scanner_is_the_function_that_tests_the_modes(img: Seq<u8>)
    requires
        raw::addressable(img),
    ensures
        scanner::scanner_entry(img) matches Ok(e) ==> e % 2 == 0 && raw::hw_at(img, e as int) / 256
            == 0xB5 && exists|base: int|
            {
                &&& 0x0001_8000 <= base < 0x0002_0000
                &&& #[trigger] tests_modes(img, base)
                &&& forall|q: int| 0x0001_8000 <= q < base ==> !#[trigger] tests_modes(img, q)
                &&& e <= base < e + 0x102
                &&& forall|q: int|
                    e < q <= base && q % 2 == 0 ==> #[trigger] raw::hw_at(img, q) / 256 != 0xB5
            },
{
    let lo = scanner::least(0x0001_8000, img.len() as int);
    let hi = scanner::least(0x0002_0000, img.len() as int);
    lemma_first_modes(img, lo, hi);
    if let Some(base) = scanner::first_mode_gate(img, lo, hi) {
        lemma_nearest_push(img, base / 2 * 2, 0x80);
        assert(lo == 0x0001_8000);
        assert(tests_modes(img, base));
        if let Ok(e) = scanner::scanner_entry(img) {
            assert forall|q: int| e < q <= base && q % 2 == 0 implies #[trigger] raw::hw_at(img, q)
                / 256 != 0xB5 by {
                assert(q <= base / 2 * 2);
            }
        }
    }
}

/// The command block that the scanner reads is the one that its second instruction loads
/// the address of, into `r3` or `r5`.
pub proof fn law_command_block_is_what_the_scanner_loads(img: Seq<u8>)
    requires
        raw::addressable(img),
    ensures
        scanner::cdb_base(img) matches Ok(v) ==> scanner::scanner_entry(img) matches Ok(e) && {
            &&& raw::hw_at(img, e + 2) / 256 == 0x4B || raw::hw_at(img, e + 2) / 256 == 0x4D
            &&& v == loaded(img, e + 2)
            &&& in_cells(v)
        },
{
    law_scanner_is_the_function_that_tests_the_modes(img);
}

/// The response byte-writer's twelve instructions are at `at`: it adds an offset that it
/// loads to `r0`, adds what two cells point at, stores `r1` there and returns.
pub open spec fn writes_bytes(img: Seq<u8>, at: int) -> bool {
    &&& raw::hw_at(img, at) / 256 == 0x4A
    &&& raw::hw_at(img, at + 2) == 0x1880
    &&& raw::hw_at(img, at + 4) / 256 == 0x4A
    &&& raw::hw_at(img, at + 6) == 0x6812
    &&& raw::hw_at(img, at + 8) == 0x1810
    &&& raw::hw_at(img, at + 10) / 256 == 0x4A
    &&& raw::hw_at(img, at + 12) == 0x0200
    &&& raw::hw_at(img, at + 14) == 0x6812
    &&& raw::hw_at(img, at + 16) == 0x0A00
    &&& raw::hw_at(img, at + 18) == 0x1880
    &&& raw::hw_at(img, at + 20) == 0x7001
    &&& raw::hw_at(img, at + 22) == 0x4770
}

/// A halfword of a match whose upper byte is fixed.
pub proof fn lemma_sig_upper(img: Seq<u8>, pat: Seq<(u16, u16)>, at: int, k: int, v: u16)
    requires
        sig::sig_at(img, pat, at),
        0 <= k < pat.len(),
        pat[k] == (v, 0xFF00u16),
    ensures
        raw::hw_at(img, at + 2 * k) / 256 == v / 256,
{
    let h = raw::hw_at(img, at + 2 * k);
    assert(h & pat[k].1 == pat[k].0);
    assert(h & 0xFF00 == v ==> h / 256 == v / 256) by (bit_vector);
}

/// What the response writer's signature says of the image.
proof fn lemma_writer_signature(img: Seq<u8>, at: int)
    ensures
        sig::sig_at(img, RESPONSE_WRITER_SIG@, at) ==> writes_bytes(img, at),
{
    if sig::sig_at(img, RESPONSE_WRITER_SIG@, at) {
        let s = RESPONSE_WRITER_SIG@;
        lemma_sig_upper(img, s, at, 0, 0x4A00);
        oem::lemma_sig_full(img, s, at, 1, 0x1880);
        lemma_sig_upper(img, s, at, 2, 0x4A00);
        oem::lemma_sig_full(img, s, at, 3, 0x6812);
        oem::lemma_sig_full(img, s, at, 4, 0x1810);
        lemma_sig_upper(img, s, at, 5, 0x4A00);
        oem::lemma_sig_full(img, s, at, 6, 0x0200);
        oem::lemma_sig_full(img, s, at, 7, 0x6812);
        oem::lemma_sig_full(img, s, at, 8, 0x0A00);
        oem::lemma_sig_full(img, s, at, 9, 0x1880);
        oem::lemma_sig_full(img, s, at, 10, 0x7001);
        oem::lemma_sig_full(img, s, at, 11, 0x4770);
    }
}

/// The first match of a scan is a match.
pub proof fn lemma_first_match(img: Seq<u8>, pat: Seq<(u16, u16)>, lo: int, hi: int)
    requires
        raw::addressable(img),
        0 <= lo,
    ensures
        sig::find_first(img, pat, lo, hi) matches Some(at) ==> at < hi && sig::inside(
            img,
            pat,
            lo,
            at as int,
        ),
{
    if let Some(at) = sig::find_first(img, pat, lo, hi) {
        assert(sig::find_all(img, pat, lo, hi)[0] == at);
        sig::law_scan_reports_every_match(img, pat, lo, hi, at);
    }
}

/// The response byte-writer that is found is one, and the buffer offset is the one that it
/// loads first.
pub proof fn law_response_writer_is_in_the_image(img: Seq<u8>)
    requires
        raw::addressable(img),
    ensures
        response::response_writer(img) matches Ok((at, offset)) ==> {
            &&& 0x0009_0000 <= at < 0x000b_0000
            &&& writes_bytes(img, at as int)
            &&& offset == loaded(img, at as int)
        },
{
    lemma_first_match(img, RESPONSE_WRITER_SIG@, 0x0009_0000, 0x000b_0000);
    if let Some(at) = sig::find_first(img, RESPONSE_WRITER_SIG@, 0x0009_0000, 0x000b_0000) {
        lemma_writer_signature(img, at as int);
    }
}

/// The commit routine around `off`: `str r0,[rN,#0x28]` is there, the instruction behind it
/// loads the address of the length cell into `r0`, and the routine starts at the nearest
/// load of an SRAM address into `r1` before it.
pub open spec fn commits(img: Seq<u8>, off: int, entry: u32, length: u32) -> bool {
    &&& raw::hw_at(img, off) & 0xFFC7 == 0x6280
    &&& raw::hw_at(img, off + 2) / 256 == 0x48
    &&& length == loaded(img, off + 2)
    &&& in_cells(length)
    &&& entry < off <= entry + 0x40
    &&& (off - entry) % 2 == 0
    &&& raw::hw_at(img, entry as int) / 256 == 0x49
    &&& in_cells(loaded(img, entry as int))
}

/// A load of an SRAM address reads one.
proof fn lemma_sram_literal(img: Seq<u8>, p: int)
    ensures
        code::sram_literal_at(img, p) matches Some(v) ==> v == loaded(img, p) && in_cells(v),
{
    assert((p + 4) / 4 * 4 == p - p % 4 + 4);
}

/// The nearest opening load is one.
#[verifier::rlimit(40)]
proof fn lemma_commit_entry(img: Seq<u8>, lo: int, p: int, n: nat)
    requires
        raw::addressable(img),
        0 <= lo,
        p <= img.len(),
    ensures
        response::commit_entry(img, lo, p, n) matches Some(e) ==> lo <= e < p && p - e <= 2 * n && (p
            - e) % 2 == 0 && raw::hw_at(img, e as int) / 256 == 0x49 && in_cells(
            loaded(img, e as int),
        ),
    decreases n,
{
    if n > 0 && p >= lo + 2 {
        if code::loads_literal_into(raw::hw_at(img, p - 2), 1) && code::sram_literal_at(
            img,
            p - 2,
        ) is Some {
            lemma_sram_literal(img, p - 2);
            assert((p - 2) as u32 == p - 2);
        } else {
            lemma_commit_entry(img, lo, p - 2, (n - 1) as nat);
        }
    }
}

/// The first commit routine is one.
proof fn lemma_first_commit(img: Seq<u8>, lo: int, off: int, hi: int)
    requires
        raw::addressable(img),
        0 <= lo <= off,
        hi <= img.len(),
    ensures
        response::first_commit(img, lo, off, hi) matches Some((entry, length)) ==> exists|p: int|
            off <= p < hi && #[trigger] commits(img, p, entry, length),
    decreases hi - off,
{
    if off + 4 <= hi {
        if let Some((entry, length)) = response::commit_at(img, lo, off) {
            lemma_commit_entry(img, lo, off, 0x20);
            assert(commits(img, off, entry, length));
        } else {
            lemma_first_commit(img, lo, off + 2, hi);
        }
    }
}

/// The commit routine of the first window that has one is one.
proof fn lemma_commit_among(img: Seq<u8>, windows: Seq<(usize, usize)>, k: int, last: FwError)
    requires
        raw::addressable(img),
        0 <= k,
    ensures
        response::response_commit_among(img, windows, k, last) matches Ok((entry, length))
            ==> exists|p: int| 0 <= p < img.len() && #[trigger] commits(img, p, entry, length),
    decreases windows.len() - k,
{
    if k < windows.len() {
        let (lo, hi) = windows[k];
        let end = scanner::least(hi as int, scanner::short_of(img, 4));
        lemma_first_commit(img, lo as int, lo as int, end);
        if let Err(e) = response::response_commit_in(img, lo as int, hi as int) {
            lemma_commit_among(img, windows, k + 1, e);
        }
    }
}

/// The commit routine that is found is in the image: it starts with a load of an SRAM
/// address, and the length cell is the one that it loads behind the store of the source.
pub proof fn law_commit_routine_is_in_the_image(img: Seq<u8>, windows: Seq<(usize, usize)>)
    requires
        raw::addressable(img),
    ensures
        response::response_commit(img, windows) matches Ok((entry, length)) ==> exists|p: int|
            0 <= p < img.len() && #[trigger] commits(img, p, entry, length),
{
    lemma_commit_among(img, windows, 0, FwError::Refused(Reason::CommitWindow));
}

/// The word `v` is at an even distance below 0x400 behind `at`.
pub open spec fn keeps_word(img: Seq<u8>, at: int, lo: u32, hi: u32) -> bool {
    exists|k: int|
        0 <= k < 0x200 && at + 2 * k + 4 <= img.len() && lo <= #[trigger] raw::u32_at(
            img,
            at + 2 * k,
        ) < hi
}

/// The flash PROGRAM routine starts at `at`: its seven first instructions, and its three
/// constants behind them.
pub open spec fn programs(img: Seq<u8>, at: int) -> bool {
    &&& raw::hw_at(img, at) == 0xB5FF
    &&& raw::hw_at(img, at + 2) == 0x000E
    &&& raw::hw_at(img, at + 4) == 0x0015
    &&& raw::hw_at(img, at + 6) == 0x001C
    &&& raw::hw_at(img, at + 8) == 0x2B04
    &&& raw::hw_at(img, at + 10) == 0xB081
    &&& raw::hw_at(img, at + 12) == 0xD302
    &&& keeps_word(img, at, 0x0200_1200, 0x0200_1201)
    &&& keeps_word(img, at, 0x0400_2240, 0x0400_2241)
    &&& keeps_word(img, at, 0x01ff_0000, 0x0200_0000)
}

/// A word of the routine's constants is within its span.
proof fn lemma_keeps_word(img: Seq<u8>, at: int, lo: u32, hi: u32)
    requires
        0 <= at,
        flash::has_word_in(
            img,
            at,
            scanner::least(at + 0x400, scanner::short_of(img, 4)),
            lo,
            hi,
        ),
    ensures
        keeps_word(img, at, lo, hi),
{
    let end = scanner::least(at + 0x400, scanner::short_of(img, 4));
    let k = choose|k: int|
        0 <= k && at + 2 * k < end && lo <= #[trigger] raw::u32_at(img, at + 2 * k) < hi;
    assert(0 <= k < 0x200 && lo <= raw::u32_at(img, at + 2 * k) < hi);
}

/// Candidates that program flash are PROGRAM routines.
proof fn lemma_programs(img: Seq<u8>, cands: Seq<usize>, n: nat)
    requires
        n <= cands.len(),
        forall|i: int|
            0 <= i < cands.len() ==> sig::sig_at(
                img,
                FLASH_PROGRAM_SIG@,
                #[trigger] cands[i] as int,
            ),
    ensures
        forall|i: int|
            0 <= i < flash::flash_programs(img, cands, n).len() ==> programs(
                img,
                #[trigger] flash::flash_programs(img, cands, n)[i] as int,
            ),
    decreases n,
{
    if n > 0 {
        lemma_programs(img, cands, (n - 1) as nat);
        let before = flash::flash_programs(img, cands, (n - 1) as nat);
        let all = flash::flash_programs(img, cands, n);
        let at = cands[n - 1] as int;
        assert forall|i: int| 0 <= i < all.len() implies programs(
            img,
            #[trigger] all[i] as int,
        ) by {
            if i < before.len() {
                assert(all[i] == before[i]);
            } else {
                let s = FLASH_PROGRAM_SIG@;
                oem::lemma_sig_full(img, s, at, 0, 0xB5FF);
                oem::lemma_sig_full(img, s, at, 1, 0x000E);
                oem::lemma_sig_full(img, s, at, 2, 0x0015);
                oem::lemma_sig_full(img, s, at, 3, 0x001C);
                oem::lemma_sig_full(img, s, at, 4, 0x2B04);
                oem::lemma_sig_full(img, s, at, 5, 0xB081);
                oem::lemma_sig_full(img, s, at, 6, 0xD302);
                lemma_keeps_word(img, at, 0x0200_1200, 0x0200_1201);
                lemma_keeps_word(img, at, 0x0400_2240, 0x0400_2241);
                lemma_keeps_word(img, at, 0x01ff_0000, 0x0200_0000);
            }
        }
    }
}

/// The PROGRAM routine that is found is in the image.
pub proof fn law_program_routine_is_in_the_image(img: Seq<u8>)
    requires
        raw::addressable(img),
    ensures
        flash::flash_program(img) matches Ok(at) ==> at + 14 <= img.len() && programs(
            img,
            at as int,
        ),
{
    let pat = FLASH_PROGRAM_SIG@;
    let cands = sig::find_all(img, pat, 0, img.len() as int);
    sig::lemma_find_all_inside(
        img,
        pat,
        0,
        img.len() as int,
        sig::steps(0, sig::scan_end(img, pat, img.len() as int)),
    );
    lemma_programs(img, cands, cands.len());
    lemma_programs_fit(img, cands, cands.len());
}

/// Candidates that program flash are candidates.
proof fn lemma_programs_fit(img: Seq<u8>, cands: Seq<usize>, n: nat)
    requires
        n <= cands.len(),
        forall|i: int| 0 <= i < cands.len() ==> #[trigger] cands[i] + 14 <= img.len(),
    ensures
        forall|i: int|
            0 <= i < flash::flash_programs(img, cands, n).len()
                ==> #[trigger] flash::flash_programs(img, cands, n)[i] + 14 <= img.len(),
    decreases n,
{
    if n > 0 {
        lemma_programs_fit(img, cands, (n - 1) as nat);
        let before = flash::flash_programs(img, cands, (n - 1) as nat);
        let all = flash::flash_programs(img, cands, n);
        assert forall|i: int| 0 <= i < all.len() implies #[trigger] all[i] + 14 <= img.len() by {
            if i < before.len() {
                assert(all[i] == before[i]);
            } else {
                assert(all[i] == cands[n - 1]);
            }
        }
    }
}

/// A block of saved settings: 4 KiB aligned, with the region record `00 04 05` at its place,
/// and nothing else before the record or in the thirteen bytes behind it.
pub open spec fn saves(img: Seq<u8>, block: int) -> bool {
    &&& block % 0x1000 == 0
    &&& block + 0x4C0 <= img.len()
    &&& img[block + 0x4B0] == 0
    &&& img[block + 0x4B1] == 4
    &&& img[block + 0x4B2] == 5
    &&& forall|i: int|
        block <= i < block + 0x4B0 || block + 0x4B3 <= i < block + 0x4C0 ==> #[trigger] img[i]
            == 0xFF
}

/// A region record is in a block of saved settings.
proof fn lemma_region_records(img: Seq<u8>, lo: int, hi: int)
    requires
        raw::addressable(img),
        0 <= lo,
        hi + 16 <= img.len() || hi <= lo,
    ensures
        forall|i: int|
            0 <= i < flash::region_records(img, lo, hi).len() ==> saves(
                img,
                #[trigger] flash::region_records(img, lo, hi)[i] / 0x1000 * 0x1000,
            ),
    decreases hi - lo,
{
    if lo < hi {
        lemma_region_records(img, lo, hi - 1);
        let before = flash::region_records(img, lo, hi - 1);
        let all = flash::region_records(img, lo, hi);
        assert forall|i: int| 0 <= i < all.len() implies saves(
            img,
            #[trigger] all[i] / 0x1000 * 0x1000,
        ) by {
            if i < before.len() {
                assert(all[i] == before[i]);
            } else {
                let p = hi - 1;
                assert(all[i] == p);
                assert(p / 0x1000 * 0x1000 == p - 0x4B0);
            }
        }
    }
}

/// The block that is found for saved settings is one, in the last 192 KiB.
pub proof fn law_settings_block_is_in_the_image(img: Seq<u8>)
    requires
        raw::addressable(img),
    ensures
        flash::nv_block(img) matches Ok(block) ==> saves(img, block as int) && img.len() < block
            + 0x4B0 + 0x3_0001,
{
    let lo = scanner::short_of(img, 0x3_0000);
    let hi = scanner::short_of(img, 16);
    lemma_region_records(img, lo, hi);
    lemma_region_from(img, lo, hi);
}

/// A region record of a window is in the window.
proof fn lemma_region_from(img: Seq<u8>, lo: int, hi: int)
    requires
        raw::addressable(img),
        0 <= lo,
        hi <= img.len() || hi <= lo,
    ensures
        forall|i: int|
            0 <= i < flash::region_records(img, lo, hi).len() ==> lo
                <= #[trigger] flash::region_records(img, lo, hi)[i] && flash::region_records(
                img,
                lo,
                hi,
            )[i] % 0x1000 == 0x4B0,
    decreases hi - lo,
{
    if lo < hi {
        lemma_region_from(img, lo, hi - 1);
        let before = flash::region_records(img, lo, hi - 1);
        let all = flash::region_records(img, lo, hi);
        assert forall|i: int| 0 <= i < all.len() implies lo <= #[trigger] all[i] && all[i] % 0x1000
            == 0x4B0 by {
            if i < before.len() {
                assert(all[i] == before[i]);
            }
        }
    }
}

/// The first literal load at an even distance within 64 bytes of `t` reads `v`, the aligned
/// address of an SRAM cell.
pub open spec fn loads_first(img: Seq<u8>, t: int, v: u32) -> bool {
    &&& in_cells(v)
    &&& v % 4 == 0
    &&& exists|q: int|
        {
            &&& t / 2 * 2 <= q < t + 0x40
            &&& q % 2 == 0
            &&& v == #[trigger] loaded(img, q)
            &&& raw::hw_at(img, q) / 2048 == 9
            &&& forall|j: int|
                t / 2 * 2 <= j < q && j % 2 == 0 ==> #[trigger] raw::hw_at(img, j) / 2048 != 9
        }
}

/// The helper at `t` is called from the first 0x260 bytes of the routine at `program`.
pub open spec fn helps(img: Seq<u8>, program: int, t: int) -> bool {
    exists|p: int|
        program <= p < program + 0x260 && (#[trigger] thumb::branch_target(
            thumb::BranchShape::Bl,
            img,
            p,
        )) == Some(t as u32) && 0 <= t < img.len()
}

/// What the first literal load reads.
proof fn lemma_first_cell(img: Seq<u8>, p: int, end: int)
    requires
        p % 2 == 0,
    ensures
        flash::first_cell(img, p, end) matches Some(v) ==> in_cells(v) && v % 4 == 0 && exists|
            q: int,
        |
            {
                &&& p <= q < end
                &&& q % 2 == 0
                &&& v == #[trigger] loaded(img, q)
                &&& raw::hw_at(img, q) / 2048 == 9
                &&& forall|j: int|
                    p <= j < q && j % 2 == 0 ==> #[trigger] raw::hw_at(img, j) / 2048 != 9
            },
    decreases end - p,
{
    if p + 2 <= end {
        if code::is_literal_load(raw::hw_at(img, p)) {
            if let Some(v) = flash::first_cell(img, p, end) {
                assert(v == loaded(img, p));
            }
        } else {
            lemma_first_cell(img, p + 2, end);
            if let Some(v) = flash::first_cell(img, p, end) {
                let q = choose|q: int|
                    {
                        &&& p + 2 <= q < end
                        &&& q % 2 == 0
                        &&& v == #[trigger] loaded(img, q)
                        &&& raw::hw_at(img, q) / 2048 == 9
                        &&& forall|j: int|
                            p + 2 <= j < q && j % 2 == 0 ==> #[trigger] raw::hw_at(img, j) / 2048
                                != 9
                    };
                assert forall|j: int| p <= j < q && j % 2 == 0 implies #[trigger] raw::hw_at(img, j)
                    / 2048 != 9 by {
                    assert(j == p || p + 2 <= j);
                }
                assert(v == loaded(img, q));
            }
        }
    }
}

/// The helpers that are listed are called, and none is listed twice.
proof fn lemma_helpers(img: Seq<u8>, program: int, off: int, end: int, seen: Seq<usize>)
    requires
        raw::addressable(img),
        program <= off,
        end <= program + 0x260,
        seen.no_duplicates(),
        forall|i: int| 0 <= i < seen.len() ==> helps(img, program, #[trigger] seen[i] as int),
    ensures
        flash::helper_targets(img, off, end, seen).no_duplicates(),
        forall|i: int|
            0 <= i < flash::helper_targets(img, off, end, seen).len() ==> helps(
                img,
                program,
                #[trigger] flash::helper_targets(img, off, end, seen)[i] as int,
            ),
    decreases end - off,
{
    if off + 4 <= end {
        match thumb::branch_target(thumb::BranchShape::Bl, img, off) {
            Some(t) => {
                if t < img.len() && !seen.contains(t as usize) {
                    assert(helps(img, program, t as int));
                    let more = seen.push(t as usize);
                    assert forall|i: int| 0 <= i < more.len() implies helps(
                        img,
                        program,
                        #[trigger] more[i] as int,
                    ) by {
                        if i < seen.len() {
                            assert(more[i] == seen[i]);
                        }
                    }
                    lemma_helpers(img, program, off + 2, end, more);
                } else {
                    lemma_helpers(img, program, off + 2, end, seen);
                }
            },
            None => {
                lemma_helpers(img, program, off + 2, end, seen);
            },
        }
    }
}

/// Values further on do not change how often one comes before.
proof fn lemma_times_before(cells: Seq<u32>, w: u32, v: u32, n: nat)
    requires
        n <= cells.len(),
    ensures
        flash::times_among(cells.push(w), v, n) == flash::times_among(cells, v, n),
    decreases n,
{
    if n > 0 {
        lemma_times_before(cells, w, v, (n - 1) as nat);
    }
}

/// A cell that comes once is loaded by a helper, and one that comes twice by two.
proof fn lemma_loaded_by(img: Seq<u8>, targets: Seq<usize>, n: nat, v: u32)
    requires
        n <= targets.len(),
    ensures
        ({
            let cells = flash::helper_cells(img, targets, n);
            let times = flash::times_among(cells, v, cells.len());
            &&& times >= 1 ==> exists|i: int|
                0 <= i < n && loads_first(img, #[trigger] targets[i] as int, v)
            &&& times >= 2 ==> exists|i: int, k: int|
                0 <= i < k < n && loads_first(img, #[trigger] targets[i] as int, v) && loads_first(
                    img,
                    #[trigger] targets[k] as int,
                    v,
                )
        }),
    decreases n,
{
    if n > 0 {
        let m = (n - 1) as nat;
        lemma_loaded_by(img, targets, m, v);
        let before = flash::helper_cells(img, targets, m);
        let t = targets[n - 1] as int;
        let end = scanner::least(t + 0x40, scanner::short_of(img, 2));
        lemma_first_cell(img, t / 2 * 2, end);
        if let Some(w) = flash::first_cell(img, t / 2 * 2, end) {
            lemma_times_before(before, w, v, before.len());
            assert(flash::helper_cells(img, targets, n) == before.push(w));
            if w == v {
                assert(loads_first(img, targets[m as int] as int, v));
                if flash::times_among(before, v, before.len()) >= 1 {
                    let i = choose|i: int|
                        0 <= i < m && loads_first(img, #[trigger] targets[i] as int, v);
                    assert(0 <= i < m < n);
                }
            }
        } else {
            assert(flash::helper_cells(img, targets, n) == before);
        }
    }
}

/// The cell that points at the staging window is one that two helpers of the PROGRAM
/// routine load first.
pub proof fn law_staging_cell_is_loaded_by_two_helpers(img: Seq<u8>)
    requires
        raw::addressable(img),
    ensures
        flash::nv_dram_base(img) matches Ok(v) ==> flash::flash_program(img) matches Ok(program)
            && exists|t: int, u: int|
            {
                &&& t != u
                &&& #[trigger] helps(img, program as int, t)
                &&& #[trigger] helps(img, program as int, u)
                &&& loads_first(img, t, v)
                &&& loads_first(img, u, v)
            },
{
    if let Ok(v) = flash::nv_dram_base(img) {
        let program = flash::flash_program(img)->Ok_0;
        let end = scanner::least(program + 0x260, scanner::short_of(img, 4));
        let targets = flash::helper_targets(img, program as int, end, Seq::empty());
        let cells = flash::helper_cells(img, targets, targets.len());
        lemma_helpers(img, program as int, program as int, end, Seq::empty());
        assert(flash::repeated(cells, cells.len())[0] == v);
        flash::law_repeated_are_the_values_loaded_twice(cells, cells.len(), v);
        lemma_loaded_by(img, targets, targets.len(), v);
        let (i, k) = choose|i: int, k: int|
            0 <= i < k < targets.len() && loads_first(img, #[trigger] targets[i] as int, v)
                && loads_first(img, #[trigger] targets[k] as int, v);
        assert(helps(img, program as int, targets[i] as int));
        assert(helps(img, program as int, targets[k] as int));
    }
}

} // verus!
