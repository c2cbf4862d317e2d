//! Writing detours into an image: a stub in free space and a branch to it.
use crate::engine::code;
use crate::engine::detours;
use crate::engine::flash;
use crate::engine::gates;
use crate::engine::handler;
use crate::engine::mt1959::Mt1959Engine;
use crate::engine::space;
use crate::engine::space::TableEntry;
use crate::engine::stubs;
use crate::error::{FwError, Reason};
use crate::program;
use crate::program::AsmOp;
use crate::raw;
use crate::thumb;
use crate::thumb::BranchShape;
use vstd::prelude::*;

verus! {

/// Spare bytes that injected code leaves behind it.
pub const SPARE: usize = 16;

/// The bytes that a program assembles to.
pub open spec fn code_of(ops: Seq<AsmOp>) -> Seq<u8> {
    program::assembled(ops).unwrap()
}

/// A `shape` branch from `site` reaches `va`.
pub open spec fn reaches(site: int, va: u32) -> bool {
    thumb::disp_ok(thumb::branch_disp(site as u32, va))
}

/// `out` with `stub` in its roomiest free space and a branch to it at `site`, and
/// where the stub is.
pub open spec fn with_detour(
    out: Seq<u8>,
    table: Seq<TableEntry>,
    shape: BranchShape,
    site: int,
    stub: Seq<u8>,
    out_of_range: Reason,
) -> Result<(Seq<u8>, u32), FwError> {
    match space::free_at(out, table, stub.len() + SPARE) {
        Err(e) => Err(e),
        Ok(va) => if reaches(site, va) {
            Ok(
                (
                    raw::patched(
                        raw::patched(out, va as int, stub),
                        site,
                        thumb::branch_bytes(shape, site as u32, va),
                    ),
                    va,
                ),
            )
        } else {
            Err(FwError::Refused(out_of_range))
        },
    }
}

/// `out` with calls of `va` at the first `n` sites.
pub open spec fn with_calls(out: Seq<u8>, sites: Seq<usize>, va: u32, n: nat) -> Seq<u8>
    decreases n,
{
    if n == 0 {
        out
    } else {
        raw::patched(
            with_calls(out, sites, va, (n - 1) as nat),
            sites[n - 1] as int,
            thumb::branch_bytes(BranchShape::Bl, sites[n - 1] as u32, va),
        )
    }
}

/// The revocation checks that a shared detour takes over.
#[derive(Debug, Clone, Copy, PartialEq, Eq, Structural)]
pub enum Checks {
    /// Those of a modern image.
    Modern,
    /// Those of a classic image.
    Classic,
}

impl Checks {
    /// Why the detour is refused when its call does not reach from `site`.
    pub open spec fn refusal(self, site: usize) -> Reason {
        match self {
            Checks::Modern => Reason::HrlRange,
            Checks::Classic => Reason::ClassicHrlRange { at: site },
        }
    }

    /// Why the detour is refused when its call does not reach from `site`.
    pub fn reason(self, site: usize) -> (r: Reason)
        ensures
            r == self.refusal(site),
    {
        match self {
            Checks::Modern => Reason::HrlRange,
            Checks::Classic => Reason::ClassicHrlRange { at: site },
        }
    }
}

/// The first of the sites from `i` on that a call does not reach `va` from.
pub open spec fn first_far(sites: Seq<usize>, va: u32, i: int) -> usize
    decreases sites.len() - i,
{
    if i < 0 || i >= sites.len() || !reaches(sites[i] as int, va) {
        sites[i]
    } else {
        first_far(sites, va, i + 1)
    }
}

/// `out` with `stub` in its roomiest free space and a call of it at every site, and
/// where the stub is.
pub open spec fn with_shared_detour(
    out: Seq<u8>,
    table: Seq<TableEntry>,
    sites: Seq<usize>,
    stub: Seq<u8>,
    checks: Checks,
) -> Result<(Seq<u8>, u32), FwError> {
    match space::free_at(out, table, stub.len() + SPARE) {
        Err(e) => Err(e),
        Ok(va) => if forall|i: int| 0 <= i < sites.len() ==> reaches(#[trigger] sites[i] as int, va) {
            Ok((with_calls(raw::patched(out, va as int, stub), sites, va, sites.len()), va))
        } else {
            Err(FwError::Refused(checks.refusal(first_far(sites, va, 0))))
        },
    }
}

/// A detour that is installed is found where it was put: the branch at the site goes
/// to the stub, and the stub is whole unless the branch was written into it.
pub proof fn law_detour_is_found(
    out: Seq<u8>,
    table: Seq<TableEntry>,
    shape: BranchShape,
    site: int,
    stub: Seq<u8>,
    out_of_range: Reason,
    img: Seq<u8>,
    va: u32,
)
    requires
        raw::addressable(out),
        0 <= site,
        site + 4 <= out.len(),
        with_detour(out, table, shape, site, stub, out_of_range) == Ok::<(Seq<u8>, u32), FwError>(
            (img, va),
        ),
    ensures
        img.len() == out.len(),
        thumb::branch_target(shape, img, site) == Some(va),
        site + 4 <= va || va + stub.len() <= site ==> raw::occurs_at(img, stub, va as int),
        raw::erased(out, va as int, va + stub.len() + SPARE),
        va % 4 == 0,
        forall|i: int|
            0 <= i < out.len() && !(va <= i < va + stub.len()) && !(site <= i < site + 4)
                ==> #[trigger] img[i] == out[i],
{
    space::law_free_space_is_blank_and_covered(out, table, (stub.len() + SPARE) as int, va);
    let b = thumb::branch_bytes(shape, site as u32, va);
    assert(raw::occurs_at(img, b, site));
    thumb::law_installed_branch_decodes(shape, img, site, va);
}

/// A call that was just written decodes to its target.
proof fn lemma_written_call(out: Seq<u8>, site: int, va: u32)
    requires
        0 <= site,
        site + 4 <= out.len(),
        reaches(site, va),
    ensures
        thumb::branch_target(
            BranchShape::Bl,
            raw::patched(out, site, thumb::branch_bytes(BranchShape::Bl, site as u32, va)),
            site,
        ) == Some(va),
{
    let b = thumb::branch_bytes(BranchShape::Bl, site as u32, va);
    let img = raw::patched(out, site, b);
    assert(raw::occurs_at(img, b, site));
    thumb::law_installed_branch_decodes(BranchShape::Bl, img, site, va);
}

/// `r` and the image after it are what `plan` says; a refusal leaves the image alone.
pub open spec fn placed(
    r: Result<u32, FwError>,
    before: Seq<u8>,
    after: Seq<u8>,
    plan: Result<(Seq<u8>, u32), FwError>,
) -> bool {
    match (r, plan) {
        (Ok(va), Ok((img, v))) => va == v && after == img,
        (Err(e), Err(f)) => e == f && after == before,
        _ => false,
    }
}

/// `r` and the image after it are what `plan` says; a refusal leaves the image alone.
pub open spec fn emitted(
    r: Result<(u32, u32), FwError>,
    before: Seq<u8>,
    after: Seq<u8>,
    plan: Result<(Seq<u8>, u32, u32), FwError>,
) -> bool {
    match (r, plan) {
        (Ok((at, va)), Ok((img, a, v))) => at == a && va == v && after == img,
        (Err(e), Err(f)) => e == f && after == before,
        _ => false,
    }
}

/// `plan` together with the place that it belongs to.
pub open spec fn located(plan: Result<(Seq<u8>, u32), FwError>, at: u32) -> Result<
    (Seq<u8>, u32, u32),
    FwError,
> {
    match plan {
        Ok((img, va)) => Ok((img, at, va)),
        Err(e) => Err(e),
    }
}

/// The boot hook: it takes over the call of `pair`.
pub open spec fn boot_emission(
    img: Seq<u8>,
    out: Seq<u8>,
    table: Seq<TableEntry>,
    flag_base: u32,
    pair: (usize, u32),
) -> Result<(Seq<u8>, u32, u32), FwError> {
    match flash::nv_block(img) {
        Err(e) => Err(e),
        Ok(home) => located(
            with_detour(
                out,
                table,
                BranchShape::Bl,
                pair.0 as int,
                code_of(handler::boot_program(flag_base, pair.1, home)),
                Reason::BootRange,
            ),
            pair.0 as u32,
        ),
    }
}

/// The Speed detour: it takes over the ramp's ceiling test.
pub open spec fn speed_emission(
    img: Seq<u8>,
    out: Seq<u8>,
    table: Seq<TableEntry>,
    flag_base: u32,
) -> Result<(Seq<u8>, u32, u32), FwError> {
    match gates::speed_gate(img) {
        Err(e) => Err(e),
        Ok((gate, reg)) => {
            let h = raw::hw_at(img, gate + 6);
            if h / 256 != 0xD8 {
                Err(FwError::Refused(Reason::SpeedBranch { at: (gate + 6) as u32, got: h }))
            } else {
                located(
                    with_detour(
                        out,
                        table,
                        BranchShape::Bl,
                        gate + 4,
                        code_of(
                            stubs::speed_program(
                                flag_base,
                                (gate + 8) as u32,
                                code::address(code::cond_target(gate + 6, h)),
                                reg,
                            ),
                        ),
                        Reason::SpeedRange,
                    ),
                    gate,
                )
            }
        },
    }
}

/// The region detour at the emitter that was found.
pub open spec fn region_emission_at(
    emitter: Result<u32, FwError>,
    out: Seq<u8>,
    table: Seq<TableEntry>,
    flag_base: u32,
    out_of_range: Reason,
) -> Result<(Seq<u8>, u32, u32), FwError> {
    match emitter {
        Err(e) => Err(e),
        Ok(at) => located(
            with_detour(
                out,
                table,
                BranchShape::Bl,
                at + 6,
                code_of(stubs::region_program(flag_base)),
                out_of_range,
            ),
            at,
        ),
    }
}

/// The Region detour: it takes over the emitter's store.
pub open spec fn region_emission(
    img: Seq<u8>,
    out: Seq<u8>,
    table: Seq<TableEntry>,
    flag_base: u32,
) -> Result<(Seq<u8>, u32, u32), FwError> {
    region_emission_at(gates::region_emitter(img), out, table, flag_base, Reason::RegionRange)
}

impl Mt1959Engine {
    /// Where a stub of `len` bytes goes.
    pub fn find_room(&self, out: &[u8], table: &Vec<TableEntry>, len: usize) -> (r: Result<
        u32,
        FwError,
    >)
        requires
            raw::addressable(out@),
        ensures
            r == space::free_at(out@, table@, len + SPARE),
            r matches Ok(va) ==> va % 4 == 0 && va + len + SPARE <= out@.len(),
    {
        if len > out.len() {
            let need: usize = if len > usize::MAX - SPARE {
                usize::MAX
            } else {
                len + SPARE
            };
            return Err(FwError::Refused(Reason::FreeSpace { need }));
        }
        let r: Result<u32, FwError> = self.free_space(out, table, len + SPARE);
        proof {
            if let Ok(va) = r {
                space::law_free_space_is_blank_and_covered(out@, table@, len + SPARE, va);
            }
        }
        r
    }

    /// Puts `stub` into free space and a call of it at `site`.
    pub fn install_call(
        &self,
        out: &mut Vec<u8>,
        table: &Vec<TableEntry>,
        site: usize,
        stub: &Vec<u8>,
        out_of_range: Reason,
    ) -> (r: Result<u32, FwError>)
        requires
            raw::addressable(old(out)@),
            site + 4 <= old(out)@.len(),
        ensures
            placed(
                r,
                old(out)@,
                final(out)@,
                with_detour(
                    old(out)@,
                    table@,
                    BranchShape::Bl,
                    site as int,
                    stub@,
                    out_of_range,
                ),
            ),
    {
        let ghost before = out@;
        let va: u32 = match self.find_room(out.as_slice(), table, stub.len()) {
            Ok(va) => va,
            Err(e) => return Err(e),
        };
        let bl: [u8; 4] = match thumb_asm::encode_bl(site, va) {
            Some(b) => b,
            None => return Err(FwError::Refused(out_of_range)),
        };
        thumb_asm::write(out.as_mut_slice(), va as usize, stub.as_slice());
        let ghost mid = out@;
        thumb_asm::write(out.as_mut_slice(), site, &bl);
        proof {
            lemma_written_call(mid, site as int, va);
        }
        if !thumb::verify_branch(out.as_slice(), site, BranchShape::Bl, va) {
            return Err(FwError::Refused(Reason::BranchMismatch));
        }
        Ok(va)
    }

    /// Puts `stub` into free space and a branch of either kind to it at `site`.
    #[verifier::spinoff_prover]
    #[verifier::rlimit(40)]
    pub fn install_detour(
        &self,
        out: &mut Vec<u8>,
        table: &Vec<TableEntry>,
        shape: BranchShape,
        site: usize,
        stub: &Vec<u8>,
        out_of_range: Reason,
    ) -> (r: Result<u32, FwError>)
        requires
            raw::addressable(old(out)@),
            site + 4 <= old(out)@.len(),
        ensures
            match (
                r,
                with_detour(old(out)@, table@, shape, site as int, stub@, out_of_range),
            ) {
                (Ok(va), Ok((img, v))) => va == v && final(out)@ == img,
                (Err(e), Err(f)) => e == f,
                _ => false,
            },
            final(out)@.len() == old(out)@.len(),
    {
        let ghost before = out@;
        let va: u32 = match self.find_room(out.as_slice(), table, stub.len()) {
            Ok(va) => va,
            Err(e) => return Err(e),
        };
        thumb_asm::write(out.as_mut_slice(), va as usize, stub.as_slice());
        if !thumb::install_branch(out.as_mut_slice(), site, shape, va) {
            return Err(FwError::Refused(out_of_range));
        }
        Ok(va)
    }

    /// Puts `stub` into free space and a call of it at every site; nothing is written
    /// unless every call reaches.
    pub fn install_shared(
        &self,
        out: &mut Vec<u8>,
        table: &Vec<TableEntry>,
        sites: &Vec<usize>,
        stub: &Vec<u8>,
        checks: Checks,
    ) -> (r: Result<u32, FwError>)
        requires
            raw::addressable(old(out)@),
            forall|i: int|
                0 <= i < sites@.len() ==> #[trigger] sites@[i] + 4 <= old(out)@.len(),
        ensures
            placed(
                r,
                old(out)@,
                final(out)@,
                with_shared_detour(old(out)@, table@, sites@, stub@, checks),
            ),
            final(out)@.len() == old(out)@.len(),
    {
        let ghost before = out@;
        let va: u32 = match self.find_room(out.as_slice(), table, stub.len()) {
            Ok(va) => va,
            Err(e) => return Err(e),
        };
        let mut k: usize = 0;
        while k < sites.len()
            invariant
                k <= sites@.len(),
                out@ == before,
                before == old(out)@,
                space::free_at(before, table@, stub@.len() + SPARE) == Ok::<u32, FwError>(va),
                forall|i: int| 0 <= i < k ==> reaches(#[trigger] sites@[i] as int, va),
                first_far(sites@, va, 0) == first_far(sites@, va, k as int),
            decreases sites@.len() - k,
        {
            if thumb_asm::encode_bl(sites[k], va).is_none() {
                assert(!reaches(sites@[k as int] as int, va));
                return Err(FwError::Refused(checks.reason(sites[k])));
            }
            k += 1;
        }
        thumb_asm::write(out.as_mut_slice(), va as usize, stub.as_slice());
        let ghost mid = out@;
        let mut n: usize = 0;
        while n < sites.len()
            invariant
                n <= sites@.len(),
                mid.len() == before.len(),
                out@.len() == before.len(),
                forall|i: int|
                    0 <= i < sites@.len() ==> #[trigger] sites@[i] + 4 <= before.len(),
                forall|i: int| 0 <= i < sites@.len() ==> reaches(#[trigger] sites@[i] as int, va),
                out@ == with_calls(mid, sites@, va, n as nat),
            decreases sites@.len() - n,
        {
            let site: usize = sites[n];
            assert(reaches(sites@[n as int] as int, va));
            let ghost was = out@;
            match thumb_asm::encode_bl(site, va) {
                Some(bl) => {
                    thumb_asm::write(out.as_mut_slice(), site, &bl);
                },
                None => {
                    assert(false);
                },
            }
            proof {
                lemma_written_call(was, site as int, va);
            }
            if !thumb::verify_branch(out.as_slice(), site, BranchShape::Bl, va) {
                assert(false);
            }
            n += 1;
        }
        Ok(va)
    }

    /// Installs the boot hook over the call of `pair`; answers the call's place and
    /// the stub's.
    pub fn emit_boot_init(
        &self,
        image: &[u8],
        out: &mut Vec<u8>,
        table: &Vec<TableEntry>,
        flag_base: u32,
        pair: (usize, u32),
    ) -> (r: Result<(u32, u32), FwError>)
        requires
            raw::addressable(image@),
            old(out)@.len() == image@.len(),
            pair.0 + 4 <= image@.len(),
        ensures
            emitted(
                r,
                old(out)@,
                final(out)@,
                boot_emission(image@, old(out)@, table@, flag_base, pair),
            ),
            final(out)@.len() == old(out)@.len(),
    {
        let home: u32 = match self.find_nv_block(image) {
            Ok(h) => h,
            Err(e) => return Err(e),
        };
        let stub: Vec<u8> = match self.build_boot_init(flag_base, pair.1, home) {
            Ok(v) => v,
            Err(e) => return Err(e),
        };
        match self.install_call(out, table, pair.0, &stub, Reason::BootRange) {
            Ok(va) => Ok((pair.0 as u32, va)),
            Err(e) => Err(e),
        }
    }

    /// Installs the Speed detour; answers its gate and the stub's place.
    pub fn emit_speed(
        &self,
        image: &[u8],
        out: &mut Vec<u8>,
        table: &Vec<TableEntry>,
        flag_base: u32,
    ) -> (r: Result<(u32, u32), FwError>)
        requires
            raw::addressable(image@),
            old(out)@.len() == image@.len(),
            detours::flags_fit(flag_base),
        ensures
            emitted(
                r,
                old(out)@,
                final(out)@,
                speed_emission(image@, old(out)@, table@, flag_base),
            ),
            final(out)@.len() == old(out)@.len(),
    {
        let (gate, reg): (u32, u8) = match self.find_speed_gate(image) {
            Ok(g) => g,
            Err(e) => return Err(e),
        };
        let h: u16 = raw::halfword(image, gate as usize + 6);
        if h / 256 != 0xD8 {
            return Err(FwError::Refused(Reason::SpeedBranch { at: gate + 6, got: h }));
        }
        let exit: u32 = code::cond_branch(gate as usize + 6, h);
        let stub: Vec<u8> = match self.build_speed_stub(flag_base, gate + 8, exit, reg) {
            Ok(v) => v,
            Err(e) => return Err(e),
        };
        match self.install_call(out, table, gate as usize + 4, &stub, Reason::SpeedRange) {
            Ok(va) => Ok((gate, va)),
            Err(e) => Err(e),
        }
    }

    /// Installs the Region detour; answers the emitter and the stub's place.
    pub fn emit_region(
        &self,
        image: &[u8],
        out: &mut Vec<u8>,
        table: &Vec<TableEntry>,
        flag_base: u32,
    ) -> (r: Result<(u32, u32), FwError>)
        requires
            raw::addressable(image@),
            old(out)@.len() == image@.len(),
            detours::flags_fit(flag_base),
        ensures
            emitted(
                r,
                old(out)@,
                final(out)@,
                region_emission(image@, old(out)@, table@, flag_base),
            ),
            final(out)@.len() == old(out)@.len(),
    {
        let at: u32 = match self.find_region_emitter(image) {
            Ok(at) => at,
            Err(e) => return Err(e),
        };
        let stub: Vec<u8> = match self.build_region_stub(flag_base) {
            Ok(v) => v,
            Err(e) => return Err(e),
        };
        match self.install_call(out, table, at as usize + 6, &stub, Reason::RegionRange) {
            Ok(va) => Ok((at, va)),
            Err(e) => Err(e),
        }
    }
}

} // verus!
