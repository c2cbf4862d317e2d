//! The base that every patched image carries: the injected command handler.
use crate::abi;
use crate::engine::boot;
use crate::engine::code;
use crate::engine::detours;
use crate::engine::emit;
use crate::engine::flash;
use crate::engine::handler;
use crate::engine::handler::HandlerFacts;
use crate::engine::mt1959::Mt1959Engine;
use crate::engine::response;
use crate::engine::scanner;
use crate::engine::space;
use crate::engine::space::TableEntry;
use crate::engine::sram;
use crate::error::{FwError, Reason, SramCell, Step};
use crate::program;
use crate::raw;
use crate::thumb::CommandRecord;
use vstd::prelude::*;

verus! {

/// Start of the classic generation's dispatch table window.
pub const CLASSIC_TABLE_LO: usize = 0x001a_0000;

/// End of the classic generation's dispatch table window.
pub const CLASSIC_TABLE_HI: usize = 0x001a_8000;

/// How far before the convergence call the boot function starts.
pub const BOOT_ENTRY_BACK: u32 = 0x10;

/// How an image is laid out: what its integrity table covers, and where its lineage
/// keeps its dispatch table and its commit routine.
#[derive(Debug, Clone)]
pub struct Layout {
    /// The integrity table.
    pub covered: Vec<TableEntry>,
    /// Windows that may hold the dispatch table, the likeliest first.
    pub live_record_windows: Vec<(usize, usize)>,
    /// Windows that may hold the commit routine, the likeliest first.
    pub commit_windows: Vec<(usize, usize)>,
}

impl Layout {
    /// Every window starts where an image can reach.
    pub open spec fn fits(self) -> bool {
        scanner::windows_fit(self.live_record_windows@) && scanner::windows_fit(
            self.commit_windows@,
        )
    }
}

/// The facts that a handler is built from, or the first one that is missing.
pub open spec fn handler_facts(
    img: Seq<u8>,
    commit_windows: Seq<(usize, usize)>,
    oem_handler: u32,
    flag_base: u32,
    boot_entry: u32,
) -> Result<HandlerFacts, FwError> {
    match (
        scanner::cdb_base(img),
        response::response_writer(img),
        response::response_commit(img, commit_windows),
        flash::flash_program(img),
        flash::nv_block(img),
        flash::nv_dram_base(img),
    ) {
        (Err(e), _, _, _, _, _) => Err(e),
        (_, Err(e), _, _, _, _) => Err(e),
        (_, _, Err(e), _, _, _) => Err(e),
        (_, _, _, Err(e), _, _) => Err(e),
        (_, _, _, _, Err(e), _) => Err(e),
        (_, _, _, _, _, Err(e)) => Err(e),
        (
            Ok(cdb),
            Ok((writer, commit_off)),
            Ok((commit, length_field)),
            Ok(flash_program),
            Ok(save_home),
            Ok(nv_ptr),
        ) => if handler::FLASHWRITE_ALLOW_LO <= save_home < handler::FLASHWRITE_ALLOW_HI {
            Ok(
                HandlerFacts {
                    cdb,
                    oem_handler,
                    writer,
                    commit_off,
                    commit,
                    length_field,
                    flash_program,
                    save_home,
                    nv_ptr,
                    flag_base,
                    boot_entry,
                },
            )
        } else {
            Err(FwError::Refused(Reason::SaveHome { at: save_home }))
        },
    }
}

/// The handler's bytes, or why there is none.
pub open spec fn handler_code(
    img: Seq<u8>,
    commit_windows: Seq<(usize, usize)>,
    oem_handler: u32,
    flag_base: u32,
    boot_entry: u32,
) -> Result<Seq<u8>, FwError> {
    match handler_facts(img, commit_windows, oem_handler, flag_base, boot_entry) {
        Err(e) => Err(e),
        Ok(f) => Ok(emit::code_of(handler::handler_program(f))),
    }
}

/// An image with the handler in place but not yet pointed at.
pub struct Base {
    /// The dispatch record to take over.
    pub record: CommandRecord,
    /// SRAM flag table.
    pub flag_base: u32,
    /// Boot function entry, or 0.
    pub boot_entry: u32,
    /// The handler.
    pub handler: Seq<u8>,
    /// Where the handler is.
    pub handler_va: u32,
    /// The image.
    pub image: Seq<u8>,
}

/// `img` with a handler for `record` in its roomiest free space; a handler that cannot be
/// built is a refusal of `step`.
pub open spec fn with_handler(
    img: Seq<u8>,
    layout: Layout,
    record: CommandRecord,
    flag_base: u32,
    boot_entry: u32,
    step: Step,
) -> Result<Base, FwError> {
    match handler_code(
        img,
        layout.commit_windows@,
        record.handler,
        flag_base,
        boot_entry,
    ) {
        Err(e) => Err(e.of(step)),
        Ok(bytes) => match space::free_at(img, layout.covered@, bytes.len() + emit::SPARE) {
            Err(e) => Err(e),
            Ok(va) => Ok(
                Base {
                    record,
                    flag_base,
                    boot_entry,
                    handler: bytes,
                    handler_va: va,
                    image: raw::patched(img, va as int, bytes),
                },
            ),
        },
    }
}

/// The boot function's entry: a fixed distance before the convergence call.
pub open spec fn boot_function(site: usize) -> u32 {
    code::address(site - BOOT_ENTRY_BACK)
}

/// The base of a modern image: the flag cells are free, and the boot path is known.
pub open spec fn modern_base(img: Seq<u8>, layout: Layout) -> Result<
    (Base, (usize, u32)),
    FwError,
> {
    match (
        scanner::live_record(img, abi::READ_BUFFER_OPCODE, layout.live_record_windows@),
        sram::sram_cell_free(
            img,
            sram::FLAG_TABLE_BASE,
            (handler::NUM_FEATURES + 1) as u32,
            SramCell::FlagTable,
        ),
        sram::sram_cell_free(
            img,
            (sram::FLAG_TABLE_BASE + handler::FLASHWRITE_SCRATCH_OFF) as u32,
            1,
            SramCell::Scratch,
        ),
        boot::boot_init_pair(img),
    ) {
        (Err(e), _, _, _) => Err(e),
        (_, Err(e), _, _) => Err(e),
        (_, _, Err(e), _) => Err(e),
        (_, _, _, Err(e)) => Err(e),
        (Ok(record), Ok(_), Ok(_), Ok(pair)) => match with_handler(
            img,
            layout,
            record,
            sram::FLAG_TABLE_BASE,
            boot_function(pair.0),
            Step::Handler,
        ) {
            Err(e) => Err(e),
            Ok(b) => Ok((b, pair)),
        },
    }
}

/// The base of a classic image: its own table window, and a flag cell of its own. The
/// boot function is not known, so the handler has no way to re-enter it.
pub open spec fn classic_base(img: Seq<u8>, layout: Layout) -> Result<Base, FwError> {
    match (
        scanner::scanner_entry(img),
        scanner::cdb_base(img),
        response::response_writer(img),
        response::response_commit(img, layout.commit_windows@),
        scanner::live_record_in(
            img,
            abi::READ_BUFFER_OPCODE,
            CLASSIC_TABLE_LO as int,
            CLASSIC_TABLE_HI as int,
        ),
        sram::free_cell(img),
    ) {
        (Err(e), _, _, _, _, _) => Err(e.of(Step::ClassicScanner)),
        (_, Err(e), _, _, _, _) => Err(e.of(Step::ClassicCdbBase)),
        (_, _, Err(e), _, _, _) => Err(e.of(Step::ClassicWriter)),
        (_, _, _, Err(e), _, _) => Err(e.of(Step::ClassicCommit)),
        (_, _, _, _, Err(e), _) => Err(e.of(Step::ClassicRecord)),
        (_, _, _, _, _, Err(e)) => Err(e.of(Step::ClassicCell)),
        (_, _, _, _, Ok(record), Ok(flag_base)) => with_handler(
            img,
            layout,
            record,
            flag_base,
            0,
            Step::ClassicHandler,
        ),
    }
}

/// [`Base`] as it is built.
#[derive(Debug)]
pub struct BaseImage {
    /// The dispatch record to take over.
    pub record: CommandRecord,
    /// SRAM flag table.
    pub flag_base: u32,
    /// Boot function entry, or 0.
    pub boot_entry: u32,
    /// The handler.
    pub handler: Vec<u8>,
    /// Where the handler is.
    pub handler_va: u32,
    /// The image.
    pub image: Vec<u8>,
}

impl View for BaseImage {
    type V = Base;

    open spec fn view(&self) -> Base {
        Base {
            record: self.record,
            flag_base: self.flag_base,
            boot_entry: self.boot_entry,
            handler: self.handler@,
            handler_va: self.handler_va,
            image: self.image@,
        }
    }
}

/// What later steps need of a base over an image of `len` bytes.
pub open spec fn workable(b: Base, len: nat) -> bool {
    &&& b.image.len() == len
    &&& b.record.off + scanner::STRIDE <= len
    &&& detours::flags_fit(b.flag_base)
    &&& b.handler_va % 4 == 0
    &&& b.handler_va < u32::MAX
    &&& program::holds_data(b.handler, handler::IDENTITY@, 0x20)
}

impl Mt1959Engine {
    /// Builds the command handler for this image: every address in it is read off the
    /// image, and the block that it saves to has to lie in the flash-write window.
    pub fn build_handler(
        &self,
        image: &[u8],
        commit_windows: &Vec<(usize, usize)>,
        oem_handler: u32,
        flag_base: u32,
        boot_function_entry: u32,
    ) -> (r: Result<Vec<u8>, FwError>)
        requires
            raw::addressable(image@),
            scanner::windows_fit(commit_windows@),
            detours::flags_fit(flag_base),
        ensures
            match (
                r,
                handler_code(
                    image@,
                    commit_windows@,
                    oem_handler,
                    flag_base,
                    boot_function_entry,
                ),
            ) {
                (Ok(v), Ok(b)) => v@ == b,
                (Err(e), Err(f)) => e == f,
                _ => false,
            },
            r matches Ok(v) ==> program::holds_data(v@, handler::IDENTITY@, 0x20),
    {
        let cdb: u32 = match self.find_cdb_base(image) {
            Ok(v) => v,
            Err(e) => return Err(e),
        };
        let (writer, commit_off): (u32, u32) = match self.find_response_writer(image) {
            Ok(v) => v,
            Err(e) => return Err(e),
        };
        let (commit, length_field): (u32, u32) = match self.find_response_commit(
            image,
            commit_windows,
        ) {
            Ok(v) => v,
            Err(e) => return Err(e),
        };
        let flash_program: u32 = match self.find_flash_program(image) {
            Ok(v) => v,
            Err(e) => return Err(e),
        };
        let save_home: u32 = match self.find_nv_block(image) {
            Ok(v) => v,
            Err(e) => return Err(e),
        };
        let nv_ptr: u32 = match self.find_nv_dram_base(image) {
            Ok(v) => v,
            Err(e) => return Err(e),
        };
        if save_home < handler::FLASHWRITE_ALLOW_LO || save_home >= handler::FLASHWRITE_ALLOW_HI {
            return Err(FwError::Refused(Reason::SaveHome { at: save_home }));
        }
        let facts: HandlerFacts = HandlerFacts {
            cdb,
            oem_handler,
            writer,
            commit_off,
            commit,
            length_field,
            flash_program,
            save_home,
            nv_ptr,
            flag_base,
            boot_entry: boot_function_entry,
        };
        self.assemble_handler(&facts)
    }

    /// Puts a handler for `record` into the image's free space.
    fn place_handler(
        &self,
        image: &[u8],
        layout: &Layout,
        record: CommandRecord,
        flag_base: u32,
        boot_entry: u32,
        step: Step,
    ) -> (r: Result<BaseImage, FwError>)
        requires
            raw::addressable(image@),
            layout.fits(),
            detours::flags_fit(flag_base),
            record.off + scanner::STRIDE <= image@.len(),
        ensures
            match (r, with_handler(image@, *layout, record, flag_base, boot_entry, step)) {
                (Ok(b), Ok(p)) => b@ == p && workable(p, image@.len()),
                (Err(e), Err(f)) => e == f,
                _ => false,
            },
    {
        let bytes: Vec<u8> = match self.build_handler(
            image,
            &layout.commit_windows,
            record.handler,
            flag_base,
            boot_entry,
        ) {
            Ok(v) => v,
            Err(e) => return Err(e.within(step)),
        };
        let va: u32 = match self.find_room(image, &layout.covered, bytes.len()) {
            Ok(va) => va,
            Err(e) => return Err(e),
        };
        let mut out: Vec<u8> = vstd::slice::slice_to_vec(image);
        thumb_asm::write(out.as_mut_slice(), va as usize, bytes.as_slice());
        Ok(
            BaseImage {
                record,
                flag_base,
                boot_entry,
                handler: bytes,
                handler_va: va,
                image: out,
            },
        )
    }

    /// The base of a modern image, and the call that its boot hook takes over.
    pub fn build_modern_base(&self, image: &[u8], layout: &Layout) -> (r: Result<
        (BaseImage, (usize, u32)),
        FwError,
    >)
        requires
            raw::addressable(image@),
            layout.fits(),
        ensures
            match (r, modern_base(image@, *layout)) {
                (Ok((b, p)), Ok((c, q))) => b@ == c && p == q && workable(c, image@.len()) && p.0
                    + 4 <= image@.len(),
                (Err(e), Err(f)) => e == f,
                _ => false,
            },
    {
        let record: CommandRecord = match self.find_live_record(
            image,
            abi::READ_BUFFER_OPCODE,
            &layout.live_record_windows,
        ) {
            Ok(rec) => rec,
            Err(e) => return Err(e),
        };
        match self.assert_sram_cell_free(
            image,
            sram::FLAG_TABLE_BASE,
            handler::NUM_FEATURES as u32 + 1,
            SramCell::FlagTable,
        ) {
            Ok(()) => {},
            Err(e) => return Err(e),
        }
        match self.assert_sram_cell_free(
            image,
            sram::FLAG_TABLE_BASE + handler::FLASHWRITE_SCRATCH_OFF,
            1,
            SramCell::Scratch,
        ) {
            Ok(()) => {},
            Err(e) => return Err(e),
        }
        let pair: (usize, u32) = match self.resolve_boot_init_pair(image) {
            Ok(p) => p,
            Err(e) => return Err(e),
        };
        let site: u32 = pair.0 as u32;
        let entry: u32 = if site >= BOOT_ENTRY_BACK {
            site - BOOT_ENTRY_BACK
        } else {
            u32::MAX - (BOOT_ENTRY_BACK - site) + 1
        };
        match self.place_handler(image, layout, record, sram::FLAG_TABLE_BASE, entry, Step::Handler) {
            Ok(b) => Ok((b, pair)),
            Err(e) => Err(e),
        }
    }

    /// The base of a classic image.
    pub fn build_classic_base(&self, image: &[u8], layout: &Layout) -> (r: Result<
        BaseImage,
        FwError,
    >)
        requires
            raw::addressable(image@),
            layout.fits(),
        ensures
            match (r, classic_base(image@, *layout)) {
                (Ok(b), Ok(c)) => b@ == c && workable(c, image@.len()),
                (Err(e), Err(f)) => e == f,
                _ => false,
            },
    {
        match self.find_scanner_entry(image) {
            Ok(_) => {},
            Err(e) => return Err(e.within(Step::ClassicScanner)),
        }
        match self.find_cdb_base(image) {
            Ok(_) => {},
            Err(e) => return Err(e.within(Step::ClassicCdbBase)),
        }
        match self.find_response_writer(image) {
            Ok(_) => {},
            Err(e) => return Err(e.within(Step::ClassicWriter)),
        }
        match self.find_response_commit(image, &layout.commit_windows) {
            Ok(_) => {},
            Err(e) => return Err(e.within(Step::ClassicCommit)),
        }
        let record: CommandRecord = match self.find_live_record_in(
            image,
            abi::READ_BUFFER_OPCODE,
            CLASSIC_TABLE_LO,
            CLASSIC_TABLE_HI,
        ) {
            Ok(rec) => rec,
            Err(e) => return Err(e.within(Step::ClassicRecord)),
        };
        let flag_base: u32 = match self.find_free_sram_cell(image) {
            Ok(b) => b,
            Err(e) => return Err(e.within(Step::ClassicCell)),
        };
        self.place_handler(image, layout, record, flag_base, 0, Step::ClassicHandler)
    }
}

} // verus!
