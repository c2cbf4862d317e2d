//! Building firmware strictly: the whole report, or the reason why not.
use crate::engine::base;
use crate::engine::base::{BaseImage, Layout};
use crate::engine::emit;
use crate::engine::gates;
use crate::engine::marks;
use crate::engine::modify;
use crate::engine::mt1959::Mt1959Engine;
use crate::engine::rawread;
use crate::engine::rawread::RawReadFacts;
use crate::engine::scanner;
use crate::engine::space::TableEntry;
use crate::engine::sram;
use crate::engine::vid;
use crate::error::FwError;
use crate::raw;
use crate::thumb::CommandRecord;
use vstd::prelude::*;

verus! {

/// The byte that enables downgrades.
pub const DE_BYTE: u8 = 0xDE;

/// What was built, and the facts that it was built from.
#[derive(Debug, Clone)]
pub struct CreateReport {
    /// The patched image, not yet signed.
    pub image: Vec<u8>,
    /// Entry of the scanner.
    pub scanner_entry: u32,
    /// The command block that the scanner reads.
    pub cdb_base: u32,
    /// The sense setter, or 0.
    pub sense_setter: u32,
    /// The dispatch record that was taken over, as it was.
    pub record: CommandRecord,
    /// Where the handler is.
    pub handler_va: u32,
    /// The handler.
    pub handler_bytes: Vec<u8>,
    /// The call that the boot hook took over, or 0.
    pub boot_init_site: u32,
    /// The boot hook, or 0.
    pub boot_stub_va: u32,
    /// The boot function that the handler can re-enter, or 0.
    pub boot_function_entry: u32,
    /// The Volume ID producer, or 0.
    pub vid_producer: u32,
    /// The buffer that the producer stages into, or 0.
    pub vid_out_buf: u32,
    /// The routine that opens the Volume ID gate, or 0.
    pub vid_gate_setter: u32,
    /// The disc-mode dispatcher, or 0.
    pub setdiscmode: u32,
    /// The ramp-ceiling gate, or 0.
    pub speed_gate: u32,
    /// The Speed stub, or 0.
    pub speed_stub_va: u32,
    /// The RPC-state emitter, or 0.
    pub region_emitter: u32,
    /// The Region stub, or 0.
    pub region_stub_va: u32,
    /// The AKE accept gate, or 0.
    pub ake_gate: u32,
    /// The AKE stub, or 0.
    pub ake_stub_va: u32,
    /// The Volume ID gate's compare, or 0.
    pub gatea_gate: u32,
    /// The Volume ID gate's stub, or 0.
    pub gatea_stub_va: u32,
    /// The deny path's sense setup, or 0.
    pub deny_reset_gate: u32,
    /// The deny stub, or 0.
    pub deny_stub_va: u32,
    /// Where the UHD call is, or 0.
    pub uhd_classifier_site: u32,
    /// The UHD stub, or 0.
    pub uhd_stub_va: u32,
    /// Where the BD call is, or 0.
    pub bd_gate_site: u32,
    /// The BD stub, or 0.
    pub bd_stub_va: u32,
    /// Where the revocation calls are.
    pub hrl_sites: Vec<u32>,
    /// The revocation stub, or 0.
    pub hrl_stub_va: u32,
    /// The downgrade-enable byte, or 0.
    pub de_off: u32,
    /// The SRAM flag table.
    pub flag_base: u32,
    /// The SRAM cell that the image leaves free, or 0.
    pub free_sram_cell: u32,
}

/// [`CreateReport`] with its lists as sequences.
pub struct Created {
    /// The patched image, not yet signed.
    pub image: Seq<u8>,
    /// Entry of the scanner.
    pub scanner_entry: u32,
    /// The command block that the scanner reads.
    pub cdb_base: u32,
    /// The sense setter, or 0.
    pub sense_setter: u32,
    /// The dispatch record that was taken over, as it was.
    pub record: CommandRecord,
    /// Where the handler is.
    pub handler_va: u32,
    /// The handler.
    pub handler_bytes: Seq<u8>,
    /// The call that the boot hook took over, or 0.
    pub boot_init_site: u32,
    /// The boot hook, or 0.
    pub boot_stub_va: u32,
    /// The boot function that the handler can re-enter, or 0.
    pub boot_function_entry: u32,
    /// The Volume ID producer, or 0.
    pub vid_producer: u32,
    /// The buffer that the producer stages into, or 0.
    pub vid_out_buf: u32,
    /// The routine that opens the Volume ID gate, or 0.
    pub vid_gate_setter: u32,
    /// The disc-mode dispatcher, or 0.
    pub setdiscmode: u32,
    /// The ramp-ceiling gate, or 0.
    pub speed_gate: u32,
    /// The Speed stub, or 0.
    pub speed_stub_va: u32,
    /// The RPC-state emitter, or 0.
    pub region_emitter: u32,
    /// The Region stub, or 0.
    pub region_stub_va: u32,
    /// The AKE accept gate, or 0.
    pub ake_gate: u32,
    /// The AKE stub, or 0.
    pub ake_stub_va: u32,
    /// The Volume ID gate's compare, or 0.
    pub gatea_gate: u32,
    /// The Volume ID gate's stub, or 0.
    pub gatea_stub_va: u32,
    /// The deny path's sense setup, or 0.
    pub deny_reset_gate: u32,
    /// The deny stub, or 0.
    pub deny_stub_va: u32,
    /// Where the UHD call is, or 0.
    pub uhd_classifier_site: u32,
    /// The UHD stub, or 0.
    pub uhd_stub_va: u32,
    /// Where the BD call is, or 0.
    pub bd_gate_site: u32,
    /// The BD stub, or 0.
    pub bd_stub_va: u32,
    /// Where the revocation calls are.
    pub hrl_sites: Seq<u32>,
    /// The revocation stub, or 0.
    pub hrl_stub_va: u32,
    /// The downgrade-enable byte, or 0.
    pub de_off: u32,
    /// The SRAM flag table.
    pub flag_base: u32,
    /// The SRAM cell that the image leaves free, or 0.
    pub free_sram_cell: u32,
}

impl View for CreateReport {
    type V = Created;

    open spec fn view(&self) -> Created {
        Created {
            image: self.image@,
            scanner_entry: self.scanner_entry,
            cdb_base: self.cdb_base,
            sense_setter: self.sense_setter,
            record: self.record,
            handler_va: self.handler_va,
            handler_bytes: self.handler_bytes@,
            boot_init_site: self.boot_init_site,
            boot_stub_va: self.boot_stub_va,
            boot_function_entry: self.boot_function_entry,
            vid_producer: self.vid_producer,
            vid_out_buf: self.vid_out_buf,
            vid_gate_setter: self.vid_gate_setter,
            setdiscmode: self.setdiscmode,
            speed_gate: self.speed_gate,
            speed_stub_va: self.speed_stub_va,
            region_emitter: self.region_emitter,
            region_stub_va: self.region_stub_va,
            ake_gate: self.ake_gate,
            ake_stub_va: self.ake_stub_va,
            gatea_gate: self.gatea_gate,
            gatea_stub_va: self.gatea_stub_va,
            deny_reset_gate: self.deny_reset_gate,
            deny_stub_va: self.deny_stub_va,
            uhd_classifier_site: self.uhd_classifier_site,
            uhd_stub_va: self.uhd_stub_va,
            bd_gate_site: self.bd_gate_site,
            bd_stub_va: self.bd_stub_va,
            hrl_sites: self.hrl_sites@,
            hrl_stub_va: self.hrl_stub_va,
            de_off: self.de_off,
            flag_base: self.flag_base,
            free_sram_cell: self.free_sram_cell,
        }
    }
}

/// A place, or 0 where there is none.
pub open spec fn or_zero(r: Result<u32, FwError>) -> u32 {
    match r {
        Ok(v) => v,
        Err(_) => 0,
    }
}

/// Two places, or zeros where there are none.
pub open spec fn or_zeros(r: Result<(u32, u32), FwError>) -> (u32, u32) {
    match r {
        Ok(v) => v,
        Err(_) => (0, 0),
    }
}

/// An emission that may be missed: then the image stays as it is and the places are 0.
pub open spec fn or_unwired(
    out: Seq<u8>,
    r: Result<(Seq<u8>, u32, u32), FwError>,
) -> (Seq<u8>, u32, u32) {
    match r {
        Ok(e) => e,
        Err(_) => (out, 0, 0),
    }
}

/// A Raw-read emission that may be missed.
pub open spec fn or_no_rawread(
    out: Seq<u8>,
    r: Result<(Seq<u8>, rawread::RawRead), FwError>,
) -> (Seq<u8>, rawread::RawRead) {
    match r {
        Ok(e) => e,
        Err(_) => (out, rawread::unwired()),
    }
}

/// `out` with the downgrade-enable byte set, when its place in `img` is known.
pub open spec fn with_de(img: Seq<u8>, out: Seq<u8>) -> Seq<u8> {
    match gates::de_byte(img) {
        Ok(at) => out.update(at as int, DE_BYTE),
        Err(_) => out,
    }
}

/// The pointer that a record dispatches through: the handler with its Thumb bit.
pub open spec fn entry_pointer(va: u32) -> u32 {
    (va + 1) as u32
}

/// The features of a modern image, each where the image has a place for it: Speed,
/// Region, Raw read.
#[verifier::opaque]
pub open spec fn modern_features(img: Seq<u8>, out: Seq<u8>, layout: Layout, flag_base: u32) -> (
    (Seq<u8>, u32, u32),
    (Seq<u8>, u32, u32),
    (Seq<u8>, rawread::RawRead),
) {
    let table = layout.covered@;
    let s = or_unwired(out, emit::speed_emission(img, out, table, flag_base));
    let r = or_unwired(s.0, emit::region_emission(img, s.0, table, flag_base));
    let f = or_no_rawread(r.0, rawread::rawread_emission(img, r.0, table, flag_base));
    (s, r, f)
}

/// Firmware for a modern image. The base and its boot hook are owed; every feature is
/// taken where the image has a place for it.
pub open spec fn create_modern(img: Seq<u8>, layout: Layout) -> Result<Created, FwError> {
    match (scanner::scanner_entry(img), scanner::cdb_base(img), base::modern_base(img, layout)) {
        (Err(e), _, _) => Err(e),
        (_, Err(e), _) => Err(e),
        (_, _, Err(e)) => Err(e),
        (Ok(scanner_entry), Ok(cdb_base), Ok((b, pair))) => match emit::boot_emission(
            img,
            b.image,
            layout.covered@,
            b.flag_base,
            pair,
        ) {
            Err(e) => Err(e),
            Ok((out, boot_init_site, boot_stub_va)) => {
                let (s, r, f) = modern_features(img, out, layout, b.flag_base);
                let producer = or_zeros(vid::vid_producer(img));
                Ok(
                    Created {
                        image: scanner::repointed(
                            with_de(img, f.0),
                            b.record,
                            entry_pointer(b.handler_va),
                        ),
                        scanner_entry,
                        cdb_base,
                        sense_setter: or_zero(scanner::sense_setter_of(img)),
                        record: b.record,
                        handler_va: b.handler_va,
                        handler_bytes: b.handler,
                        boot_init_site,
                        boot_stub_va,
                        boot_function_entry: b.boot_entry,
                        vid_producer: producer.0,
                        vid_out_buf: producer.1,
                        vid_gate_setter: or_zero(vid::gate_setter(img)),
                        setdiscmode: or_zero(gates::setdiscmode(img)),
                        speed_gate: s.1,
                        speed_stub_va: s.2,
                        region_emitter: r.1,
                        region_stub_va: r.2,
                        ake_gate: f.1.ake_gate,
                        ake_stub_va: f.1.ake_stub_va,
                        gatea_gate: f.1.gatea_site,
                        gatea_stub_va: f.1.gatea_stub_va,
                        deny_reset_gate: f.1.deny_site,
                        deny_stub_va: f.1.deny_stub_va,
                        uhd_classifier_site: f.1.uhd_site,
                        uhd_stub_va: f.1.uhd_stub_va,
                        bd_gate_site: f.1.bd_site,
                        bd_stub_va: f.1.bd_stub_va,
                        hrl_sites: f.1.hrl_sites,
                        hrl_stub_va: f.1.hrl_stub_va,
                        de_off: or_zero(gates::de_byte(img)),
                        flag_base: b.flag_base,
                        free_sram_cell: or_zero(sram::free_cell(img)),
                    },
                )
            },
        },
    }
}

/// `r` is what `plan` says.
pub open spec fn created(r: Result<CreateReport, FwError>, plan: Result<Created, FwError>) -> bool {
    match (r, plan) {
        (Ok(c), Ok(p)) => c@ == p,
        (Err(e), Err(f)) => e == f,
        _ => false,
    }
}

/// A place, or 0 where there is none.
pub fn place_or_zero(r: Result<u32, FwError>) -> (v: u32)
    ensures
        v == or_zero(r),
{
    match r {
        Ok(v) => v,
        Err(_) => 0,
    }
}

/// Two places, or zeros where there are none.
pub fn places_or_zeros(r: Result<(u32, u32), FwError>) -> (v: (u32, u32))
    ensures
        v == or_zeros(r),
{
    match r {
        Ok(v) => v,
        Err(_) => (0, 0),
    }
}

impl Mt1959Engine {
    /// Sets the downgrade-enable byte where its place is known; answers the place, or 0.
    pub fn write_de(&self, image: &[u8], out: &mut Vec<u8>) -> (r: u32)
        requires
            raw::addressable(image@),
            old(out)@.len() == image@.len(),
        ensures
            final(out)@ == with_de(image@, old(out)@),
            r == or_zero(gates::de_byte(image@)),
            final(out)@.len() == old(out)@.len(),
    {
        match self.find_de_byte(image) {
            Ok(at) => {
                out[at as usize] = DE_BYTE;
                at
            },
            Err(_) => 0,
        }
    }

    /// Builds firmware from a modern image: the handler, the boot hook, and every
    /// feature that the image has a place for. What is built is recognised as patched.
    pub fn build_report(&self, image: &[u8], layout: &Layout) -> (r: Result<CreateReport, FwError>)
        requires
            raw::addressable(image@),
            layout.fits(),
        ensures
            created(r, create_modern(image@, *layout)),
            r matches Ok(c) ==> modify::carries_magic(c@.image),
    {
        let r: Result<CreateReport, FwError> = self.compose_report(image, layout);
        proof {
            if r is Ok {
                marks::lemma_create_recognised(image@, *layout, r->Ok_0@);
            }
        }
        r
    }

    /// [`Mt1959Engine::build_report`], and that the base it rests on is workable.
    fn compose_report(&self, image: &[u8], layout: &Layout) -> (r: Result<CreateReport, FwError>)
        requires
            raw::addressable(image@),
            layout.fits(),
        ensures
            created(r, create_modern(image@, *layout)),
            r is Ok ==> (base::modern_base(image@, *layout) matches Ok((b, _)) && base::workable(
                b,
                image@.len(),
            )),
    {
        proof {
            reveal(modern_features);
        }
        let scanner_entry: u32 = match self.find_scanner_entry(image) {
            Ok(v) => v,
            Err(e) => return Err(e),
        };
        let cdb_base: u32 = match self.find_cdb_base(image) {
            Ok(v) => v,
            Err(e) => return Err(e),
        };
        let (b, pair): (BaseImage, (usize, u32)) = match self.build_modern_base(image, layout) {
            Ok(v) => v,
            Err(e) => return Err(e),
        };
        let table: &Vec<TableEntry> = &layout.covered;
        let flag_base: u32 = b.flag_base;
        let mut out: Vec<u8> = b.image;
        let (boot_init_site, boot_stub_va): (u32, u32) = match self.emit_boot_init(
            image,
            &mut out,
            table,
            flag_base,
            pair,
        ) {
            Ok(p) => p,
            Err(e) => return Err(e),
        };
        let (speed_gate, speed_stub_va): (u32, u32) = places_or_zeros(
            self.emit_speed(image, &mut out, table, flag_base),
        );
        let (region_emitter, region_stub_va): (u32, u32) = places_or_zeros(
            self.emit_region(image, &mut out, table, flag_base),
        );
        let f: RawReadFacts = match self.emit_rawread(image, &mut out, table, flag_base) {
            Ok(f) => f,
            Err(_) => RawReadFacts::none(),
        };
        let de_off: u32 = self.write_de(image, &mut out);
        scanner::repoint(&mut out, &b.record, b.handler_va + 1);
        let (vid_producer, vid_out_buf): (u32, u32) = places_or_zeros(
            self.find_vid_producer(image),
        );
        Ok(
            CreateReport {
                image: out,
                scanner_entry,
                cdb_base,
                sense_setter: place_or_zero(self.sense_setter(image)),
                record: b.record,
                handler_va: b.handler_va,
                handler_bytes: b.handler,
                boot_init_site,
                boot_stub_va,
                boot_function_entry: b.boot_entry,
                vid_producer,
                vid_out_buf,
                vid_gate_setter: place_or_zero(self.find_vid_gate_setter(image)),
                setdiscmode: place_or_zero(self.find_setdiscmode(image)),
                speed_gate,
                speed_stub_va,
                region_emitter,
                region_stub_va,
                ake_gate: f.ake_gate,
                ake_stub_va: f.ake_stub_va,
                gatea_gate: f.gatea_site,
                gatea_stub_va: f.gatea_stub_va,
                deny_reset_gate: f.deny_site,
                deny_stub_va: f.deny_stub_va,
                uhd_classifier_site: f.uhd_site,
                uhd_stub_va: f.uhd_stub_va,
                bd_gate_site: f.bd_site,
                bd_stub_va: f.bd_stub_va,
                hrl_sites: f.hrl_sites,
                hrl_stub_va: f.hrl_stub_va,
                de_off,
                flag_base,
                free_sram_cell: place_or_zero(self.find_free_sram_cell(image)),
            },
        )
    }
}

} // verus!
