//! The capture pipeline and its orchestrator: for each configured module
//! name, locate the module, snapshot its memory, repair the captured image,
//! date it, and compute the output paths. Failures are per module — one bad
//! module never stops the others — and the prepared images are handed back
//! for the surrounding program to persist and report.

use vstd::prelude::*;

use vstd::string::StrSliceExecFns;

use crate::clock::{civil_from_unix, civil_of_unix, today_utc};
use crate::config::Config;
use crate::error::Error;
use crate::image::{
    elf_repaired, fix_image, is_elf_image, is_pe_image, pe_build_timestamp, pe_repaired,
    pe_timestamp, repair_applies,
};
use crate::paths::{dump_paths, spec_dump_dir, spec_dump_path};
use crate::process::ProcessTrait;

verus! {

/// One module's repaired image, ready to persist: where its dumps live, the
/// dated file path, the repaired bytes, the raw capture they were repaired
/// from (kept only for reasoning), the base address the module was resident
/// at, and the date that named it.
pub struct PreparedDump {
    pub name: Vec<u8>,
    pub dir: Vec<u8>,
    pub path: Vec<u8>,
    pub data: Vec<u8>,
    pub captured: Ghost<Seq<u8>>,
    pub module_base: usize,
    pub year: u64,
    pub month: u64,
    pub day: u64,
}

/// What holds of every prepared dump: the paths are exactly the dated output
/// paths for its module name, the date is a calendar date, the capture was
/// repairable, and the bytes are exactly the repaired capture — for an ELF
/// capture per `elf_repaired`, for a PE capture per `pe_repaired` with the
/// captured base recorded as the load address; a PE image's date comes from
/// its build timestamp.
pub open spec fn prepared_wf(p: PreparedDump) -> bool {
    &&& p.dir@ == spec_dump_dir(p.name@)
    &&& p.path@ == spec_dump_path(p.name@, p.year as nat, p.month as nat, p.day as nat)
    &&& p.module_base != 0
    &&& p.data@.len() > 0
    &&& 1 <= p.month <= 12
    &&& 1 <= p.day <= 31
    &&& repair_applies(p.captured@)
    &&& (is_elf_image(p.captured@) ==> elf_repaired(p.captured@, p.data@))
    &&& (!is_elf_image(p.captured@) ==> is_pe_image(p.captured@) && pe_repaired(
        p.captured@,
        p.data@,
        p.module_base as int,
    ))
    &&& (!is_elf_image(p.data@) ==> ((p.year, p.month, p.day)) == civil_of_unix(
        pe_timestamp(p.data@) as u64,
    ))
}

/// Runs the pipeline for one module name: locate it, reject a degenerate
/// location, capture exactly its size, repair the image in place, date it by
/// its build timestamp (PE) or by today (ELF), and compute its output paths.
/// Every failure is returned, never escalated.
pub fn prepare_module<P: ProcessTrait>(process: &P, name: &Vec<u8>) -> (r: Result<
    PreparedDump,
    Error,
>)
    ensures
        r is Ok ==> r->Ok_0.name@ == name@ && prepared_wf(r->Ok_0),
{
    let module = match process.mod_find(name) {
        Ok(m) => m,
        Err(e) => {
            return Err(e);
        },
    };
    if module.module_base == 0 || module.module_size == 0 {
        return Err(Error::NotFound);
    }
    let data = match process.mem_read(module.module_base, module.module_size) {
        Ok(d) => d,
        Err(e) => {
            return Err(e);
        },
    };
    let mut data = data;
    let ghost captured = data@;
    match fix_image(module.module_base, &mut data) {
        Ok(()) => (),
        Err(e) => {
            return Err(e);
        },
    }
    let date: (u64, u64, u64) = if data.len() >= 2 && data[0] == 0x4d && data[1] == 0x5a {
        let ts = match pe_build_timestamp(&data) {
            Ok(t) => t,
            Err(e) => {
                return Err(e);
            },
        };
        civil_from_unix(ts)
    } else {
        today_utc()
    };
    let (dir, path) = dump_paths(name, date.0, date.1, date.2);
    let name_copy = crate::text::slice_range(name, 0, name.len());
    proof {
        assert(name_copy@ =~= name@);
    }
    Ok(
        PreparedDump {
            name: name_copy,
            dir,
            path,
            data,
            captured: Ghost(captured),
            module_base: module.module_base,
            year: date.0,
            month: date.1,
            day: date.2,
        },
    )
}

/// One configured module's outcome: the name as configured, and either its
/// prepared dump or the failure that stopped it.
pub struct ModuleOutcome {
    pub name: String,
    pub result: Result<PreparedDump, Error>,
}

/// Runs the pipeline once per configured module name, in order. An absent
/// module list disables every capture. Each name gets exactly one outcome,
/// and a failure for one name never prevents the following names from being
/// processed.
pub fn dump<P: ProcessTrait>(process: &P, config: &Config) -> (r: Vec<ModuleOutcome>)
    ensures
        config.modules is None ==> r@.len() == 0,
        config.modules is Some ==> {
            &&& r@.len() == config.modules->0@.len()
            &&& forall|i: int|
                0 <= i < r@.len() ==> {
                    &&& (#[trigger] r@[i]).name@ == config.modules->0@[i]@
                    &&& (r@[i].result is Ok ==> prepared_wf(r@[i].result->Ok_0)
                        && r@[i].result->Ok_0.name@ == vstd::utf8::encode_utf8(
                        config.modules->0@[i]@,
                    ))
                }
        },
{
    let modules = match &config.modules {
        Some(m) => m,
        None => {
            return Vec::new();
        },
    };
    let mut out: Vec<ModuleOutcome> = Vec::new();
    let mut i: usize = 0;
    while i < modules.len()
        invariant
            i <= modules.len(),
            config.modules is Some,
            modules@ == config.modules->0@,
            out@.len() == i,
            forall|j: int|
                0 <= j < i as int ==> {
                    &&& (#[trigger] out@[j]).name@ == modules@[j]@
                    &&& (out@[j].result is Ok ==> prepared_wf(out@[j].result->Ok_0)
                        && out@[j].result->Ok_0.name@ == vstd::utf8::encode_utf8(modules@[j]@))
                },
        decreases modules.len() - i,
    {
        let name = &modules[i];
        let bytes = name.as_str().as_bytes_vec();
        let result = prepare_module(process, &bytes);
        out.push(ModuleOutcome { name: name.clone(), result });
        i = i + 1;
    }
    out
}

} // verus!
