//! Run configuration: whether to dump at all, and which modules to dump.
//! Loaded from disk by the surrounding program; when no configuration can be
//! read, the default built here is used and persisted. An absent module list
//! means "dump nothing".

use vstd::prelude::*;

use vstd::string::StringExecFns;

verus! {

/// The run configuration. `modules` is the ordered list of module names to
/// capture; `None` disables every capture.
#[derive(Clone)]
pub struct Config {
    pub dump_modules: bool,
    pub modules: Option<Vec<String>>,
}

impl Config {
    /// The default configuration: dumping enabled, with the platform's
    /// well-known module list.
    pub fn new() -> (r: Self)
        ensures
            r.dump_modules == true,
            r.modules is Some,
            r.modules->0@.len() == 21,
            r.modules->0@[0]@ == "cs2"@,
            r.modules->0@[1]@ == "libclient.so"@,
            r.modules->0@[2]@ == "libengine2.so"@,
            r.modules->0@[3]@ == "libschemasystem.so"@,
            r.modules->0@[4]@ == "libanimationsystem.so"@,
            r.modules->0@[5]@ == "librendersystemvulkan.so"@,
            r.modules->0@[6]@ == "libfilesystem_stdio.so"@,
            r.modules->0@[7]@ == "libinputsystem.so"@,
            r.modules->0@[8]@ == "libmaterialsystem2.so"@,
            r.modules->0@[9]@ == "libmeshsystem.so"@,
            r.modules->0@[10]@ == "libnetworksystem.so"@,
            r.modules->0@[11]@ == "libpanorama.so"@,
            r.modules->0@[12]@ == "libpanoramauiclient.so"@,
            r.modules->0@[13]@ == "libresourcesystem.so"@,
            r.modules->0@[14]@ == "libscenesystem.so"@,
            r.modules->0@[15]@ == "libsoundsystem.so"@,
            r.modules->0@[16]@ == "libtier0.so"@,
            r.modules->0@[17]@ == "libvphysics2.so"@,
            r.modules->0@[18]@ == "libworldrenderer.so"@,
            r.modules->0@[19]@ == "libmatchmaking.so"@,
            r.modules->0@[20]@ == "libserver.so"@,
    {
        let mut modules: Vec<String> = Vec::new();
        modules.push(String::from_str("cs2"));
        modules.push(String::from_str("libclient.so"));
        modules.push(String::from_str("libengine2.so"));
        modules.push(String::from_str("libschemasystem.so"));
        modules.push(String::from_str("libanimationsystem.so"));
        modules.push(String::from_str("librendersystemvulkan.so"));
        modules.push(String::from_str("libfilesystem_stdio.so"));
        modules.push(String::from_str("libinputsystem.so"));
        modules.push(String::from_str("libmaterialsystem2.so"));
        modules.push(String::from_str("libmeshsystem.so"));
        modules.push(String::from_str("libnetworksystem.so"));
        modules.push(String::from_str("libpanorama.so"));
        modules.push(String::from_str("libpanoramauiclient.so"));
        modules.push(String::from_str("libresourcesystem.so"));
        modules.push(String::from_str("libscenesystem.so"));
        modules.push(String::from_str("libsoundsystem.so"));
        modules.push(String::from_str("libtier0.so"));
        modules.push(String::from_str("libvphysics2.so"));
        modules.push(String::from_str("libworldrenderer.so"));
        modules.push(String::from_str("libmatchmaking.so"));
        modules.push(String::from_str("libserver.so"));
        Config { dump_modules: true, modules: Some(modules) }
    }
}

} // verus!
