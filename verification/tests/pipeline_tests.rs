use memdump::config::Config;
use memdump::dump::{dump, prepare_module};
use memdump::error::Error;
use memdump::locate::locate_in_maps;
use memdump::paths::dump_paths;
use memdump::process::{ProcessModule, ProcessTrait, WindowsProcess};

fn bytes(s: &str) -> Vec<u8> {
    s.as_bytes().to_vec()
}

/// A scripted target process: a mapping table and one flat image starting at
/// `image_base`.
struct FakeProcess {
    maps: Vec<u8>,
    image_base: usize,
    image: Vec<u8>,
}

impl ProcessTrait for FakeProcess {
    fn attach(&mut self) -> Result<(), Error> {
        Ok(())
    }

    fn detach(&mut self) -> Result<(), Error> {
        Ok(())
    }

    fn mem_read(&self, address: usize, length: usize) -> Result<Vec<u8>, Error> {
        if address < self.image_base {
            return Err(Error::IoError);
        }
        let off = address - self.image_base;
        if off + length > self.image.len() {
            return Err(Error::IoError);
        }
        Ok(self.image[off..off + length].to_vec())
    }

    fn mem_write(&self, _address: usize, _data: &Vec<u8>) -> Result<(), Error> {
        Ok(())
    }

    fn mod_find(&self, name: &Vec<u8>) -> Result<ProcessModule, Error> {
        locate_in_maps(&self.maps, name)
    }
}

/// An ELF image of `len` bytes with no section table, so repair leaves it
/// unchanged.
fn flat_elf(len: usize) -> Vec<u8> {
    let mut d = vec![0u8; len];
    d[0] = 0x7f;
    d[1] = 0x45;
    d[2] = 0x4c;
    d[3] = 0x46;
    d
}

fn example_process() -> FakeProcess {
    FakeProcess {
        maps: bytes(
            "1000-3000 r-xp 00000000 08:01 7    /usr/lib/libexample.so\n\
             3000-4000 rw-p 00002000 08:01 7    libexample.so\n",
        ),
        image_base: 0x1000,
        image: flat_elf(0x3000),
    }
}

fn config_with(names: &[&str]) -> Config {
    Config {
        dump_modules: true,
        modules: Some(names.iter().map(|s| s.to_string()).collect()),
    }
}

#[test]
fn a_null_module_list_captures_nothing() {
    let process = example_process();
    let config = Config { dump_modules: true, modules: None };
    let outcomes = dump(&process, &config);
    assert_eq!(outcomes.len(), 0);
}

#[test]
fn one_missing_module_does_not_stop_the_next() {
    let process = example_process();
    let config = config_with(&["missing.so", "libexample.so"]);
    let outcomes = dump(&process, &config);
    assert_eq!(outcomes.len(), 2);
    assert_eq!(outcomes[0].name, "missing.so");
    assert!(matches!(outcomes[0].result, Err(Error::NotFound)));
    assert_eq!(outcomes[1].name, "libexample.so");
    assert!(outcomes[1].result.is_ok());
}

#[test]
fn the_example_module_is_captured_end_to_end() {
    // two mapping entries spanning 0x1000-0x3000 and 0x3000-0x4000: the
    // capture reads 0x3000 bytes from 0x1000
    let process = example_process();
    let config = config_with(&["libexample.so"]);
    let outcomes = dump(&process, &config);
    assert_eq!(outcomes.len(), 1);
    let p = outcomes[0].result.as_ref().unwrap();
    assert_eq!(p.module_base, 0x1000);
    assert_eq!(p.data.len(), 0x3000);
    assert_eq!(p.dir, bytes("output/modules/libexample"));
    let path = String::from_utf8(p.path.clone()).unwrap();
    assert!(path.starts_with("output/modules/libexample/libexample_"));
    assert!(path.ends_with(".so"));
    // the path is exactly the dated path for the capture date
    let (_, expected) = dump_paths(&bytes("libexample.so"), p.year, p.month, p.day);
    assert_eq!(p.path, expected);
    assert!((1..=12).contains(&p.month));
    assert!((1..=31).contains(&p.day));
}

#[test]
fn a_degenerate_location_is_rejected_before_capture() {
    let process = FakeProcess {
        maps: bytes("0-2000 r-xp 00000000 08:01 7    /usr/lib/zero.so\n"),
        image_base: 0,
        image: flat_elf(0x2000),
    };
    let r = prepare_module(&process, &bytes("zero.so"));
    assert_eq!(r.err(), Some(Error::NotFound));
}

#[test]
fn an_unrepairable_capture_fails_that_module() {
    let process = FakeProcess {
        maps: bytes("1000-2000 r-xp 00000000 08:01 7    /usr/lib/junk.so\n"),
        image_base: 0x1000,
        image: vec![9u8; 0x1000],
    };
    let r = prepare_module(&process, &bytes("junk.so"));
    assert_eq!(r.err(), Some(Error::InvalidImage));
}

#[test]
fn a_failing_memory_read_fails_that_module() {
    let process = FakeProcess {
        maps: bytes("1000-9000 r-xp 00000000 08:01 7    /usr/lib/big.so\n"),
        image_base: 0x1000,
        image: flat_elf(0x2000),
    };
    // the table declares more than the scripted image holds
    let r = prepare_module(&process, &bytes("big.so"));
    assert_eq!(r.err(), Some(Error::IoError));
}

#[test]
fn a_pe_capture_is_dated_by_its_build_timestamp() {
    // timestamp 0 is the epoch: 1 January 1970
    let mut image = vec![0u8; 0x400];
    image[0] = 0x4d;
    image[1] = 0x5a;
    image[0x3c] = 0x40;
    image[0x40 + 20] = 240;
    let process = FakeProcess {
        maps: bytes("1000-1400 r-xp 00000000 08:01 7    /games/sample.dll\n"),
        image_base: 0x1000,
        image,
    };
    let p = prepare_module(&process, &bytes("sample.dll")).unwrap();
    assert_eq!(p.year, 1970);
    assert_eq!(p.month, 1);
    assert_eq!(p.day, 1);
    assert_eq!(
        String::from_utf8(p.path).unwrap(),
        "output/modules/sample/sample_01_01_1970.dll"
    );
}

#[test]
fn output_paths_are_dated_and_deterministic() {
    let (dir, path) = dump_paths(&bytes("libexample.so"), 2024, 3, 7);
    assert_eq!(dir, bytes("output/modules/libexample"));
    assert_eq!(path, bytes("output/modules/libexample/libexample_07_03_2024.so"));
    // running the writer again for the same module and date targets the very
    // same path, so the exclusive create skips instead of overwriting
    let (dir2, path2) = dump_paths(&bytes("libexample.so"), 2024, 3, 7);
    assert_eq!(dir, dir2);
    assert_eq!(path, path2);
    // a name without an extension
    let (dir, path) = dump_paths(&bytes("cs2"), 2024, 12, 31);
    assert_eq!(dir, bytes("output/modules/cs2"));
    assert_eq!(path, bytes("output/modules/cs2/cs2_31_12_2024"));
    // a large year is printed in full
    let (_, path) = dump_paths(&bytes("a.b"), 12345, 1, 2);
    assert_eq!(path, bytes("output/modules/a/a_02_01_12345.b"));
}

#[test]
fn the_default_configuration_lists_the_well_known_modules() {
    let c = Config::new();
    assert!(c.dump_modules);
    let modules = c.modules.unwrap();
    assert_eq!(modules.len(), 21);
    assert_eq!(modules[0], "cs2");
    assert_eq!(modules[1], "libclient.so");
    assert_eq!(modules[20], "libserver.so");
}

#[test]
fn the_session_state_machine_refuses_misuse() {
    let mut session = WindowsProcess::new(4242);
    assert_eq!(session.process_id(), 4242);
    assert!(!session.is_attached());
    assert_eq!(session.detach_handle(), Err(Error::NotAttached));
    assert_eq!(session.attach_handle(7), Ok(()));
    assert!(session.is_attached());
    assert_eq!(session.attach_handle(8), Err(Error::AlreadyAttached));
    assert_eq!(session.process_id(), 4242);
    assert_eq!(session.detach_handle(), Ok(7));
    assert!(!session.is_attached());
    assert_eq!(session.detach_handle(), Err(Error::NotAttached));
}

#[test]
fn every_failure_has_its_message() {
    assert_eq!(Error::NotFound.message(), "not found");
    assert_eq!(Error::NotAttached.message(), "not attached");
    assert_eq!(Error::AlreadyAttached.message(), "already attached");
    assert_eq!(Error::InvalidImage.message(), "invalid image");
    assert_eq!(Error::Utf8Error.message(), "invalid utf-8");
    assert_eq!(Error::IoError.message(), "i/o error");
    assert_eq!(Error::PlatformError.message(), "platform error");
}
