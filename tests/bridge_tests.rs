use wasm_bridge::engine::{link_shape, ModuleShape};
use wasm_bridge::bridge::{needs_platform_layer, print_str, resolve_export, BridgeError, ExportDecl, Phase, Stage};
use wasm_bridge::link::{link, merge, ImportRequest};
use wasm_bridge::memory::{GuestMemory, MemoryError};
use wasm_bridge::registry::{ImportKey, Registry, RegistryError, Signature, ValueKind};

fn key(ns: &str, name: &str) -> ImportKey {
    ImportKey::new(ns.to_string(), name.to_string())
}

fn sig(params: Vec<ValueKind>, results: Vec<ValueKind>) -> Signature {
    Signature::new(params, results)
}

fn request(ns: &str, name: &str, s: Signature) -> ImportRequest {
    ImportRequest::new(key(ns, name), s)
}

fn names(keys: &[ImportKey]) -> Vec<String> {
    keys.iter().map(|k| format!("{}.{}", k.namespace, k.name)).collect()
}

#[test]
fn read_then_write_back_keeps_memory() {
    let mut mem = GuestMemory::new(vec![1, 2, 3, 4, 5, 6]);
    let bytes = mem.read(1, 4).unwrap();
    assert_eq!(bytes, vec![2, 3, 4, 5]);
    assert!(mem.write(1, &bytes).is_ok());
    assert_eq!(mem.contents(), vec![1, 2, 3, 4, 5, 6]);
}

#[test]
fn write_changes_only_its_range() {
    let mut mem = GuestMemory::zeroed(5);
    assert!(mem.write(2, &[7, 8]).is_ok());
    assert_eq!(mem.contents(), vec![0, 0, 7, 8, 0]);
}

#[test]
fn read_past_end_is_out_of_bounds() {
    let mem = GuestMemory::zeroed(4);
    assert_eq!(mem.read(2, 3), Err(MemoryError::OutOfBounds));
    assert_eq!(mem.read(5, 0), Err(MemoryError::OutOfBounds));
    assert_eq!(mem.read(4, 0), Ok(vec![]));
}

#[test]
fn write_past_end_leaves_memory_unchanged() {
    let mut mem = GuestMemory::new(vec![9, 9, 9, 9]);
    assert_eq!(mem.write(3, &[1, 2]), Err(MemoryError::OutOfBounds));
    assert_eq!(mem.contents(), vec![9, 9, 9, 9]);
}

#[test]
fn range_wrapping_32_bits_is_overflow() {
    let mut mem = GuestMemory::zeroed(8);
    assert_eq!(mem.read(u32::MAX, 1), Err(MemoryError::Overflow));
    assert_eq!(mem.read(u32::MAX - 1, 1), Err(MemoryError::OutOfBounds));
    assert_eq!(mem.write(u32::MAX, &[0]), Err(MemoryError::Overflow));
}

#[test]
fn read_str_decodes_text() {
    let mem = GuestMemory::new("héllo".as_bytes().to_vec());
    assert_eq!(mem.read_str(0, 6), Ok("héllo".to_string()));
    assert_eq!(mem.read_str(3, 3), Ok("llo".to_string()));
}

#[test]
fn read_str_rejects_invalid_utf8() {
    let mem = GuestMemory::new(vec![0x68, 0xff, 0x69]);
    assert_eq!(mem.read_str(0, 3), Err(MemoryError::InvalidEncoding));
    // cutting a two-byte character in half
    let mem = GuestMemory::new("é".as_bytes().to_vec());
    assert_eq!(mem.read_str(0, 1), Err(MemoryError::InvalidEncoding));
}

#[test]
fn register_same_key_twice_is_duplicate() {
    let mut reg = Registry::new();
    let first = reg.register("env".to_string(), "f".to_string(), sig(vec![ValueKind::I32], vec![]), 0);
    assert_eq!(first, Ok(()));
    let again_same = reg.register("env".to_string(), "f".to_string(), sig(vec![ValueKind::I32], vec![]), 1);
    assert_eq!(again_same, Err(RegistryError::DuplicateImport));
    let again_other = reg.register("env".to_string(), "f".to_string(), sig(vec![ValueKind::F64], vec![ValueKind::I64]), 2);
    assert_eq!(again_other, Err(RegistryError::DuplicateImport));
    assert_eq!(reg.len(), 1);
    assert!(reg.register("other".to_string(), "f".to_string(), sig(vec![], vec![]), 3).is_ok());
    assert_eq!(reg.len(), 2);
}

#[test]
fn built_table_is_a_snapshot() {
    let mut reg = Registry::new();
    reg.register("env".to_string(), "a".to_string(), sig(vec![], vec![]), 0).unwrap();
    let table = reg.build();
    reg.register("env".to_string(), "b".to_string(), sig(vec![], vec![]), 1).unwrap();
    assert_eq!(table.len(), 1);
    assert_eq!(reg.len(), 2);
    assert!(table.position(&key("env", "b")).is_none());
    assert_eq!(table.position(&key("env", "a")), Some(0));
}

#[test]
fn link_reports_every_missing_import() {
    let mut reg = Registry::new();
    reg.register("env".to_string(), "A".to_string(), sig(vec![], vec![]), 0).unwrap();
    let table = reg.build();
    let required = vec![
        request("env", "A", sig(vec![], vec![])),
        request("env", "B", sig(vec![], vec![])),
        request("env", "C", sig(vec![], vec![])),
    ];
    match link(&required, &table) {
        Err(e) => assert_eq!(names(&e.missing), vec!["env.B".to_string(), "env.C".to_string()]),
        Ok(_) => panic!("link must fail"),
    }
}

#[test]
fn link_missing_env_fn() {
    let mut reg = Registry::new();
    reg.register("env".to_string(), "print_str".to_string(), sig(vec![ValueKind::U32, ValueKind::U32], vec![]), 0).unwrap();
    let table = reg.build();
    let required = vec![request("env", "missing_fn", sig(vec![], vec![]))];
    match link(&required, &table) {
        Err(e) => assert_eq!(names(&e.missing), vec!["env.missing_fn".to_string()]),
        Ok(_) => panic!("no instance may be produced"),
    }
}

#[test]
fn link_reports_incompatible_signature_as_missing() {
    let mut reg = Registry::new();
    reg.register("env".to_string(), "f".to_string(), sig(vec![ValueKind::I64], vec![]), 0).unwrap();
    let table = reg.build();
    let required = vec![request("env", "f", sig(vec![ValueKind::I32], vec![]))];
    match link(&required, &table) {
        Err(e) => assert_eq!(names(&e.missing), vec!["env.f".to_string()]),
        Ok(_) => panic!("link must fail"),
    }
}

#[test]
fn hello_wasm_links_and_print_str_reads_hi() {
    let mut reg = Registry::new();
    reg.register("env".to_string(), "print_str".to_string(), sig(vec![ValueKind::U32, ValueKind::U32], vec![]), 7).unwrap();
    let table = reg.build();
    // the module sees the host's u32 parameters as its own i32
    let required = vec![request("env", "print_str", sig(vec![ValueKind::I32, ValueKind::I32], vec![]))];
    let resolved = link(&required, &table).ok().unwrap();
    assert_eq!(resolved, vec![0]);
    assert_eq!(table.entry(resolved[0]).handler, 7);

    let exports = vec![ExportDecl::new("hello_wasm".to_string(), sig(vec![], vec![]))];
    let at = resolve_export(&exports, &"hello_wasm".to_string(), &vec![]).ok().unwrap();
    assert_eq!(at, 0);
    assert!(exports[at].signature.results.is_empty());

    let mut mem = GuestMemory::zeroed(16);
    mem.write(0, b"hi").unwrap();
    let printed = print_str(&mem, 0, 2).ok().unwrap();
    assert_eq!(printed, "hi");
}

#[test]
fn print_str_reports_memory_errors() {
    let mem = GuestMemory::new(vec![0x68, 0x69, 0xff]);
    assert!(matches!(print_str(&mem, 2, 5), Err(BridgeError::OutOfBounds)));
    assert!(matches!(print_str(&mem, u32::MAX, 2), Err(BridgeError::Overflow)));
    assert!(matches!(print_str(&mem, 1, 2), Err(BridgeError::InvalidEncoding)));
}

#[test]
fn unknown_export_then_valid_call() {
    let exports = vec![
        ExportDecl::new("hello_wasm".to_string(), sig(vec![], vec![])),
        ExportDecl::new("add".to_string(), sig(vec![ValueKind::I32, ValueKind::I32], vec![ValueKind::I32])),
    ];
    assert!(matches!(resolve_export(&exports, &"nope".to_string(), &vec![]), Err(BridgeError::ExportNotFound)));
    assert!(matches!(resolve_export(&exports, &"hello_wasm".to_string(), &vec![]), Ok(0)));
    assert!(matches!(resolve_export(&exports, &"add".to_string(), &vec![ValueKind::U32, ValueKind::I32]), Ok(1)));
}

#[test]
fn wrong_arguments_are_arity_mismatch() {
    let exports = vec![ExportDecl::new("add".to_string(), sig(vec![ValueKind::I32, ValueKind::I32], vec![ValueKind::I32]))];
    assert!(matches!(resolve_export(&exports, &"add".to_string(), &vec![ValueKind::I32]), Err(BridgeError::ArityMismatch)));
    assert!(matches!(resolve_export(&exports, &"add".to_string(), &vec![ValueKind::I64, ValueKind::I32]), Err(BridgeError::ArityMismatch)));
}

#[test]
fn merge_keeps_compatible_entries_once() {
    let mut host = Registry::new();
    host.register("env".to_string(), "print_str".to_string(), sig(vec![ValueKind::U32, ValueKind::U32], vec![]), 0).unwrap();
    host.register("env".to_string(), "abort".to_string(), sig(vec![], vec![]), 1).unwrap();
    let mut platform = Registry::new();
    platform.register("env".to_string(), "abort".to_string(), sig(vec![], vec![]), 10).unwrap();
    platform.register("env".to_string(), "sbrk".to_string(), sig(vec![ValueKind::I32], vec![ValueKind::I32]), 11).unwrap();
    let merged = merge(&host.build(), &platform.build()).ok().unwrap();
    assert_eq!(merged.len(), 3);
    assert_eq!(merged.entry(1).handler, 1);
    assert_eq!(merged.entry(2).handler, 11);
    assert_eq!(merged.entry(2).key.name, "sbrk");
}

#[test]
fn merge_surfaces_conflicts() {
    let mut host = Registry::new();
    host.register("env".to_string(), "a".to_string(), sig(vec![ValueKind::I32], vec![]), 0).unwrap();
    host.register("env".to_string(), "b".to_string(), sig(vec![], vec![]), 1).unwrap();
    host.register("env".to_string(), "c".to_string(), sig(vec![ValueKind::F32], vec![]), 2).unwrap();
    let mut platform = Registry::new();
    platform.register("env".to_string(), "c".to_string(), sig(vec![ValueKind::F64], vec![]), 10).unwrap();
    platform.register("env".to_string(), "a".to_string(), sig(vec![ValueKind::I64], vec![]), 11).unwrap();
    platform.register("env".to_string(), "b".to_string(), sig(vec![], vec![]), 12).unwrap();
    match merge(&host.build(), &platform.build()) {
        Err(c) => assert_eq!(names(&c.keys), vec!["env.a".to_string(), "env.c".to_string()]),
        Ok(_) => panic!("merge must fail"),
    }
}

#[test]
fn phases_run_in_order() {
    let mut p = Phase::Uncompiled;
    let expected = [Phase::Compiled, Phase::Linked, Phase::Instantiated, Phase::Invoked, Phase::Done];
    for next in expected.iter() {
        assert!(!p.is_terminal());
        p = p.advance(true);
        assert_eq!(p, *next);
    }
    assert!(p.is_terminal());
    assert_eq!(p.advance(true), Phase::Done);
}

#[test]
fn failure_records_its_stage_and_stops() {
    let p = Phase::Compiled.advance(false);
    assert_eq!(p, Phase::Failed(Stage::Link));
    assert!(p.is_terminal());
    assert_eq!(p.advance(true), Phase::Failed(Stage::Link));
    assert_eq!(Phase::Instantiated.advance(false), Phase::Failed(Stage::Invoke));
}

#[test]
fn platform_layer_detected_by_marker_import() {
    let plain = vec![key("env", "print_str")];
    assert!(!needs_platform_layer(&plain));
    let marked = vec![key("env", "print_str"), key("env", "_emscripten_memcpy_big")];
    assert!(needs_platform_layer(&marked));
    assert!(needs_platform_layer(&vec![key("env", "__map_file")]));
    assert!(!needs_platform_layer(&vec![key("wasi", "__map_file")]));
}

#[test]
fn merge_conflicts_do_not_depend_on_order() {
    let mut a = Registry::new();
    a.register("env".to_string(), "x".to_string(), sig(vec![ValueKind::I32], vec![]), 0).unwrap();
    a.register("env".to_string(), "y".to_string(), sig(vec![ValueKind::U64], vec![]), 1).unwrap();
    a.register("env".to_string(), "z".to_string(), sig(vec![], vec![]), 2).unwrap();
    let mut b = Registry::new();
    b.register("env".to_string(), "y".to_string(), sig(vec![ValueKind::I64], vec![]), 10).unwrap();
    b.register("env".to_string(), "x".to_string(), sig(vec![ValueKind::F32], vec![]), 11).unwrap();
    let (ta, tb) = (a.build(), b.build());
    let mut ab = match merge(&ta, &tb) {
        Err(c) => names(&c.keys),
        Ok(_) => panic!("merge must fail"),
    };
    let mut ba = match merge(&tb, &ta) {
        Err(c) => names(&c.keys),
        Ok(_) => panic!("merge must fail"),
    };
    assert_eq!(ab, vec!["env.x".to_string()]);
    assert_eq!(ba, vec!["env.x".to_string()]);
    ab.sort();
    ba.sort();
    assert_eq!(ab, ba);
}

#[test]
fn merged_table_holds_keys_of_both() {
    let mut a = Registry::new();
    a.register("env".to_string(), "x".to_string(), sig(vec![ValueKind::U32], vec![]), 0).unwrap();
    let mut b = Registry::new();
    b.register("env".to_string(), "x".to_string(), sig(vec![ValueKind::I32], vec![]), 10).unwrap();
    b.register("env".to_string(), "w".to_string(), sig(vec![], vec![]), 11).unwrap();
    let m = merge(&a.build(), &b.build()).ok().unwrap();
    assert_eq!(m.len(), 2);
    assert_eq!(m.position(&key("env", "x")), Some(0));
    assert_eq!(m.position(&key("env", "w")), Some(1));
    assert_eq!(m.entry(0).handler, 0);
    let empty = merge(&wasm_bridge::registry::ImportTable::empty(), &wasm_bridge::registry::ImportTable::empty()).ok().unwrap();
    assert_eq!(empty.len(), 0);
}

#[test]
fn advance_from_every_phase() {
    assert_eq!(Phase::Uncompiled.stage(), Some(Stage::Compile));
    assert_eq!(Phase::Invoked.stage(), Some(Stage::Finish));
    assert_eq!(Phase::Done.stage(), None);
    assert_eq!(Phase::Uncompiled.advance(false), Phase::Failed(Stage::Compile));
    assert_eq!(Phase::Linked.advance(false), Phase::Failed(Stage::Instantiate));
    assert_eq!(Phase::Invoked.advance(false), Phase::Failed(Stage::Finish));
    assert_eq!(Phase::Done.advance(false), Phase::Done);
}

#[test]
fn link_shape_reports_unsupported_then_missing() {
    let mut reg = Registry::new();
    reg.register("env".to_string(), "A".to_string(), sig(vec![ValueKind::I32], vec![]), 3).unwrap();
    let table = reg.build();
    let shape = ModuleShape {
        imports: vec![],
        found_exports: vec![],
        requests: vec![
            request("env", "A", sig(vec![ValueKind::I32], vec![])),
            request("env", "B", sig(vec![], vec![])),
        ],
        unsupported: vec![key("env", "takes_ref")],
        exports: vec![],
        platform: false,
    };
    match link_shape(&shape, &table) {
        Err(e) => assert_eq!(names(&e.missing), vec!["env.takes_ref".to_string(), "env.B".to_string()]),
        Ok(_) => panic!("link must fail"),
    }
    let only_unsupported = ModuleShape {
        imports: vec![],
        found_exports: vec![],
        requests: vec![request("env", "A", sig(vec![ValueKind::U32], vec![]))],
        unsupported: vec![key("env", "takes_ref")],
        exports: vec![],
        platform: false,
    };
    match link_shape(&only_unsupported, &table) {
        Err(e) => assert_eq!(names(&e.missing), vec!["env.takes_ref".to_string()]),
        Ok(_) => panic!("link must fail"),
    }
    let fine = ModuleShape {
        imports: vec![],
        found_exports: vec![],
        requests: vec![request("env", "A", sig(vec![ValueKind::U32], vec![]))],
        unsupported: vec![],
        exports: vec![],
        platform: false,
    };
    assert_eq!(link_shape(&fine, &table).ok(), Some(vec![0]));
}
