use pagezest::plugin::{output_from_bytes, Plugin, PluginCallError};
use pagezest::plugin_manager::{
    default_manifest_dynamic, default_manifest_version, PluginManager, RunPluginError,
};
use pagezest::plugins::{footer, simple_random_u32, time, toc, PluginInput, INITIAL_SEED};
use pagezest::render_flatbuffers::{Document, Token};

// The binary of:
// (module
//   (memory (export "memory") 1)
//   (global $n (mut i32) (i32.const 48))
//   (data (i32.const 100) "n=0\00")
//   (func (export "run") (param i32 i32) (result i32)
//     (global.set $n (i32.add (global.get $n) (i32.const 1)))
//     (i32.store8 (i32.const 102) (global.get $n))
//     (i32.const 100)))
const COUNTER_WASM: &[u8] = &[
    0x00, 0x61, 0x73, 0x6d, 0x01, 0x00, 0x00, 0x00, 0x01, 0x07, 0x01, 0x60,
    0x02, 0x7f, 0x7f, 0x01, 0x7f, 0x03, 0x02, 0x01, 0x00, 0x05, 0x03, 0x01,
    0x00, 0x01, 0x06, 0x06, 0x01, 0x7f, 0x01, 0x41, 0x30, 0x0b, 0x07, 0x10,
    0x02, 0x06, 0x6d, 0x65, 0x6d, 0x6f, 0x72, 0x79, 0x02, 0x00, 0x03, 0x72,
    0x75, 0x6e, 0x00, 0x00, 0x0a, 0x16, 0x01, 0x14, 0x00, 0x23, 0x00, 0x41,
    0x01, 0x6a, 0x24, 0x00, 0x41, 0xe6, 0x00, 0x23, 0x00, 0x3a, 0x00, 0x00,
    0x41, 0xe4, 0x00, 0x0b, 0x0b, 0x0b, 0x01, 0x00, 0x41, 0xe4, 0x00, 0x0b,
    0x04, 0x6e, 0x3d, 0x30, 0x00,
];

// The binary of:
// (module
//   (memory (export "memory") 1)
//   (data (i32.const 200) "len=\00\00")
//   (func (export "run") (param i32 i32) (result i32)
//     (i32.store8 (i32.const 204) (i32.add (i32.const 48) (local.get 1)))
//     (i32.const 200)))
const ECHO_LEN_WASM: &[u8] = &[
    0x00, 0x61, 0x73, 0x6d, 0x01, 0x00, 0x00, 0x00, 0x01, 0x07, 0x01, 0x60,
    0x02, 0x7f, 0x7f, 0x01, 0x7f, 0x03, 0x02, 0x01, 0x00, 0x05, 0x03, 0x01,
    0x00, 0x01, 0x07, 0x10, 0x02, 0x06, 0x6d, 0x65, 0x6d, 0x6f, 0x72, 0x79,
    0x02, 0x00, 0x03, 0x72, 0x75, 0x6e, 0x00, 0x00, 0x0a, 0x12, 0x01, 0x10,
    0x00, 0x41, 0xcc, 0x01, 0x41, 0x30, 0x20, 0x01, 0x6a, 0x3a, 0x00, 0x00,
    0x41, 0xc8, 0x01, 0x0b, 0x0b, 0x0d, 0x01, 0x00, 0x41, 0xc8, 0x01, 0x0b,
    0x06, 0x6c, 0x65, 0x6e, 0x3d, 0x00, 0x00,
];

// The binary of:
// (module
//   (memory (export "memory") 1)
//   (data (i32.const 10) "\ff\00")
//   (func (export "run") (param i32 i32) (result i32) (i32.const 10)))
const BAD_WASM: &[u8] = &[
    0x00, 0x61, 0x73, 0x6d, 0x01, 0x00, 0x00, 0x00, 0x01, 0x07, 0x01, 0x60,
    0x02, 0x7f, 0x7f, 0x01, 0x7f, 0x03, 0x02, 0x01, 0x00, 0x05, 0x03, 0x01,
    0x00, 0x01, 0x07, 0x10, 0x02, 0x06, 0x6d, 0x65, 0x6d, 0x6f, 0x72, 0x79,
    0x02, 0x00, 0x03, 0x72, 0x75, 0x6e, 0x00, 0x00, 0x0a, 0x06, 0x01, 0x04,
    0x00, 0x41, 0x0a, 0x0b, 0x0b, 0x08, 0x01, 0x00, 0x41, 0x0a, 0x0b, 0x02,
    0xff, 0x00,
];

// The binary of:
// (module
//   (memory (export "memory") 1)
//   (func (export "run") (param i32 i32) (result i32) (loop $l (br $l)) (i32.const 0)))
const SPIN_WASM: &[u8] = &[
    0x00, 0x61, 0x73, 0x6d, 0x01, 0x00, 0x00, 0x00, 0x01, 0x07, 0x01, 0x60,
    0x02, 0x7f, 0x7f, 0x01, 0x7f, 0x03, 0x02, 0x01, 0x00, 0x05, 0x03, 0x01,
    0x00, 0x01, 0x07, 0x10, 0x02, 0x06, 0x6d, 0x65, 0x6d, 0x6f, 0x72, 0x79,
    0x02, 0x00, 0x03, 0x72, 0x75, 0x6e, 0x00, 0x00, 0x0a, 0x0b, 0x01, 0x09,
    0x00, 0x03, 0x40, 0x0c, 0x00, 0x0b, 0x41, 0x00, 0x0b, 0x0b, 0x06, 0x01,
    0x00, 0x41, 0x00, 0x0b, 0x00,
];

fn plugin(tag: &str, wasm: &[u8], dynamic: bool) -> Plugin {
    let path = format!("{tag}.wasm");
    let p = Plugin::from_wasm(tag, tag, &path, "run", dynamic, wasm).expect("plugin");
    assert_eq!(p.name, tag);
    assert_eq!(p.wasm_file_path, path);
    assert_eq!(p.plugin_func_name, "run");
    assert_eq!(p.dynamic, dynamic);
    assert_eq!(
        p.debug_text(),
        format!(
            "Plugin {{ name: {:?}, tag: {:?}, wasm_file_path: {:?}, plugin_func_name: \"run\" }}",
            tag, tag, path
        )
    );
    p
}

#[test]
fn from_wasm_refuses_what_it_cannot_load() {
    assert!(Plugin::from_wasm("x", "x", "x.wasm", "run", false, b"(module)").is_err());
    assert!(Plugin::from_wasm("x", "x", "x.wasm", "missing", false, ECHO_LEN_WASM).is_err());
    assert!(Plugin::from_wasm("x", "x", "x.wasm", "memory", false, ECHO_LEN_WASM).is_err());
}

#[test]
fn plugin_call_reads_up_to_nul() {
    let mut p = plugin("len", ECHO_LEN_WASM, true);
    assert_eq!(p.call(&vec![9, 9, 9]).ok(), Some("len=3".to_string()));
    let mut bad = plugin("bad", BAD_WASM, true);
    match bad.call(&vec![]) {
        Err(e @ PluginCallError::InvalidUtf8(_)) => assert_eq!(
            e.message(),
            String::from_utf8(vec![0xff]).unwrap_err().to_string()
        ),
        _ => panic!("expected invalid UTF-8"),
    }
    let mut big = plugin("big", ECHO_LEN_WASM, true);
    match big.call(&vec![0u8; 70_000]) {
        Err(e @ PluginCallError::MemoryAccess) => {
            assert_eq!(e.message(), "out of bounds memory access")
        },
        _ => panic!("expected a memory access error"),
    }
}

#[test]
fn manager_caches_static_plugins() {
    let mut m = PluginManager::new();
    assert!(!m.has_plugin_handler("count"));
    m.load_plugin(plugin("count", COUNTER_WASM, false));
    m.load_plugin(plugin("dyn", COUNTER_WASM, true));
    assert!(m.has_plugin_handler("count"));
    let mut tags = m.list_plugins();
    tags.sort();
    assert_eq!(tags, vec!["count".to_string(), "dyn".to_string()]);
    assert_eq!(m.run_plugin("count", "post", &vec![]).ok(), Some("n=1".to_string()));
    assert_eq!(m.run_plugin("count", "post", &vec![]).ok(), Some("n=1".to_string()));
    assert_eq!(m.run_plugin("count", "other", &vec![]).ok(), Some("n=2".to_string()));
    assert_eq!(m.run_plugin("dyn", "post", &vec![]).ok(), Some("n=1".to_string()));
    assert_eq!(m.run_plugin("dyn", "post", &vec![]).ok(), Some("n=2".to_string()));
    match m.run_plugin("none", "post", &vec![]) {
        Err(e @ RunPluginError::NoPlugin(_)) => assert_eq!(e.message(), "No plugin found for none"),
        _ => panic!("expected a missing plugin"),
    }
    assert!(m.get_plugin_by_tag("count").is_ok());
    assert!(m.get_plugin_by_tag("none").is_err());
    m.unload_plugin("count");
    assert!(!m.has_plugin_handler("count"));
}

#[test]
fn manifest_defaults() {
    assert_eq!(default_manifest_version(), "1.0");
    assert!(!default_manifest_dynamic());
}

#[test]
fn table_of_contents() {
    let doc = Document {
        tokens: Some(vec![
            Token::Heading { depth: 1, text: "One".to_string(), tokens: vec![] },
            Token::Heading { depth: 2, text: "skip".to_string(), tokens: vec![] },
            Token::Space,
            Token::Heading { depth: 1, text: "Two".to_string(), tokens: vec![] },
        ]),
    };
    assert_eq!(toc(&doc), "<h1>Table of content</h1><ul><li>One</li>\n<li>Two</li></ul>");
    assert_eq!(toc(&Document { tokens: None }), "<h1>Table of content</h1><ul></ul>");
}

#[test]
fn random_values() {
    let mut seed = INITIAL_SEED;
    let n = simple_random_u32(&mut seed);
    assert_eq!(n, 0x1234ABCDu32.wrapping_mul(1664525).wrapping_add(1013904223));
    assert_eq!(seed, n);
    let s = time(&mut seed);
    let m = n.wrapping_mul(1664525).wrapping_add(1013904223);
    assert_eq!(s, format!("random value {m}"));
}

#[test]
fn footer_echoes_tag() {
    assert_eq!(footer(&PluginInput { tag: "foot".to_string() }), "foot");
}

#[test]
fn output_bytes_are_decoded() {
    assert_eq!(output_from_bytes(b"h\xc3\xa9".to_vec()).ok(), Some("h\u{e9}".to_string()));
    assert_eq!(output_from_bytes(vec![]).ok(), Some(String::new()));
    match output_from_bytes(vec![b'a', 0xc3]) {
        Err(e @ PluginCallError::InvalidUtf8(_)) => assert_eq!(
            e.message(),
            String::from_utf8(vec![b'a', 0xc3]).unwrap_err().to_string()
        ),
        _ => panic!("expected invalid UTF-8"),
    }
}

#[test]
fn runaway_plugin_runs_out_of_fuel() {
    let mut p = plugin("spin", SPIN_WASM, true);
    assert!(matches!(p.call(&vec![1]), Err(PluginCallError::Call(_))));
}

#[test]
fn debug_text_escapes_strings() {
    let mut p = plugin("len", ECHO_LEN_WASM, false);
    p.name = "a\"b\n".to_string();
    assert_eq!(
        p.debug_text(),
        "Plugin { name: \"a\\\"b\\n\", tag: \"len\", wasm_file_path: \"len.wasm\", plugin_func_name: \"run\" }"
    );
}
