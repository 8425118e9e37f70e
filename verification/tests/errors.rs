//! One test per error the toolchain can report, each with an input that
//! provokes exactly it.

use wit_toolkit::decode::{decode_payload, WitSection};
use wit_toolkit::error::ErrorKind;
use wit_toolkit::leb::uleb_write;
use wit_toolkit::reader::{Func, Implement, Instruction, StringToMemory, Type};
use wit_toolkit::validator::{validate, CoreImport, CoreSection, HostFuncType, Validator};
use wit_toolkit::valtype::{HostValType, ValType};
use wit_toolkit::writer::encode_doc;

fn version_header() -> Vec<u8> {
    let mut v = Vec::new();
    uleb_write(&mut v, 5);
    v.extend_from_slice(b"0.1.0");
    v
}

#[test]
fn eof_inside_an_item_is_reported() {
    let mut bytes = version_header();
    bytes.push(0x00); // type subsection
    bytes.push(0x02); // body length
    bytes.push(0x01); // one item
    bytes.push(0x01); // one parameter, but no value type follows
    let err = decode_payload(0, &bytes).unwrap_err();
    assert!(matches!(err.kind, ErrorKind::UnexpectedEof));
    assert_eq!(
        err.message(),
        format!("failed to parse at byte {}: unexpected end-of-file", err.at)
    );
}

#[test]
fn unterminated_integer_is_reported() {
    let mut bytes = version_header();
    bytes.push(0x00); // type subsection
    bytes.push(0x02); // body length
    bytes.extend_from_slice(&[0x80, 0x80]); // an item count that never ends
    let err = decode_payload(0, &bytes).unwrap_err();
    assert!(matches!(err.kind, ErrorKind::UlebInvalid));
    assert_eq!(
        err.message(),
        format!("failed to parse at byte {}: failed to parse uleb integer", err.at)
    );
}

#[test]
fn overlong_body_is_reported() {
    let mut bytes = version_header();
    bytes.push(0x00); // type subsection
    bytes.push(0x09); // body length: further than the input reaches
    bytes.push(0x00);
    let err = decode_payload(0, &bytes).unwrap_err();
    assert!(matches!(err.kind, ErrorKind::Expected(9)));
    assert_eq!(
        err.message(),
        format!("failed to parse at byte {}: expected 9 more bytes but hit eof", err.at)
    );
}

#[test]
fn ill_formed_name_is_reported_at_its_start() {
    let mut bytes = version_header();
    bytes.push(0x01); // import subsection
    bytes.push(0x04); // body length
    bytes.push(0x01); // one item
    let module_at = bytes.len();
    bytes.push(0x02); // module name of two bytes
    bytes.extend_from_slice(&[0xff, 0xff]); // not UTF-8
    let err = decode_payload(0, &bytes).unwrap_err();
    assert!(matches!(err.kind, ErrorKind::InvalidUtf8));
    assert_eq!(err.at as usize, module_at);
    assert_eq!(
        err.message(),
        format!("failed to parse at byte {}: invalid utf-8 string", module_at)
    );
}

fn interface_only(doc: Vec<WitSection>) -> Vec<CoreSection> {
    vec![CoreSection::Interface(0, encode_doc(&doc))]
}

#[test]
fn adapter_type_index_out_of_range() {
    let doc = vec![WitSection::Func(vec![Func { ty: 4, instrs: vec![] }])];
    let err = validate(&interface_only(doc)).unwrap_err();
    assert_eq!(err.message(), "adapter type index too large: 4");
}

#[test]
fn adapter_func_index_out_of_range() {
    let doc = vec![
        WitSection::Type(vec![Type { params: vec![], results: vec![] }]),
        WitSection::Export(vec![wit_toolkit::reader::Export {
            func: 7,
            name: "x".to_string(),
        }]),
    ];
    let err = validate(&interface_only(doc)).unwrap_err();
    assert_eq!(err.message(), "adapter func index too large: 7");
}

#[test]
fn core_func_index_out_of_range() {
    let doc = vec![
        WitSection::Type(vec![Type { params: vec![], results: vec![] }]),
        WitSection::Func(vec![Func { ty: 0, instrs: vec![Instruction::CallCore(2)] }]),
    ];
    let err = validate(&interface_only(doc)).unwrap_err();
    assert_eq!(err.message(), "func index too large: 2");
}

#[test]
fn core_type_index_out_of_range() {
    // a function section entry pointing past the type table
    let sections = vec![CoreSection::Funcs(vec![3])];
    let err = validate(&sections).unwrap_err();
    assert_eq!(err.message(), "type index too large: 3");
}

#[test]
fn memory_index_out_of_range() {
    let doc = vec![
        WitSection::Type(vec![Type { params: vec![], results: vec![ValType::String] }]),
        WitSection::Func(vec![Func { ty: 0, instrs: vec![Instruction::MemoryToString(1)] }]),
    ];
    let err = validate(&interface_only(doc)).unwrap_err();
    assert_eq!(err.message(), "memory index out of bounds: 1");
}

#[test]
fn deferred_call_with_results_fails() {
    let doc = vec![
        WitSection::Type(vec![Type { params: vec![], results: vec![] }]),
        WitSection::Func(vec![Func { ty: 0, instrs: vec![Instruction::DeferCallCore(0)] }]),
    ];
    let sections = vec![
        CoreSection::Types(vec![HostFuncType {
            params: vec![],
            results: vec![HostValType::I32],
        }]),
        CoreSection::Imports(vec![CoreImport::Func(0)]),
        CoreSection::Interface(0, encode_doc(&doc)),
    ];
    let err = validate(&sections).unwrap_err();
    assert_eq!(err.message(), "cannot have returned values in deferred calls");
}

#[test]
fn deferred_call_keeps_the_stack() {
    // defer-call-core checks its parameters without consuming them
    let doc = vec![
        WitSection::Type(vec![Type {
            params: vec![ValType::I32],
            results: vec![ValType::I32],
        }]),
        WitSection::Func(vec![Func {
            ty: 0,
            instrs: vec![Instruction::ArgGet(0), Instruction::DeferCallCore(0)],
        }]),
    ];
    let sections = vec![
        CoreSection::Types(vec![HostFuncType { params: vec![HostValType::I32], results: vec![] }]),
        CoreSection::Imports(vec![CoreImport::Func(0)]),
        CoreSection::Interface(0, encode_doc(&doc)),
    ];
    assert!(validate(&sections).is_ok());
}

#[test]
fn stray_end_in_a_body_fails_validation() {
    // the decoder never yields a bare terminator, but the validator still
    // rejects one handed to it directly
    let mut v = Validator::new();
    let section = wit_toolkit::decode::WitSection::Type(vec![Type {
        params: vec![],
        results: vec![],
    }]);
    assert!(v.validate_section(&section).is_ok());
    let func_section = wit_toolkit::decode::WitSection::Func(vec![Func {
        ty: 0,
        instrs: vec![Instruction::End],
    }]);
    let err = v.validate_section(&func_section).unwrap_err();
    assert_eq!(err.message(), "extra `end` instruction found");
}

#[test]
fn host_only_types_have_no_interface_counterpart() {
    // a core function returning funcref cannot surface through call-core
    let doc = vec![
        WitSection::Type(vec![Type { params: vec![], results: vec![ValType::I32] }]),
        WitSection::Func(vec![Func { ty: 0, instrs: vec![Instruction::CallCore(0)] }]),
    ];
    let sections = vec![
        CoreSection::Types(vec![HostFuncType {
            params: vec![],
            results: vec![HostValType::FuncRef],
        }]),
        CoreSection::Imports(vec![CoreImport::Func(0)]),
        CoreSection::Interface(0, encode_doc(&doc)),
    ];
    let err = validate(&sections).unwrap_err();
    assert_eq!(err.message(), "currently FuncRef is not a valid wasm interface type");
}

#[test]
fn popping_an_empty_stack_names_the_expectation() {
    let doc = vec![
        WitSection::Type(vec![Type { params: vec![], results: vec![ValType::S8] }]),
        WitSection::Func(vec![Func { ty: 0, instrs: vec![Instruction::I32ToS8] }]),
    ];
    let err = validate(&interface_only(doc)).unwrap_err();
    assert_eq!(err.message(), "expected I32 on type stack, found nothing");
}

#[test]
fn string_pop_mismatch_names_both_types() {
    let doc = vec![
        WitSection::Type(vec![Type {
            params: vec![ValType::I32],
            results: vec![ValType::I32, ValType::I32],
        }]),
        WitSection::Func(vec![Func {
            ty: 0,
            instrs: vec![
                Instruction::ArgGet(0),
                Instruction::StringToMemory(StringToMemory { malloc: 0, mem: 0 }),
            ],
        }]),
    ];
    let sections = vec![
        CoreSection::Types(vec![HostFuncType {
            params: vec![HostValType::I32],
            results: vec![HostValType::I32],
        }]),
        CoreSection::Imports(vec![CoreImport::Func(0), CoreImport::Memory]),
        CoreSection::Interface(0, encode_doc(&doc)),
    ];
    let err = validate(&sections).unwrap_err();
    assert_eq!(err.message(), "expected String on type stack, found I32");
}

#[test]
fn call_adapter_uses_interface_types_exactly() {
    let doc = vec![
        WitSection::Type(vec![
            Type { params: vec![ValType::S8], results: vec![ValType::S8] },
            Type { params: vec![ValType::I32], results: vec![ValType::S8] },
        ]),
        WitSection::Func(vec![
            Func { ty: 0, instrs: vec![Instruction::ArgGet(0)] },
            Func {
                ty: 1,
                instrs: vec![
                    Instruction::ArgGet(0),
                    Instruction::I32ToS8,
                    Instruction::CallAdapter(0),
                ],
            },
        ]),
    ];
    assert!(validate(&interface_only(doc)).is_ok());
}

#[test]
fn implement_entries_compare_whole_signatures() {
    // an adapter of arity two against a core import of arity one
    let doc = vec![
        WitSection::Type(vec![Type {
            params: vec![ValType::I32, ValType::I32],
            results: vec![],
        }]),
        WitSection::Func(vec![Func { ty: 0, instrs: vec![] }]),
        WitSection::Implement(vec![Implement { core_func: 0, adapter_func: 0 }]),
    ];
    let sections = vec![
        CoreSection::Types(vec![HostFuncType { params: vec![HostValType::I32], results: vec![] }]),
        CoreSection::Imports(vec![CoreImport::Func(0)]),
        CoreSection::Interface(0, encode_doc(&doc)),
    ];
    let err = validate(&sections).unwrap_err();
    assert_eq!(
        err.message(),
        "core function 0 has a different type signature than adapter function 0"
    );
}
