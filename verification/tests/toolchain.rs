//! Tests of the validator, the lowering passes and the pretty-printer,
//! covering the concrete scenarios the toolchain is specified by.

use wit_toolkit::ast;
use wit_toolkit::binary::append;
use wit_toolkit::decode::{decode_payload, WitSection};
use wit_toolkit::printer::{print_wit, HostNames};
use wit_toolkit::reader::{Export, Func, Implement, Import, Instruction, StringToMemory, Type};
use wit_toolkit::resolve::names::{CoreNames, NameBinding, Ns};
use wit_toolkit::resolve::{move_imports_first, move_types_first, resolve};
use wit_toolkit::validator::{validate, CoreImport, CoreSection, HostFuncType};
use wit_toolkit::valtype::{HostValType, ValType};
use wit_toolkit::verror::VError;
use wit_toolkit::writer::encode_doc;

/// The interface payload of the identity-adapter module: one type
/// `(param i32) (result i32)`, one function `arg.get 0; call-core 0`, one
/// export of it as `g`.
fn identity_payload() -> Vec<u8> {
    let doc = vec![
        WitSection::Type(vec![Type { params: vec![ValType::I32], results: vec![ValType::I32] }]),
        WitSection::Func(vec![Func {
            ty: 0,
            instrs: vec![Instruction::ArgGet(0), Instruction::CallCore(0)],
        }]),
        WitSection::Export(vec![Export { func: 0, name: "g".to_string() }]),
    ];
    encode_doc(&doc)
}

/// A host module importing one `(i32) -> (i32)` function, with the given
/// interface payload attached.
fn host_with_payload(payload: Vec<u8>) -> Vec<CoreSection> {
    vec![
        CoreSection::Types(vec![HostFuncType {
            params: vec![HostValType::I32],
            results: vec![HostValType::I32],
        }]),
        CoreSection::Imports(vec![CoreImport::Func(0)]),
        CoreSection::Interface(0, payload),
    ]
}

#[test]
fn identity_adapter_validates() {
    let sections = host_with_payload(identity_payload());
    assert!(validate(&sections).is_ok());
}

#[test]
fn signed_narrowing_validates() {
    let doc = vec![
        WitSection::Type(vec![Type { params: vec![ValType::I32], results: vec![ValType::I32] }]),
        WitSection::Func(vec![Func {
            ty: 0,
            instrs: vec![
                Instruction::ArgGet(0),
                Instruction::I32ToS8X,
                Instruction::S8ToI32,
            ],
        }]),
    ];
    let sections = host_with_payload(encode_doc(&doc));
    assert!(validate(&sections).is_ok());
}

#[test]
fn narrowing_against_wrong_result_fails() {
    let doc = vec![
        WitSection::Type(vec![Type { params: vec![ValType::I32], results: vec![ValType::I64] }]),
        WitSection::Func(vec![Func {
            ty: 0,
            instrs: vec![
                Instruction::ArgGet(0),
                Instruction::I32ToS8X,
                Instruction::S8ToI32,
            ],
        }]),
    ];
    let sections = host_with_payload(encode_doc(&doc));
    let err = validate(&sections).unwrap_err();
    assert_eq!(err.message(), "expected I64 on type stack, found I32");
}

#[test]
fn bad_malloc_signature_fails() {
    let doc = vec![
        WitSection::Type(vec![Type {
            params: vec![ValType::String],
            results: vec![ValType::I32, ValType::I32],
        }]),
        WitSection::Func(vec![Func {
            ty: 0,
            instrs: vec![
                Instruction::ArgGet(0),
                Instruction::StringToMemory(StringToMemory { malloc: 0, mem: 0 }),
            ],
        }]),
    ];
    let sections = vec![
        CoreSection::Types(vec![HostFuncType {
            params: vec![HostValType::I64],
            results: vec![HostValType::I32],
        }]),
        CoreSection::Imports(vec![CoreImport::Func(0), CoreImport::Memory]),
        CoreSection::Interface(0, encode_doc(&doc)),
    ];
    let err = validate(&sections).unwrap_err();
    assert_eq!(err.message(), "malloc function 0 does not have correct signature");
}

#[test]
fn string_to_memory_with_good_malloc_validates() {
    let doc = vec![
        WitSection::Type(vec![Type {
            params: vec![ValType::String],
            results: vec![ValType::I32, ValType::I32],
        }]),
        WitSection::Func(vec![Func {
            ty: 0,
            instrs: vec![
                Instruction::ArgGet(0),
                Instruction::StringToMemory(StringToMemory { malloc: 0, mem: 0 }),
            ],
        }]),
    ];
    let sections = vec![
        CoreSection::Types(vec![HostFuncType {
            params: vec![HostValType::I32],
            results: vec![HostValType::I32],
        }]),
        CoreSection::Imports(vec![CoreImport::Func(0), CoreImport::Memory]),
        CoreSection::Interface(0, encode_doc(&doc)),
    ];
    assert!(validate(&sections).is_ok());
}

#[test]
fn duplicate_export_fails() {
    let doc = vec![
        WitSection::Type(vec![Type { params: vec![], results: vec![] }]),
        WitSection::Func(vec![Func { ty: 0, instrs: vec![] }]),
        WitSection::Export(vec![
            Export { func: 0, name: "x".to_string() },
            Export { func: 0, name: "x".to_string() },
        ]),
    ];
    let sections = vec![CoreSection::Interface(0, encode_doc(&doc))];
    let err = validate(&sections).unwrap_err();
    assert_eq!(err.message(), "found duplicate export `x`");
}

#[test]
fn implement_of_local_function_fails() {
    let doc = vec![
        WitSection::Type(vec![Type { params: vec![ValType::I32], results: vec![ValType::I32] }]),
        WitSection::Func(vec![Func { ty: 0, instrs: vec![Instruction::ArgGet(0)] }]),
        WitSection::Implement(vec![Implement { core_func: 0, adapter_func: 0 }]),
    ];
    let sections = vec![
        CoreSection::Types(vec![HostFuncType {
            params: vec![HostValType::I32],
            results: vec![HostValType::I32],
        }]),
        CoreSection::Funcs(vec![0]),
        CoreSection::Interface(0, encode_doc(&doc)),
    ];
    let err = validate(&sections).unwrap_err();
    assert_eq!(
        err.message(),
        "implement directive must be connected to imported function in the core module"
    );
}

#[test]
fn implement_of_imported_function_validates() {
    let doc = vec![
        WitSection::Type(vec![Type { params: vec![ValType::I32], results: vec![ValType::I32] }]),
        WitSection::Func(vec![Func { ty: 0, instrs: vec![Instruction::ArgGet(0)] }]),
        WitSection::Implement(vec![Implement { core_func: 0, adapter_func: 0 }]),
    ];
    let sections = host_with_payload(encode_doc(&doc));
    assert!(validate(&sections).is_ok());
}

#[test]
fn implement_with_mismatched_signature_fails() {
    let doc = vec![
        WitSection::Type(vec![Type { params: vec![ValType::I64], results: vec![ValType::I64] }]),
        WitSection::Func(vec![Func { ty: 0, instrs: vec![Instruction::ArgGet(0)] }]),
        WitSection::Implement(vec![Implement { core_func: 0, adapter_func: 0 }]),
    ];
    let sections = host_with_payload(encode_doc(&doc));
    let err = validate(&sections).unwrap_err();
    assert_eq!(
        err.message(),
        "core function 0 has a different type signature than adapter function 0"
    );
}

#[test]
fn out_of_order_subsections_fail() {
    // two type subsections: the second does not increase the ordering id
    let doc = vec![
        WitSection::Type(vec![Type { params: vec![], results: vec![] }]),
        WitSection::Type(vec![Type { params: vec![], results: vec![] }]),
    ];
    // encode_doc writes subsections in the given order
    let sections = vec![CoreSection::Interface(0, encode_doc(&doc))];
    let err = validate(&sections).unwrap_err();
    assert_eq!(err.message(), "found `adapter type` section but was out of order");
}

#[test]
fn two_interface_sections_fail() {
    let payload = identity_payload();
    let sections = vec![
        CoreSection::Types(vec![HostFuncType {
            params: vec![HostValType::I32],
            results: vec![HostValType::I32],
        }]),
        CoreSection::Imports(vec![CoreImport::Func(0)]),
        CoreSection::Interface(0, payload.clone()),
        CoreSection::Interface(100, payload),
    ];
    let err = validate(&sections).unwrap_err();
    assert_eq!(err.message(), "found two `wasm-interface-types` custom sections");
}

#[test]
fn stack_left_over_fails() {
    let doc = vec![
        WitSection::Type(vec![Type { params: vec![ValType::I32], results: vec![] }]),
        WitSection::Func(vec![Func { ty: 0, instrs: vec![Instruction::ArgGet(0)] }]),
    ];
    let sections = host_with_payload(encode_doc(&doc));
    let err = validate(&sections).unwrap_err();
    assert_eq!(err.message(), "value stack isn't empty on function exit");
}

#[test]
fn arg_get_out_of_bounds_fails() {
    let doc = vec![
        WitSection::Type(vec![Type { params: vec![], results: vec![] }]),
        WitSection::Func(vec![Func { ty: 0, instrs: vec![Instruction::ArgGet(3)] }]),
    ];
    let sections = vec![CoreSection::Interface(0, encode_doc(&doc))];
    let err = validate(&sections).unwrap_err();
    assert_eq!(err.message(), "parameter index out of bounds: 3");
}

#[test]
fn end_inside_body_fails_validation() {
    let doc = vec![
        WitSection::Type(vec![Type { params: vec![], results: vec![] }]),
        WitSection::Func(vec![Func { ty: 0, instrs: vec![Instruction::End] }]),
    ];
    // the encoder writes the stray `end`, after which the stream terminator
    // follows; the decoder stops at the first `end` and reports the rest
    let bytes = encode_doc(&doc);
    let err = decode_payload(0, &bytes).unwrap_err();
    assert_eq!(
        err.message(),
        format!("failed to parse at byte {}: trailing bytes at the end of the section", err.at)
    );
}

// -------- lowering --------

fn no_names() -> CoreNames {
    CoreNames { funcs: Vec::new(), memories: Vec::new() }
}

fn inline_tu(params: Vec<ValType>, results: Vec<ValType>) -> ast::TypeUse {
    ast::TypeUse {
        index_span: None,
        index: None,
        ty: ast::Type {
            name: None,
            params: params
                .into_iter()
                .map(|ty| ast::TextParam { name: None, ty })
                .collect(),
            results,
        },
    }
}

#[test]
fn empty_module_lowers_to_no_section() {
    let lowered = resolve(&Vec::new(), &no_names(), Vec::new()).expect("must lower");
    assert_eq!(lowered.len(), 0);
    let mut wasm = vec![0u8, b'a', b's', b'm'];
    let before = wasm.clone();
    append(lowered, &mut wasm);
    assert_eq!(wasm, before);
}

#[test]
fn identity_adapter_lowers_and_encodes() {
    // (@interface type $t (func (param i32) (result i32)))
    // (@interface func $g (type $t) arg.get 0 call-core $f)
    // (@interface export "g" (func $g))
    let adapters = vec![
        ast::Adapter::Type(ast::Type {
            name: Some("t".to_string()),
            params: vec![ast::TextParam { name: None, ty: ValType::I32 }],
            results: vec![ValType::I32],
        }),
        ast::Adapter::Func(ast::Func {
            span: 10,
            name: Some("g".to_string()),
            export: None,
            ty: ast::TypeUse {
                index_span: None,
                index: Some(ast::Index::Id("t".to_string())),
                ty: ast::Type { name: None, params: vec![], results: vec![] },
            },
            kind: ast::FuncKind::Inline {
                instrs: ast::Instructions {
                    instrs: vec![
                        ast::Instruction::ArgGet(ast::Index::Num(0)),
                        ast::Instruction::CallCore(ast::Index::Id("f".to_string())),
                    ],
                },
            },
        }),
        ast::Adapter::Export(ast::Export {
            name: "g".to_string(),
            func: ast::Index::Id("g".to_string()),
        }),
    ];
    let core_names = CoreNames {
        funcs: vec![NameBinding { name: "f".to_string(), idx: 0 }],
        memories: Vec::new(),
    };
    let lowered = resolve(&Vec::new(), &core_names, adapters).expect("must lower");
    let mut wasm = Vec::new();
    append(lowered, &mut wasm);
    // the appended bytes are a full custom section wrapping the payload
    assert_eq!(wasm[0], 0x00);
    // decode the payload back out: skip the section id, the length, and the
    // length-prefixed name
    let name_len = "wasm-interface-types".len();
    let payload_start = 2 + 1 + name_len;
    let payload = &wasm[payload_start..];
    assert_eq!(payload, &identity_payload()[..]);
}

#[test]
fn inline_import_is_deinlined() {
    // (@interface func $f (export "e") (import "m" "n") (param i32))
    let adapters = vec![ast::Adapter::Func(ast::Func {
        span: 3,
        name: Some("f".to_string()),
        export: Some("e".to_string()),
        ty: inline_tu(vec![ValType::I32], vec![]),
        kind: ast::FuncKind::Import { module: "m".to_string(), name: "n".to_string() },
    })];
    let lowered = resolve(&Vec::new(), &no_names(), adapters).expect("must lower");
    // the import, then the synthesized export and the synthesized type
    assert_eq!(lowered.len(), 3);
    assert!(matches!(&lowered[0], ast::Adapter::Import(_)));
    assert!(matches!(&lowered[1], ast::Adapter::Export(_)));
    assert!(matches!(&lowered[2], ast::Adapter::Type(_)));
    match &lowered[1] {
        ast::Adapter::Export(e) => {
            assert_eq!(e.name, "e");
            assert!(matches!(e.func, ast::Index::Num(0)));
        }
        _ => unreachable!(),
    }
}

#[test]
fn implement_by_name_resolves_against_core_imports() {
    let core_imports = vec![
        ast::CoreFuncImport { module: "a".to_string(), field: Some("x".to_string()) },
        ast::CoreFuncImport { module: "m".to_string(), field: Some("n".to_string()) },
    ];
    let adapters = vec![
        ast::Adapter::Type(ast::Type { name: None, params: vec![], results: vec![] }),
        ast::Adapter::Func(ast::Func {
            span: 0,
            name: None,
            export: None,
            ty: ast::TypeUse {
                index_span: None,
                index: Some(ast::Index::Num(0)),
                ty: ast::Type { name: None, params: vec![], results: vec![] },
            },
            kind: ast::FuncKind::Inline { instrs: ast::Instructions { instrs: vec![] } },
        }),
        ast::Adapter::Implement(ast::Implement {
            span: 7,
            implemented: ast::Implemented::ByName {
                module: "m".to_string(),
                name: "n".to_string(),
            },
            implementation: ast::Implementation::ByIndex(ast::Index::Num(0)),
        }),
    ];
    let lowered = resolve(&core_imports, &no_names(), adapters).expect("must lower");
    match &lowered[2] {
        ast::Adapter::Implement(im) => match &im.implemented {
            ast::Implemented::ByIndex(ast::Index::Num(n)) => assert_eq!(*n, 1),
            other => panic!("not resolved: {:?}", other),
        },
        other => panic!("not an implement: {:?}", other),
    }
}

#[test]
fn ambiguous_core_import_is_an_error() {
    let core_imports = vec![
        ast::CoreFuncImport { module: "m".to_string(), field: Some("n".to_string()) },
        ast::CoreFuncImport { module: "m".to_string(), field: Some("n".to_string()) },
    ];
    let adapters = vec![ast::Adapter::Implement(ast::Implement {
        span: 5,
        implemented: ast::Implemented::ByName { module: "m".to_string(), name: "n".to_string() },
        implementation: ast::Implementation::ByIndex(ast::Index::Num(0)),
    })];
    let err = resolve(&core_imports, &no_names(), adapters).unwrap_err();
    assert_eq!(err.at, 5);
    assert_eq!(
        err.msg,
        "import of `m` from `n` is ambiguous since it's listed twice in the core module"
    );
}

#[test]
fn missing_core_import_is_an_error() {
    let adapters = vec![ast::Adapter::Implement(ast::Implement {
        span: 9,
        implemented: ast::Implemented::ByName { module: "m".to_string(), name: "n".to_string() },
        implementation: ast::Implementation::ByIndex(ast::Index::Num(0)),
    })];
    let err = resolve(&Vec::new(), &no_names(), adapters).unwrap_err();
    assert_eq!(err.msg, "import of `m` from `n` not found in core module");
}

#[test]
fn inline_signatures_are_deduplicated() {
    // two functions with the same inline signature share one synthesized type
    let mk_func = || {
        ast::Adapter::Func(ast::Func {
            span: 0,
            name: None,
            export: None,
            ty: inline_tu(vec![ValType::I32], vec![ValType::I32]),
            kind: ast::FuncKind::Inline {
                instrs: ast::Instructions {
                    instrs: vec![ast::Instruction::ArgGet(ast::Index::Num(0))],
                },
            },
        })
    };
    let lowered = resolve(&Vec::new(), &no_names(), vec![mk_func(), mk_func()]).unwrap();
    let types = lowered
        .iter()
        .filter(|a| matches!(a, ast::Adapter::Type(_)))
        .count();
    assert_eq!(types, 1);
    for a in &lowered {
        if let ast::Adapter::Func(f) = a {
            assert!(matches!(f.ty.index, Some(ast::Index::Num(0))));
        }
    }
}

#[test]
fn inline_signature_must_agree_with_named_type() {
    let adapters = vec![
        ast::Adapter::Type(ast::Type {
            name: Some("t".to_string()),
            params: vec![ast::TextParam { name: None, ty: ValType::I32 }],
            results: vec![ValType::I32],
        }),
        ast::Adapter::Func(ast::Func {
            span: 2,
            name: None,
            export: None,
            ty: ast::TypeUse {
                index_span: Some(4),
                index: Some(ast::Index::Id("t".to_string())),
                ty: ast::Type {
                    name: None,
                    params: vec![ast::TextParam { name: None, ty: ValType::I64 }],
                    results: vec![ValType::I32],
                },
            },
            kind: ast::FuncKind::Inline { instrs: ast::Instructions { instrs: vec![] } },
        }),
    ];
    let err = resolve(&Vec::new(), &no_names(), adapters).unwrap_err();
    assert_eq!(err.at, 4);
    assert_eq!(err.msg, "inline function type type doesn't match type reference");
}

#[test]
fn unknown_adapter_name_is_an_error() {
    let adapters = vec![ast::Adapter::Export(ast::Export {
        name: "x".to_string(),
        func: ast::Index::Id("ghost_func".to_string()),
    })];
    let err = resolve(&Vec::new(), &no_names(), adapters).unwrap_err();
    assert_eq!(err.msg, "failed to find adapter func named `$ghost_func`");
}

#[test]
fn lowering_twice_is_idempotent() {
    let adapters = vec![
        ast::Adapter::Func(ast::Func {
            span: 1,
            name: Some("f".to_string()),
            export: Some("e".to_string()),
            ty: inline_tu(vec![ValType::I32], vec![ValType::I32]),
            kind: ast::FuncKind::Inline {
                instrs: ast::Instructions {
                    instrs: vec![ast::Instruction::ArgGet(ast::Index::Num(0))],
                },
            },
        }),
        ast::Adapter::Implement(ast::Implement {
            span: 2,
            implemented: ast::Implemented::ByName {
                module: "m".to_string(),
                name: "n".to_string(),
            },
            implementation: ast::Implementation::Inline {
                ty: inline_tu(vec![ValType::I32], vec![ValType::I32]),
                instrs: ast::Instructions {
                    instrs: vec![ast::Instruction::ArgGet(ast::Index::Num(0))],
                },
            },
        }),
    ];
    let core_imports =
        vec![ast::CoreFuncImport { module: "m".to_string(), field: Some("n".to_string()) }];
    let once = resolve(&core_imports, &no_names(), adapters).expect("must lower");
    let mut bytes_once = Vec::new();
    append(once.clone(), &mut bytes_once);
    let twice = resolve(&core_imports, &no_names(), once).expect("must lower again");
    let mut bytes_twice = Vec::new();
    append(twice, &mut bytes_twice);
    assert_eq!(bytes_once, bytes_twice);
}

#[test]
fn partitions_keep_relative_order() {
    let items = vec![
        ast::Adapter::Export(ast::Export { name: "a".to_string(), func: ast::Index::Num(0) }),
        ast::Adapter::Type(ast::Type { name: None, params: vec![], results: vec![] }),
        ast::Adapter::Import(ast::Import {
            span: 0,
            id: None,
            module: "m".to_string(),
            name: "n".to_string(),
            ty: ast::TypeUse {
                index_span: None,
                index: Some(ast::Index::Num(0)),
                ty: ast::Type { name: None, params: vec![], results: vec![] },
            },
        }),
    ];
    let t = move_types_first(items);
    assert!(matches!(t[0], ast::Adapter::Type(_)));
    assert!(matches!(t[1], ast::Adapter::Export(_)));
    assert!(matches!(t[2], ast::Adapter::Import(_)));
    let i = move_imports_first(t);
    assert!(matches!(i[0], ast::Adapter::Import(_)));
    assert!(matches!(i[1], ast::Adapter::Type(_)));
    assert!(matches!(i[2], ast::Adapter::Export(_)));
}

#[test]
fn namespace_descriptions_name_the_adapter_side() {
    assert_eq!(Ns::Func.desc(), "adapter func");
    assert_eq!(Ns::Type.desc(), "adapter type");
}

// -------- printing --------

#[test]
fn identity_adapter_prints_canonically() {
    let doc = decode_payload(0, &identity_payload()).expect("must decode");
    let names = HostNames { funcs: vec![Some("f".to_string())] };
    let text = print_wit(&doc, &names);
    let expected = "\n  (@interface type (;0;) (func (param i32) (result i32)))\
                    \n  (@interface func (;0;) (type 0)\
                    \n    arg.get 0\
                    \n    call-core $f)\
                    \n  (@interface export \"g\" (func 0))";
    assert_eq!(text, expected);
}

#[test]
fn printer_elides_zero_memory_operands() {
    let doc = vec![WitSection::Func(vec![Func {
        ty: 0,
        instrs: vec![
            Instruction::MemoryToString(0),
            Instruction::MemoryToString(2),
            Instruction::StringToMemory(StringToMemory { malloc: 1, mem: 0 }),
            Instruction::StringToMemory(StringToMemory { malloc: 1, mem: 3 }),
        ],
    }])];
    let names = HostNames { funcs: Vec::new() };
    let text = print_wit(&doc, &names);
    let expected = "\n  (@interface func (;0;) (type 0)\
                    \n    memory-to-string\
                    \n    memory-to-string 2\
                    \n    string-to-memory 1\
                    \n    string-to-memory 1 3)";
    assert_eq!(text, expected);
}

#[test]
fn printer_numbers_imports_and_functions_together() {
    let doc = vec![
        WitSection::Type(vec![Type { params: vec![], results: vec![] }]),
        WitSection::Import(vec![Import {
            module: "m".to_string(),
            name: "n".to_string(),
            ty: 0,
        }]),
        WitSection::Func(vec![Func { ty: 0, instrs: vec![] }]),
        WitSection::Implement(vec![Implement { core_func: 0, adapter_func: 1 }]),
    ];
    let names = HostNames { funcs: Vec::new() };
    let text = print_wit(&doc, &names);
    let expected = "\n  (@interface type (;0;) (func))\
                    \n  (@interface import \"m\" \"n\" (func (;0;) (type 0)))\
                    \n  (@interface func (;1;) (type 0))\
                    \n  (@interface implement (func 0) (func 1))";
    assert_eq!(text, expected);
}
