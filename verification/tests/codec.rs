//! Tests of the binary codec: LEB128, whole-payload decoding, the
//! byte-for-byte round trip, and the positional decode errors.

use wit_toolkit::decode::{decode_payload, WitSection};
use wit_toolkit::error::ErrorKind;
use wit_toolkit::leb::{uleb_parse, uleb_write};
use wit_toolkit::reader::{Export, Func, Implement, Import, Instruction, Parser, Type};
use wit_toolkit::valtype::ValType;
use wit_toolkit::writer::{encode_doc, Writer};

fn lp_str(out: &mut Vec<u8>, s: &str) {
    uleb_write(out, s.len() as u32);
    out.extend_from_slice(s.as_bytes());
}

fn version_header() -> Vec<u8> {
    let mut v = Vec::new();
    lp_str(&mut v, "0.1.0");
    v
}

/// A payload with one of each subsection, used by several tests.
fn sample_doc() -> Vec<WitSection> {
    vec![
        WitSection::Type(vec![Type {
            params: vec![ValType::I32, ValType::String],
            results: vec![ValType::I64],
        }]),
        WitSection::Import(vec![Import {
            module: "host".to_string(),
            name: "log".to_string(),
            ty: 0,
        }]),
        WitSection::Func(vec![Func {
            ty: 0,
            instrs: vec![
                Instruction::ArgGet(0),
                Instruction::I32ToS8X,
                Instruction::S8ToI64,
            ],
        }]),
        WitSection::Export(vec![Export {
            func: 0,
            name: "run".to_string(),
        }]),
        WitSection::Implement(vec![Implement {
            core_func: 0,
            adapter_func: 1,
        }]),
    ]
}

#[test]
fn uleb_round_trips_values() {
    for &n in &[0u32, 1, 127, 128, 300, 16383, 16384, 0xffff_ffff] {
        let mut enc = Vec::new();
        uleb_write(&mut enc, n);
        let (value, used) = uleb_parse(&enc).expect("must parse");
        assert_eq!(value, n as u64);
        assert_eq!(used, enc.len());
    }
}

#[test]
fn uleb_matches_reference_writer() {
    for &n in &[0u32, 1, 127, 128, 255, 300, 624485, 0xffff_ffff] {
        let mut ours = Vec::new();
        uleb_write(&mut ours, n);
        let mut reference = Vec::new();
        leb128::write::unsigned(&mut reference, n as u64).unwrap();
        assert_eq!(ours, reference);
    }
}

#[test]
fn uleb_parse_matches_reference_reader() {
    let cases: Vec<Vec<u8>> = vec![
        vec![0x00],
        vec![0x7f],
        vec![0x80, 0x01],
        vec![0xe5, 0x8e, 0x26],
        vec![0x80, 0x80, 0x80, 0x80, 0x08],
    ];
    for bytes in cases {
        let (value, used) = uleb_parse(&bytes).expect("must parse");
        let mut slice = &bytes[..];
        let reference = leb128::read::unsigned(&mut slice).unwrap();
        assert_eq!(value, reference);
        assert_eq!(used, bytes.len() - slice.len());
    }
}

#[test]
fn uleb_parse_accepts_padded_zero() {
    // a non-minimal encoding of zero still reads as zero
    let (value, used) = uleb_parse(&[0x80, 0x00]).unwrap();
    assert_eq!(value, 0);
    assert_eq!(used, 2);
}

#[test]
fn empty_payload_decodes_to_no_sections() {
    let bytes = version_header();
    let doc = decode_payload(0, &bytes).expect("must decode");
    assert_eq!(doc.len(), 0);
}

#[test]
fn sample_doc_round_trips_byte_for_byte() {
    let doc = sample_doc();
    let bytes = encode_doc(&doc);
    let decoded = decode_payload(0, &bytes).expect("must decode");
    let bytes_again = encode_doc(&decoded);
    assert_eq!(bytes, bytes_again);
}

#[test]
fn sample_doc_decodes_to_same_items() {
    let doc = sample_doc();
    let bytes = encode_doc(&doc);
    let decoded = decode_payload(0, &bytes).expect("must decode");
    assert_eq!(decoded.len(), 5);
    match &decoded[0] {
        WitSection::Type(ts) => {
            assert_eq!(ts.len(), 1);
            assert_eq!(ts[0].params, vec![ValType::I32, ValType::String]);
            assert_eq!(ts[0].results, vec![ValType::I64]);
        }
        _ => panic!("expected a type subsection first"),
    }
    match &decoded[1] {
        WitSection::Import(is) => {
            assert_eq!(is[0].module, "host");
            assert_eq!(is[0].name, "log");
            assert_eq!(is[0].ty, 0);
        }
        _ => panic!("expected an import subsection second"),
    }
    match &decoded[2] {
        WitSection::Func(fs) => {
            assert_eq!(fs[0].ty, 0);
            assert_eq!(
                fs[0].instrs,
                vec![
                    Instruction::ArgGet(0),
                    Instruction::I32ToS8X,
                    Instruction::S8ToI64
                ]
            );
        }
        _ => panic!("expected a function subsection third"),
    }
    match &decoded[4] {
        WitSection::Implement(ms) => {
            assert_eq!(ms[0], Implement { core_func: 0, adapter_func: 1 });
        }
        _ => panic!("expected an implement subsection last"),
    }
}

#[test]
fn empty_subsections_are_omitted() {
    let doc = vec![
        WitSection::Type(vec![]),
        WitSection::Export(vec![Export { func: 0, name: "x".to_string() }]),
    ];
    let bytes = encode_doc(&doc);
    // only the version header and the export subsection appear
    assert_eq!(bytes[version_header().len()], 0x03);
}

#[test]
fn version_mismatch_reports_offset_zero() {
    let mut bytes = Vec::new();
    lp_str(&mut bytes, "9.9.9");
    let err = decode_payload(7, &bytes).unwrap_err();
    assert_eq!(err.at, 0);
    match &err.kind {
        ErrorKind::InvalidVersion(found) => assert_eq!(found, "9.9.9"),
        other => panic!("wrong kind: {:?}", other),
    }
    assert_eq!(
        err.message(),
        "failed to parse at byte 0: schema version `9.9.9` doesn't match `0.1.0`"
    );
}

#[test]
fn trailing_byte_in_subsection_is_reported() {
    let mut bytes = version_header();
    // a type subsection with a zero item count and one stray byte after it
    bytes.push(0x00); // subsection id
    bytes.push(0x02); // body length
    bytes.push(0x00); // item count: none
    bytes.push(0xaa); // the stray byte
    let err = decode_payload(0, &bytes).unwrap_err();
    assert!(matches!(err.kind, ErrorKind::TrailingBytes));
    assert_eq!(err.at, 9);
    assert_eq!(
        err.message(),
        "failed to parse at byte 9: trailing bytes at the end of the section"
    );
}

#[test]
fn truncations_of_a_valid_payload_always_fail() {
    let doc = sample_doc();
    let bytes = encode_doc(&doc);
    for cut in 0..bytes.len() {
        // a cut at a subsection boundary still yields a valid, shorter
        // payload; every other cut must produce a positional error
        let truncated = &bytes[..cut];
        match decode_payload(0, truncated) {
            Ok(shorter) => {
                // the only prefixes that decode are those ending exactly
                // after a whole subsection: they re-encode to themselves
                assert_eq!(encode_doc(&shorter), truncated);
            }
            Err(e) => {
                assert!((e.at as usize) <= cut, "offset {} beyond cut {}", e.at, cut);
            }
        }
    }
}

#[test]
fn unknown_opcode_is_reported_at_its_offset() {
    let mut bytes = version_header();
    // a function subsection holding one function: type 0, then a bad opcode
    bytes.push(0x02); // subsection id: func
    bytes.push(0x04); // body length
    bytes.push(0x01); // one item
    bytes.push(0x02); // function body length
    bytes.push(0x00); // type index
    let opcode_at = bytes.len();
    bytes.push(0x7f); // not an opcode
    let err = decode_payload(0, &bytes).unwrap_err();
    assert!(matches!(err.kind, ErrorKind::InvalidInstruction(0x7f)));
    assert_eq!(err.at as usize, opcode_at);
    assert_eq!(
        err.message(),
        format!("failed to parse at byte {}: invalid instruction: 0x7f", opcode_at)
    );
}

#[test]
fn invalid_section_id_is_reported() {
    let mut bytes = version_header();
    let id_at = bytes.len();
    bytes.push(0x09); // not a subsection id
    bytes.push(0x00); // empty body
    let err = decode_payload(0, &bytes).unwrap_err();
    assert!(matches!(err.kind, ErrorKind::InvalidSection(0x09)));
    assert_eq!(err.at as usize, id_at);
    assert_eq!(
        err.message(),
        format!("failed to parse at byte {}: invalid section id: 9", id_at)
    );
}

#[test]
fn invalid_value_type_is_reported() {
    let mut bytes = version_header();
    bytes.push(0x00); // type subsection
    bytes.push(0x03); // body length
    bytes.push(0x01); // one item
    bytes.push(0x01); // one parameter
    bytes.push(0x44); // not a value type
    let err = decode_payload(0, &bytes).unwrap_err();
    assert!(matches!(err.kind, ErrorKind::InvalidValType(0x44)));
    assert_eq!(
        err.message(),
        format!("failed to parse at byte {}: invalid value type: 68", err.at)
    );
}

#[test]
fn oversized_uleb_is_reported() {
    let mut bytes = version_header();
    bytes.push(0x00); // type subsection
    bytes.push(0x06); // body length
    // an item count of 2^32, one bit too many
    bytes.extend_from_slice(&[0x80, 0x80, 0x80, 0x80, 0x10]);
    bytes.push(0x00);
    let err = decode_payload(0, &bytes).unwrap_err();
    match err.kind {
        ErrorKind::UlebTooBig(v) => assert_eq!(v, 0x1_0000_0000),
        other => panic!("wrong kind: {:?}", other),
    }
    assert_eq!(
        err.message(),
        format!("failed to parse at byte {}: uleb encoded integer too big", err.at)
    );
}

#[test]
fn parser_reports_emptiness() {
    let bytes = version_header();
    let parser = Parser::new(0, &bytes).expect("version must check out");
    assert!(parser.is_empty());
}

#[test]
fn writer_custom_section_wraps_payload() {
    let w = Writer::new();
    let payload = w.into_payload();
    let w2 = Writer::new();
    let section = w2.into_custom_section();
    // id 0, then the length-prefixed name and payload
    assert_eq!(section[0], 0x00);
    let name = "wasm-interface-types";
    let mut inner = Vec::new();
    lp_str(&mut inner, name);
    inner.extend_from_slice(&payload);
    let mut expected = vec![0x00];
    uleb_write(&mut expected, inner.len() as u32);
    expected.extend_from_slice(&inner);
    assert_eq!(section, expected);
}
