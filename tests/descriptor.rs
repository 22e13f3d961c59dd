use cargo_bake::abi::{decode_descriptor, encode_descriptor, AbiEntry, MAX_FUNCTIONS};
use cargo_bake::interface::{descriptor_for_items, descriptor_for_names, generate};
use cargo_bake::source::{extract_functions, public_functions, AbiError, Member, TopItem};

fn names(v: &[&str]) -> Vec<String> {
    v.iter().map(|s| s.to_string()).collect()
}

fn entries(v: &[AbiEntry]) -> Vec<(u8, String)> {
    v.iter()
        .map(|e| (e.opcode, String::from_utf8(e.name.clone()).unwrap()))
        .collect()
}

#[test]
fn encodes_three_names_exactly() {
    let bytes = encode_descriptor(&names(&["transfer", "balance", "mint"]));
    let mut expected = vec![1u8, 8];
    expected.extend_from_slice(b"transfer");
    expected.extend_from_slice(&[2, 7]);
    expected.extend_from_slice(b"balance");
    expected.extend_from_slice(&[3, 4]);
    expected.extend_from_slice(b"mint");
    assert_eq!(bytes, expected);
}

#[test]
fn round_trip_recovers_opcodes_and_names() {
    let bytes = encode_descriptor(&names(&["transfer", "balance", "mint"]));
    let decoded = decode_descriptor(&bytes).unwrap();
    assert_eq!(
        entries(&decoded),
        vec![
            (1, "transfer".to_string()),
            (2, "balance".to_string()),
            (3, "mint".to_string())
        ]
    );
}

#[test]
fn empty_name_list_encodes_to_nothing() {
    assert!(encode_descriptor(&Vec::new()).is_empty());
    assert_eq!(descriptor_for_names(&Vec::new()), Ok(None));
}

#[test]
fn non_ascii_name_counts_bytes() {
    let bytes = encode_descriptor(&names(&["é"]));
    assert_eq!(bytes, vec![1, 2, 0xc3, 0xa9]);
}

#[test]
fn long_name_length_wraps_into_one_byte() {
    let long = "a".repeat(300);
    let bytes = encode_descriptor(&vec![long]);
    assert_eq!(bytes.len(), 302);
    assert_eq!(bytes[0], 1);
    assert_eq!(bytes[1], 44);
}

#[test]
fn decode_rejects_truncated_records() {
    assert!(decode_descriptor(&[1]).is_none());
    assert!(decode_descriptor(&[1, 5, b'a', b'b']).is_none());
    assert_eq!(decode_descriptor(&[]).unwrap().len(), 0);
}

#[test]
fn too_many_functions_are_refused() {
    let many: Vec<String> = (0..256).map(|i| format!("f{}", i)).collect();
    assert_eq!(descriptor_for_names(&many), Err(AbiError::TooManyFunctions));
    let most: Vec<String> = (0..MAX_FUNCTIONS).map(|i| format!("f{}", i)).collect();
    assert!(descriptor_for_names(&most).unwrap().is_some());
}

#[test]
fn full_module_reads_back_in_order() {
    let mut src = String::from("mod contract {\n");
    for i in 1..=255 {
        src.push_str(&format!("    pub fn f{}() {{}}\n", i));
    }
    src.push_str("}\n");
    let bytes = generate(&src).unwrap().unwrap();
    let decoded = decode_descriptor(&bytes).unwrap();
    assert_eq!(decoded.len(), 255);
    for (i, e) in decoded.iter().enumerate() {
        assert_eq!(e.opcode as usize, i + 1);
        assert_eq!(e.name, format!("f{}", i + 1).into_bytes());
    }
}

#[test]
fn single_function_module() {
    let bytes = generate("mod c { pub fn only() {} }").unwrap().unwrap();
    assert_eq!(bytes, vec![1, 4, b'o', b'n', b'l', b'y']);
}

#[test]
fn module_without_public_functions_gives_no_descriptor() {
    let src = "mod contract { fn hidden() {} struct S; const K: u8 = 1; }";
    assert_eq!(generate(src), Ok(None));
    assert_eq!(generate("mod contract {}"), Ok(None));
}

#[test]
fn only_public_functions_are_listed_in_order() {
    let src = "
        mod contract {
            use std::vec::Vec;
            pub fn transfer() {}
            fn helper() {}
            pub struct Token;
            pub(crate) fn internal() {}
            pub fn balance(a: u32) -> u32 { a }
            const LIMIT: u32 = 3;
            mod nested { pub fn inner() {} }
            pub fn mint() {}
        }";
    let got = extract_functions(src).unwrap();
    assert_eq!(got, names(&["transfer", "balance", "mint"]));
    let bytes = generate(src).unwrap().unwrap();
    assert_eq!(
        entries(&decode_descriptor(&bytes).unwrap()),
        vec![
            (1, "transfer".to_string()),
            (2, "balance".to_string()),
            (3, "mint".to_string())
        ]
    );
}

#[test]
fn file_without_module_fails() {
    let src = "pub fn transfer() {}\nstruct S;";
    assert_eq!(generate(src), Err(AbiError::NoModule));
    assert_eq!(extract_functions(src), Err(AbiError::NoModule));
}

#[test]
fn module_without_body_fails() {
    assert_eq!(generate("mod contract;"), Err(AbiError::EmptyModule));
}

#[test]
fn unparsable_source_fails() {
    assert_eq!(generate("mod contract { pub fn ( }"), Err(AbiError::Syntax));
}

#[test]
fn first_module_wins() {
    let src = "fn top() {}\nmod a { pub fn first() {} }\nmod b { pub fn second() {} }";
    assert_eq!(extract_functions(src).unwrap(), names(&["first"]));
}

#[test]
fn functions_outside_the_module_are_ignored() {
    let src = "pub fn outside() {}\nmod c { pub fn inside() {} }";
    assert_eq!(extract_functions(src).unwrap(), names(&["inside"]));
}

#[test]
fn items_model_is_read_directly() {
    let items = vec![
        TopItem::Other,
        TopItem::Module {
            members: Some(vec![
                Member::Function { name: "a".to_string(), public: false },
                Member::Other,
                Member::Function { name: "b".to_string(), public: true },
            ]),
        },
        TopItem::Module { members: None },
    ];
    assert_eq!(descriptor_for_items(&items), Ok(Some(vec![1, 1, b'b'])));
    assert_eq!(descriptor_for_items(&vec![TopItem::Other]), Err(AbiError::NoModule));
    assert_eq!(
        descriptor_for_items(&vec![TopItem::Module { members: None }]),
        Err(AbiError::EmptyModule)
    );
}

#[test]
fn public_functions_filters_members() {
    let members = vec![
        Member::Other,
        Member::Function { name: "x".to_string(), public: true },
        Member::Function { name: "y".to_string(), public: false },
        Member::Function { name: "z".to_string(), public: true },
    ];
    assert_eq!(public_functions(&members), names(&["x", "z"]));
}

#[test]
fn c_string_literal_does_not_stop_parsing() {
    let src = "mod c { const X: &core::ffi::CStr = c\"hi\"; pub fn run() {} }";
    assert_eq!(extract_functions(src).unwrap(), names(&["run"]));
}
