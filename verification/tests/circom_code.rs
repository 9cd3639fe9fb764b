use macro_circom::code_gen::circom_code::{extract_template_name, generate_psp_circom_code};
use macro_circom::code_gen::circom_main_code::Instance;
use macro_circom::errors::MacroCircomError::LightTransactionUndefined;

#[test]
fn test_extract_template_name() {
    let input = "template AppTransaction(";
    let expected = Some("AppTransaction".to_string());
    assert_eq!(expected, extract_template_name(input));

    let input = "template  AnotherTemplate \n(";
    let expected = Some("AnotherTemplate".to_string());
    assert_eq!(expected, extract_template_name(input));

    let input = "invalid format(";
    let expected: Option<String> = None;
    assert_eq!(expected, extract_template_name(input));

    let input = "template MissingParenthesis";
    let expected: Option<String> = None;
    assert_eq!(expected, extract_template_name(input));
}

#[test]
fn test_parse_light_transaction_light_transaction_undefined() {
    let input = String::from("no #[lightTransaction] keyword");
    let instruction_hash_code = String::from("instruction hash code");
    let mut instance = Instance {
        file_name: String::from("file_name"),
        template_name: None,
        config: None,
        public_inputs: vec![],
    };

    let result = generate_psp_circom_code(&input, &instruction_hash_code, &mut instance);
    assert_eq!(result, Err(LightTransactionUndefined));
}

use macro_circom::code_gen::circom_code::{extract_verifier, insert_string_before_parenthesis};

#[test]
fn verifier_and_insertion() {
    assert_eq!(extract_verifier("#[lightTransaction(verifierTwo)]"), "verifierTwo");
    assert_eq!(
        insert_string_before_parenthesis("template A(x) {", ", y"),
        "template A(x, y) {"
    );
    assert_eq!(extract_template_name("template  Spaced  ( a )"), Some("Spaced".to_string()));
}

#[test]
fn light_transaction_circuit() {
    let input = String::from(
        "pragma circom 2.1.4;\n  #[lightTransaction(verifierTwo)]\n// dropped\ntemplate AppTransaction(a) {\n  signal input b;\n}\n",
    );
    let mut instance = Instance {
        file_name: String::from("appTransaction"),
        template_name: None,
        config: Some(vec!["7".to_string()]),
        public_inputs: vec![],
    };
    let (verifier, code) =
        generate_psp_circom_code(&input, &String::from("hash code"), &mut instance).unwrap();
    assert_eq!(verifier, "verifierTwo");
    assert_eq!(instance.template_name, Some("AppTransaction".to_string()));
    let expected_header = "template AppTransaction(a, nAppUtxos, levels, nIns, nOuts, feeAsset, indexFeeAsset, indexPublicAsset, nAssets, nInAssets, nOutAssets) {";
    let lines: Vec<&str> = code.split('\n').collect();
    assert_eq!(lines[0], "pragma circom 2.1.4;");
    assert_eq!(lines[1], expected_header);
    assert_eq!(lines[3], "hash code");
    assert_eq!(lines[4], "signal input b;");
    assert_eq!(lines.len(), 6);

    let mut plain = Instance {
        file_name: String::from("appTransaction"),
        template_name: Some("Old".to_string()),
        config: Some(vec![]),
        public_inputs: vec![],
    };
    let (_, code) = generate_psp_circom_code(&input, &String::new(), &mut plain).unwrap();
    assert!(code.contains("template AppTransaction(a nAppUtxos, levels,"));
}
