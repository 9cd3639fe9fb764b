use macro_circom::code_gen::check_utxo_code::{
    generate_check_utxo_code, remove_formatting, CheckUtxo, Comparator,
};
use macro_circom::check_utxo::parse_general_between_curly_brackets;
use macro_circom::errors::MacroCircomError;
use macro_circom::header::header_parts;

#[test]
fn check_utxo_code_generate_comparison_check_code_test() -> Result<(), MacroCircomError> {
    // Setting up a CheckUtxo instance with mock data
    let mut check_utxo = CheckUtxo {
        code: String::new(),
        name: "UtxoName".to_string(),
        is_in_utxo: true,
        is_out_utxo: false,
        instruction_name: Some("instruction".to_string()),
        no_utxos: String::from("1"),
        amount_sol: Some((Comparator::Equal, "sth".to_string())),
        amount_spl: Some((Comparator::Equal, "sth1".to_string())),
        asset_spl: Some((Comparator::Equal, "sth2".to_string())),
        app_data_hash: Some((Comparator::Equal, "sth3".to_string())),
        blinding: Some((Comparator::Equal, "sthB".to_string())),
        tx_version: Some((Comparator::Equal, "sthT".to_string())),
        pool_type: Some((Comparator::Equal, "sthP".to_string())),
        verifier_address: Some((Comparator::Equal, "sthV".to_string())),
        utxo_data: Some(vec![
            ("attribute1".to_string(), None, None),
            (
                "attribute2".to_string(),
                Some(Comparator::Equal),
                Some("testComparison".to_string()),
            ),
        ]),
    };
    check_utxo.generate_code()?;
    println!("code {}", check_utxo.code);
    let expected_output = r#"
signal input isInAppUtxoUtxoName[nIns];

signal input attribute1;

signal input attribute2;

component checkUtxoDataAttribute2UtxoName[nIns];
component checkAmountSolUtxoName[nIns];
component checkAppDataHashUtxoName[nIns];
component checkAmountSplUtxoName[nIns];
component checkAssetSplUtxoName[nIns];
component checkPoolTypeUtxoName[nIns];
component checkVerifierAddressUtxoName[nIns];
component checkBlindingUtxoName[nIns];
component checkTxVersionUtxoName[nIns];

for (var i = 0; i < nIns; i++) {

    checkAmountSolUtxoName[i] = ForceEqualIfEnabled();
    checkAmountSolUtxoName[i].in[0] <== inAmountsHasher[i].inputs[0];
    checkAmountSolUtxoName[i].in[1] <== sth;
    checkAmountSolUtxoName[i].enabled <== UtxoName[i] * instruction; 

    checkAppDataHashUtxoName[i] = ForceEqualIfEnabled();
    checkAppDataHashUtxoName[i].in[0] <== inAppDataHash[i].out;
    checkAppDataHashUtxoName[i].in[1] <== sth3;
    checkAppDataHashUtxoName[i].enabled <== UtxoName[i] * instruction;

    checkAmountSplUtxoName[i] = ForceEqualIfEnabled();
    checkAmountSplUtxoName[i].in[0] <== inAmountsHasher[i].inputs[1];
    checkAmountSplUtxoName[i].in[1] <== sth1;
    checkAmountSplUtxoName[i].enabled <== UtxoName[i] * instruction;

    checkAssetSplUtxoName[i] = ForceEqualIfEnabled();
    checkAssetSplUtxoName[i].in[0] <== inCommitmentHasher[i].inputs[4];
    checkAssetSplUtxoName[i].in[1] <== sth2;
    checkAssetSplUtxoName[i].enabled <== UtxoName[i] * instruction;

    checkPoolTypeUtxoName[i] = ForceEqualIfEnabled();
    checkPoolTypeUtxoName[i].in[0] <== inCommitmentHasher[i].inputs[6];
    checkPoolTypeUtxoName[i].in[1] <== sthP;
    checkPoolTypeUtxoName[i].enabled <== UtxoName[i] * instruction;

    checkVerifierAddressUtxoName[i] = ForceEqualIfEnabled();
    checkVerifierAddressUtxoName[i].in[0] <== inCommitmentHasher[i].inputs[7];
    checkVerifierAddressUtxoName[i].in[1] <== sthV;
    checkVerifierAddressUtxoName[i].enabled <== UtxoName[i] * instruction;

    checkBlindingUtxoName[i] = ForceEqualIfEnabled();
    checkBlindingUtxoName[i].in[0] <== inCommitmentHasher[i].inputs[3];
    checkBlindingUtxoName[i].in[1] <== sthB;
    checkBlindingUtxoName[i].enabled <== UtxoName[i] * instruction;

    checkTxVersionUtxoName[i] = ForceEqualIfEnabled();
    checkTxVersionUtxoName[i].in[0] <== inCommitmentHasher[i].inputs[0];
    checkTxVersionUtxoName[i].in[1] <== sthT;
    checkTxVersionUtxoName[i].enabled <== UtxoName[i] * instruction;

    checkUtxoDataAttribute2UtxoName[i] = ForceEqualIfEnabled();
    checkUtxoDataAttribute2UtxoName[i].in[0] <== attribute2;
    checkUtxoDataAttribute2UtxoName[i].in[1] <== testComparison;
    checkUtxoDataAttribute2UtxoName[i].enabled <== isInAppUtxoUtxoName[i] * instruction;

}

component instructionHasherUtxoName = Poseidon(2);


instructionHasherUtxoName.inputs[0] <== attribute1;
instructionHasherUtxoName.inputs[1] <== attribute2;


component checkInstructionHashUtxoName[nIns];
for (var inUtxoIndex = 0; inUtxoIndex < nIns; inUtxoIndex++) {
    checkInstructionHashUtxoName[inUtxoIndex] = ForceEqualIfEnabled();
    checkInstructionHashUtxoName[inUtxoIndex].in[0] <== inAppDataHash[inUtxoIndex];
    checkInstructionHashUtxoName[inUtxoIndex].in[1] <== instructionHasherUtxoName.out;
    checkInstructionHashUtxoName[inUtxoIndex].enabled <== isInAppUtxoUtxoName[inUtxoIndex];
}
"#;
    // Asserting that the generated code matches the expected output
    assert_eq!(
        remove_formatting(&check_utxo.code),
        remove_formatting(expected_output)
    );

    Ok(())
}

fn sample() -> CheckUtxo {
    let mut u = CheckUtxo::new();
    u.name = "myUtxo".to_string();
    u.is_in_utxo = true;
    u.no_utxos = "1".to_string();
    u.instruction_name = Some("instr".to_string());
    u.amount_sol = Some((Comparator::Equal, "a\"b".to_string()));
    u.utxo_data = Some(vec![
        ("x".to_string(), None, None),
        ("y".to_string(), Some(Comparator::Equal), Some("z".to_string())),
    ]);
    u
}

#[test]
fn new_check_utxo_code_is_empty() {
    let u = CheckUtxo::new();
    assert_eq!(u.no_utxos, "0");
    assert_eq!(u.code, "");
    assert_eq!(u.pool_type, None);
    assert_eq!(u.tx_version, None);
}

#[test]
fn template_data_is_the_expected_json() {
    let u = sample();
    let text = u.template_data();
    assert_eq!(
        text,
        "{\"is_ins\":\"nIns\",\"is_In\":\"In\",\"is_in\":\"in\",\"utxoName\":\"MyUtxo\",\
\"instruction\":\"instr\",\"comparisons\":[{\"component\":\"AmountSol\",\"hasher\":\"AmountsHasher\",\
\"input\":\"inputs[0]\",\"comparison\":\"a\\\"b\"}],\"comparisonsUtxoData\":[{\"component\":\"UtxoDataY\",\
\"input\":\"y\",\"comparison\":\"z\"}],\"allUtxoData\":[{\"component\":\"UtxoDataX\",\"input\":\"x\"},\
{\"component\":\"UtxoDataY\",\"input\":\"y\",\"comparison\":\"z\"}],\"utxo_data_length\":2,\
\"len_utxo_data_non_zero\":true}"
    );
    let value: serde_json::Value = serde_json::from_str(&text).unwrap();
    assert_eq!(value["comparisons"][0]["comparison"], "a\"b");
    assert_eq!(value["instruction"], "instr");
}

#[test]
fn template_data_without_instruction_is_null() {
    let mut u = sample();
    u.instruction_name = None;
    u.utxo_data = Some(vec![]);
    u.amount_sol = None;
    let value: serde_json::Value = serde_json::from_str(&u.template_data()).unwrap();
    assert!(value["instruction"].is_null());
    assert_eq!(value["utxo_data_length"], 0);
    assert_eq!(value["len_utxo_data_non_zero"], false);
    assert_eq!(value["comparisons"], serde_json::Value::Array(vec![]));
}

#[test]
fn generated_code_appends_to_existing_code() {
    let mut u = sample();
    u.code = "// before\n".to_string();
    u.generate_code().unwrap();
    assert!(u.code.starts_with("// before\n"));
    assert!(u.code.contains("signal input isInAppUtxoMyUtxo[nIns];"));
    assert!(u.code.contains("component instructionHasherMyUtxo = Poseidon(2);"));
    assert!(u.code.contains("checkAmountSolMyUtxo[i].in[1] <== a&quot;b;"));
}

#[test]
fn checks_for_no_utxo_are_left_alone() {
    let mut none = sample();
    none.no_utxos = "0".to_string();
    let mut list = vec![none.clone(), sample()];
    generate_check_utxo_code(&mut list).unwrap();
    assert_eq!(list[0], none);
    assert!(list[1].code.contains("instructionHasherMyUtxo"));
}

#[test]
fn remove_formatting_keeps_letters_and_digits() {
    assert_eq!(remove_formatting("a, b-1 \u{e7}\n\t[x];"), "ab1\u{e7}x");
    assert_eq!(remove_formatting("  "), "");
}

/// The checked utxos declared in `contents`: each header gives the name,
/// count and instruction as written, and its body the comparisons, read line
/// by line.
fn checked_utxos_in(contents: &str) -> Vec<CheckUtxo> {
    let mut rest = contents.to_string();
    let mut list = Vec::new();
    loop {
        let (body, header, remaining, is_empty) =
            parse_general_between_curly_brackets(&rest, &"#[checkInUtxo(".to_string(), false, false)
                .unwrap();
        if is_empty {
            return list;
        }
        let (name, count, instruction) = header_parts(header.trim()).unwrap();
        let mut read = macro_circom::check_utxo::CheckUtxo::new();
        read.from_input(&body).unwrap();
        let mut utxo = CheckUtxo::new();
        utxo.name = name;
        utxo.no_utxos = count;
        utxo.instruction_name = instruction;
        utxo.is_in_utxo = true;
        utxo.amount_sol = read.amount_sol;
        utxo.amount_spl = read.amount_spl;
        utxo.asset_spl = read.asset_spl;
        utxo.app_data_hash = read.app_data_hash;
        utxo.utxo_data = read.utxo_data;
        list.push(utxo);
        rest = remaining;
    }
}

#[test]
fn check_utxo_code_complete_test() {
    let contents = String::from(
        "#[checkInUtxo(utxoName, 1, instruction)]
    // to append to otherwise duplicate identifiers
   {
        amountSol == sth, // enable comparisons ==, <=, <, =>, >
        amountSpl == sth1,
        assetSpl == sth2,
        // blinding == sth,
        appDataHash == sth3,
        // poolType: sth, // always 0
        // verifierPubkey: // has to be this verifier
        utxoData: {
           attribute1,
           attribute2 == testComparison,
           }
       }",
    );
    let mut checked_utxos = checked_utxos_in(&contents);
    generate_check_utxo_code(&mut checked_utxos).unwrap();
    let check_utxo = checked_utxos[0].clone();
    println!("code {}", check_utxo.code);
    assert_eq!(check_utxo.name, "utxoName");
    assert_eq!(check_utxo.no_utxos, "1");
    assert_eq!(
        check_utxo.instruction_name,
        Some(String::from("instruction"))
    );
    assert_eq!(
        check_utxo.amount_sol,
        Some((Comparator::Equal, String::from("sth")))
    );
    assert_eq!(
        check_utxo.amount_spl,
        Some((Comparator::Equal, String::from("sth1")))
    );
    assert_eq!(
        check_utxo.asset_spl,
        Some((Comparator::Equal, String::from("sth2")))
    );
    assert_eq!(
        check_utxo.app_data_hash,
        Some((Comparator::Equal, String::from("sth3")))
    );
    assert_eq!(
        check_utxo.utxo_data,
        Some(vec![
            ("attribute1".to_string(), None, None),
            (
                "attribute2".to_string(),
                Some(Comparator::Equal),
                Some("testComparison".to_string()),
            ),
        ])
    );
}

#[test]
fn check_utxo_code_complete_test_2() {
    let contents = String::from(
        "pragma circom 2.1.4;
        include \"../../node_modules/circomlib/circuits/poseidon.circom\";
        #[checkInUtxo(utxoName, 1, instruction)]
    // to append to otherwise duplicate identifiers
    {
        amountSol == sth, // enable comparisons ==, <=, <, =>, >
        amountSpl == sth1,
        assetSpl == sth2,
        // blinding == sth,
        appDataHash == sth3,
        // poolType: sth, // always 0
        // verifierPubkey: // has to be this verifier
        utxoData: {
            attribute1,
            attribute2 == testComparison,
            }
        }
       #[checkInUtxo(utxoName1, 1, instruction1)]
    // to append to otherwise duplicate identifiers
   {
        amountSol == sth2, // enable comparisons ==, <=, <, =>, >
        amountSpl == sth12,
        assetSpl == sth22,
        // blinding == sth2,
        appDataHash == sth32,
        // poolType: sth, // always 0
        // verifierPubkey: // has to be this verifier
        utxoData: {
           attribute11,
           attribute21 == testComparison1,
           }
       }",
    );
    let mut checked_utxos = checked_utxos_in(&contents);
    generate_check_utxo_code(&mut checked_utxos).unwrap();
    let check_utxo = checked_utxos[0].clone();
    assert_eq!(checked_utxos.len(), 2);
    assert_eq!(check_utxo.name, "utxoName");
    assert_eq!(check_utxo.no_utxos, "1");
    assert_eq!(
        check_utxo.instruction_name,
        Some(String::from("instruction"))
    );
    assert_eq!(
        check_utxo.amount_sol,
        Some((Comparator::Equal, String::from("sth")))
    );
    assert_eq!(
        check_utxo.amount_spl,
        Some((Comparator::Equal, String::from("sth1")))
    );
    assert_eq!(
        check_utxo.asset_spl,
        Some((Comparator::Equal, String::from("sth2")))
    );
    assert_eq!(
        check_utxo.app_data_hash,
        Some((Comparator::Equal, String::from("sth3")))
    );
    assert_eq!(
        check_utxo.utxo_data,
        Some(vec![
            ("attribute1".to_string(), None, None),
            (
                "attribute2".to_string(),
                Some(Comparator::Equal),
                Some("testComparison".to_string()),
            ),
        ])
    );

    let check_utxo1 = checked_utxos[1].clone();
    assert_eq!(check_utxo1.name, "utxoName1");
    assert_eq!(check_utxo1.no_utxos, "1");
    assert_eq!(
        check_utxo1.instruction_name,
        Some(String::from("instruction1"))
    );
    assert_eq!(
        check_utxo1.amount_sol,
        Some((Comparator::Equal, String::from("sth2")))
    );
    assert_eq!(
        check_utxo1.amount_spl,
        Some((Comparator::Equal, String::from("sth12")))
    );
    assert_eq!(
        check_utxo1.asset_spl,
        Some((Comparator::Equal, String::from("sth22")))
    );
    assert_eq!(
        check_utxo1.app_data_hash,
        Some((Comparator::Equal, String::from("sth32")))
    );
    assert_eq!(
        check_utxo1.utxo_data,
        Some(vec![
            ("attribute11".to_string(), None, None),
            (
                "attribute21".to_string(),
                Some(Comparator::Equal),
                Some("testComparison1".to_string()),
            ),
        ])
    );
}

#[test]
fn remove_formatting_laws_on_examples() {
    let s = "signal input x;\n  check[i].in[0] <== y_1 ;";
    let once = remove_formatting(s);
    assert_eq!(once, "signalinputxcheckiin0y1");
    assert_eq!(remove_formatting(&once), once);
    assert_eq!(
        remove_formatting("signal  input\tx ; check [ i ] . in[0]<==y_1"),
        once
    );
}

#[test]
fn generate_code_without_utxo_data() {
    let mut check_utxo = CheckUtxo::new();
    check_utxo.name = "plainUtxo".to_string();
    check_utxo.is_in_utxo = true;
    check_utxo.no_utxos = "1".to_string();
    check_utxo.instruction_name = Some("instruction".to_string());
    check_utxo.amount_sol = Some((Comparator::Equal, "sth".to_string()));
    let before = check_utxo.clone();
    check_utxo.generate_code().unwrap();
    let code = check_utxo.code.clone();
    assert!(code.contains("signal input isInAppUtxoPlainUtxo[nIns];"));
    assert!(code.contains("checkAmountSolPlainUtxo[i].in[1] <== sth;"));
    assert!(!code.contains("instructionHasher"));
    assert!(!code.contains("checkInstructionHash"));
    assert!(!code.contains("UtxoData"));
    check_utxo.code = String::new();
    assert_eq!(check_utxo, before);

    let mut list = vec![before];
    generate_check_utxo_code(&mut list).unwrap();
    assert_eq!(list[0].code, code);
}
