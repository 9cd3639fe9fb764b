#![allow(non_snake_case)]
use macro_circom::check_utxo::{
    generate_input_signal, parse_general_between_curly_brackets, CheckUtxo, Comparator,
};
use macro_circom::check_utxo::generate_check_utxo_code;
use macro_circom::errors::MacroCircomError;
use macro_circom::header::header_parts;

#[test]
fn test_parse_header() {
    // Valid input with instruction_name
    let header = "#[checkInUtxo(inputUtxo,1,test)]";
    let result = CheckUtxo::parse_header(header);
    assert!(result.is_ok());
    let utxo = result.unwrap();
    assert_eq!(utxo.name, "InputUtxo");
    assert_eq!(utxo.no_utxos, "1");
    assert_eq!(utxo.instruction_name, Some("test".to_string()));

    // Valid input without instruction_name
    let header2 = "#[checkInUtxo(inputUtxo,2)]";
    let result2 = CheckUtxo::parse_header(header2);
    assert!(result2.is_ok());
    let utxo2 = result2.unwrap();
    assert_eq!(utxo2.name, "InputUtxo");
    assert_eq!(utxo2.no_utxos, "2");
    assert_eq!(utxo2.instruction_name, None);

    // Invalid format
    let header3 = "#[invalidHeader(inputUtxo,1)]";
    let result3 = CheckUtxo::parse_header(header3);
    assert_eq!(result3, Err(MacroCircomError::CheckUtxoInvalidHeaderFormat));
}

#[test]
fn generate_check_in_utxo_code_test() {
    let contents = String::from(
        "#[checkInUtxo(utxoName, 1, instruction)]
    // to append to otherwise duplicate identifiers
   {
        amountSol == sth, // enable comparisons ==, <=, <, =>, >
        amountSpl == sth,
        assetSpl == sth,
        // blinding == sth,
        appDataHash == sth,
        // poolType: sth, // always 0
        // verifierPubkey: // has to be this verifier
        utxoData: {
           attribute1,
           attribute2 == testComparison,
           }
       }",
    );

    let (extractedCheckInUtxos, header_string, remainingContents, is_empty) =
        parse_general_between_curly_brackets(
            &contents,
            &String::from("#[checkInUtxo("),
            false,
            false,
        )
        .unwrap();
    let mut check_utxo = CheckUtxo::parse_header(&header_string).unwrap();
    assert_eq!(check_utxo.name, "UtxoName");
    assert_eq!(check_utxo.no_utxos, "1");
    assert_eq!(
        check_utxo.instruction_name,
        Some(String::from("instruction"))
    );
    check_utxo.from_input(&extractedCheckInUtxos).unwrap();
    assert_eq!(
        check_utxo.amount_sol,
        Some((Comparator::Equal, String::from("sth")))
    );
}

#[test]
fn generate_signals_test() {
    // Setting up a CheckUtxo instance with mock data
    let mut check_utxo = CheckUtxo {
        code: String::new(),
        name: "UtxoName".to_string(),
        is_in_utxo: false,
        is_out_utxo: false,
        instruction_name: Some("instruction".to_string()),
        no_utxos: String::from("1"),
        amount_sol: Some((Comparator::Equal, "sth".to_string())),
        amount_spl: None,
        asset_spl: None,
        app_data_hash: None,
        utxo_data: Some(vec![
            ("attribute1".to_string(), None, None),
            (
                "attribute2".to_string(),
                Some(Comparator::Equal),
                Some("testComparison".to_string()),
            ),
        ]),
    };

    // Generating signals
    check_utxo.generate_signals();

    // Expected code output
    let expected_output = format!(
        "{}{}",
        generate_input_signal(&String::from("attribute1")),
        generate_input_signal(&String::from("attribute2"))
    );
    // Asserting that the generated code matches the expected output exactly
    assert_eq!(check_utxo.code, expected_output);
}

#[test]
fn generate_components_test() -> Result<(), MacroCircomError> {
    // Setting up a CheckUtxo instance with mock data
    let mut check_utxo = CheckUtxo {
        code: String::new(),
        name: "UtxoName".to_string(),
        is_in_utxo: true,
        is_out_utxo: false,
        instruction_name: Some("instruction".to_string()),
        no_utxos: String::from("1"),
        amount_sol: Some((Comparator::Equal, "sth".to_string())),
        amount_spl: Some((Comparator::Equal, "sth".to_string())),
        asset_spl: Some((Comparator::Equal, "sth".to_string())),
        app_data_hash: Some((Comparator::Equal, "sth".to_string())),
        utxo_data: Some(vec![
            ("attribute1".to_string(), None, None),
            (
                "attribute2".to_string(),
                Some(Comparator::Equal),
                Some("testComparison".to_string()),
            ),
        ]),
    };

    // Generating components
    check_utxo.generate_components()?;
    println!("{}", check_utxo.code);
    // Constructing the expected code output
    let expected_output = String::from(
        "var utxoName = 1;\n\
        component checkInAmountSolUtxoName[utxoName][nIns];\n\
        component checkInAmountSplUtxoName[utxoName][nIns];\n\
        component checkInAssetSplUtxoName[utxoName][nIns];\n\
        component checkInAppDataHashUtxoName[utxoName][nIns];\n\
        component checkInUtxoDataAttribute2UtxoName[utxoName][nIns];\n\
        component instructionHasherUtxoName;\n\
        component checkInstructionHashUtxoName[nIns];\n",
    );
    // Asserting that the generated code matches the expected output
    assert_eq!(check_utxo.code, expected_output);

    Ok(())
}

#[test]
fn generate_instruction_hash_code_test() -> Result<(), MacroCircomError> {
    // Setting up a CheckUtxo instance with mock data
    let mut check_utxo = CheckUtxo {
        code: String::new(),
        name: "utxoName".to_string(),
        is_in_utxo: true,
        is_out_utxo: false,
        instruction_name: Some("instruction".to_string()),
        no_utxos: String::from("1"),
        amount_sol: Some((Comparator::Equal, "sth".to_string())),
        amount_spl: Some((Comparator::Equal, "sth".to_string())),
        asset_spl: Some((Comparator::Equal, "sth".to_string())),
        app_data_hash: Some((Comparator::Equal, "sth".to_string())),
        utxo_data: Some(vec![
            ("attribute1".to_string(), None, None),
            (
                "attribute2".to_string(),
                Some(Comparator::Equal),
                Some("testComparison".to_string()),
            ),
        ]),
    };

    // Calling the generate_instruction_hash_code method
    check_utxo.generate_instruction_hash_code()?;

    // Constructing the expected code output
    let expected_output = r#"instructionHasherUtxoName = Poseidon(2);
instructionHasherUtxoName.inputs[0] <== attribute1;
instructionHasherUtxoName.inputs[1] <== attribute2;
for (var inUtxoIndex = 0; inUtxoIndex < nIns; inUtxoIndex++) {
	checkInstructionHashUtxoName[inUtxoIndex] = ForceEqualIfEnabled();
	checkInstructionHashUtxoName[inUtxoIndex].in[0] <== inAppDataHash[inUtxoIndex];
	checkInstructionHashUtxoName[inUtxoIndex].in[1] <== instructionHasherUtxoName.out;
	checkInstructionHashUtxoName[inUtxoIndex].enabled <== isInAppUtxoUtxoName[inUtxoIndex];
}
"#;

    // Asserting that the generated code matches the expected output
    assert_eq!(check_utxo.code, expected_output);

    Ok(())
}

#[test]
fn checkUtxo_generate_comparison_check_code_test() -> Result<(), MacroCircomError> {
    // Setting up a CheckUtxo instance with mock data
    let mut check_utxo = CheckUtxo {
        code: String::new(),
        name: "UtxoName".to_string(),
        is_in_utxo: true,
        is_out_utxo: false,
        instruction_name: Some("instruction".to_string()),
        no_utxos: String::from("1"),
        amount_sol: Some((Comparator::Equal, "sth".to_string())),
        amount_spl: Some((Comparator::Equal, "sth1".to_string())),
        asset_spl: Some((Comparator::Equal, "sth2".to_string())),
        app_data_hash:Some((Comparator::Equal, "sth3".to_string())),
        utxo_data:// None,     //
                              Some(vec![
                                 ("attribute1".to_string(), None, None),
                                 (
                                     "attribute2".to_string(),
                                     Some(Comparator::Equal),
                                     Some("testComparison".to_string()),
                                 ),
                             ]),
    };

    // Calling the generate_comparison_check_code method
    check_utxo.generate_comparison_check_code()?;

    // Constructing the expected code output
    let expected_output = r#"for (var i = 0; i < nIns; i++) {
checkInAmountSolUtxoName[i] = ForceEqualIfEnabled();
        checkInAmountSolUtxoName[i].in[0] <== inAmountsHasher[i].inputs[0];
        checkInAmountSolUtxoName[i].in[1] <== sth;
        checkInAmountSolUtxoName[i].enabled <== isInAppUtxoUtxoName[i] * instruction;
        checkInAppDataHashUtxoName[i] = ForceEqualIfEnabled();
        checkInAppDataHashUtxoName[i].in[0] <== inAppDataHash[i].out;
        checkInAppDataHashUtxoName[i].in[1] <== sth3;
        checkInAppDataHashUtxoName[i].enabled <== isInAppUtxoUtxoName[i] * instruction;
        checkInAmountSplUtxoName[i] = ForceEqualIfEnabled();
        checkInAmountSplUtxoName[i].in[0] <== inAmountsHasher[i].inputs[1];
        checkInAmountSplUtxoName[i].in[1] <== sth1;
        checkInAmountSplUtxoName[i].enabled <== isInAppUtxoUtxoName[i] * instruction;
        checkInAssetSplUtxoName[i] = ForceEqualIfEnabled();
        checkInAssetSplUtxoName[i].in[0] <== inCommitmentHasher[i].inputs[4];
        checkInAssetSplUtxoName[i].in[1] <== sth2;
        checkInAssetSplUtxoName[i].enabled <== isInAppUtxoUtxoName[i] * instruction;
        checkInUtxoDataAttribute2UtxoName[i] = ForceEqualIfEnabled();
        checkInUtxoDataAttribute2UtxoName[i].in[0] <== attribute2;
        checkInUtxoDataAttribute2UtxoName[i].in[1] <== testComparison;
        checkInUtxoDataAttribute2UtxoName[i].enabled <== isInAppUtxoUtxoName[i] * instruction;
        }
"#;
    println!("code {}", check_utxo.code);
    // Asserting that the generated code matches the expected output
    assert_eq!(check_utxo.code, expected_output);

    Ok(())
}


fn blank(name: &str) -> CheckUtxo {
    let mut u = CheckUtxo::new();
    u.name = name.to_string();
    u
}

#[test]
fn comparator_symbols() {
    assert_eq!(Comparator::Equal.as_str(), "==");
    assert_eq!(Comparator::NotEqual.as_str(), "!=");
    assert_eq!(Comparator::GreaterThan.as_str(), ">");
    assert_eq!(Comparator::LessThan.as_str(), "<");
    assert_eq!(Comparator::GreaterEqualThan.as_str(), ">=");
    assert_eq!(Comparator::LessEqualThan.as_str(), "<=");
}

#[test]
fn new_check_utxo_is_empty() {
    let u = CheckUtxo::new();
    assert_eq!(u.code, "");
    assert_eq!(u.no_utxos, "0");
    assert_eq!(u.utxo_data, None);
    assert!(!u.is_in_utxo && !u.is_out_utxo);
}

#[test]
fn header_with_spaces_and_unicode_digits() {
    let u = CheckUtxo::parse_header("#[  checkInUtxo(my_utxo,\t12,  some_instr) \u{3000}]").unwrap();
    assert_eq!(u.name, "MyUtxo");
    assert_eq!(u.no_utxos, "12");
    assert_eq!(u.instruction_name, Some("someInstr".to_string()));
    let u = CheckUtxo::parse_header("#[checkInUtxo(a,\u{663})]").unwrap();
    assert_eq!(u.no_utxos, "\u{663}");
}

#[test]
fn header_refusals() {
    let bad = [
        "#[checkInUtxo(1a,1)]",
        "#[checkInUtxo(a,)]",
        "#[checkInUtxo(a ,1)]",
        "#[checkInUtxo(a,1 )]",
        "#[checkInUtxo(a,1,)]",
        "#[checkInUtxo(a,1)] ",
        "#[checkInUtxo(a,1)",
        "[checkInUtxo(a,1)]",
        "#[checkOutUtxo(a,1)]",
    ];
    for h in bad.iter() {
        assert_eq!(
            CheckUtxo::parse_header(h),
            Err(MacroCircomError::CheckUtxoInvalidHeaderFormat),
            "{}",
            h
        );
    }
}

#[test]
fn property_defined_twice_is_refused() {
    let mut u = blank("U");
    u.process_line("amountSol == first,").unwrap();
    let before = u.clone();
    assert_eq!(
        u.process_line("amountSol == second,"),
        Err(MacroCircomError::PropertyDefinedMultipleTimes)
    );
    assert_eq!(u, before);
    assert_eq!(u.amount_sol, Some((Comparator::Equal, "first".to_string())));
}

#[test]
fn utxo_data_opened_twice_is_refused() {
    let mut u = blank("U");
    u.process_line("utxoData: {").unwrap();
    assert_eq!(u.utxo_data, Some(vec![]));
    assert_eq!(
        u.process_line("utxoData: {"),
        Err(MacroCircomError::PropertyDefinedMultipleTimes)
    );
}

#[test]
fn process_line_errors() {
    let mut u = blank("U");
    assert_eq!(
        u.process_line("amountSol != x,"),
        Err(MacroCircomError::InvalidComparator("!=".to_string()))
    );
    assert_eq!(
        u.process_line("blinding == x,"),
        Err(MacroCircomError::InvalidProperty)
    );
    assert_eq!(u, blank("U"));
    u.process_line("  appDataHash   ==   ,,hash,, ").unwrap();
    assert_eq!(u.app_data_hash, Some((Comparator::Equal, "hash".to_string())));
}

#[test]
fn utxo_data_lines() {
    let mut u = blank("U");
    u.utxo_data = Some(vec![]);
    assert_eq!(u.process_utxo_data_line("a,"), Ok(1));
    assert_eq!(u.process_utxo_data_line("b == c,"), Ok(1));
    assert_eq!(
        u.process_utxo_data_line("d e"),
        Err(MacroCircomError::PropertyDefinedMultipleTimes)
    );
    assert_eq!(
        u.process_utxo_data_line("d < e"),
        Err(MacroCircomError::InvalidComparator("<".to_string()))
    );
    assert_eq!(u.process_utxo_data_line("  }"), Ok(2));
    assert_eq!(
        u.utxo_data,
        Some(vec![
            ("a".to_string(), None, None),
            ("b".to_string(), Some(Comparator::Equal), Some("c".to_string())),
        ])
    );
}

#[test]
fn from_input_stops_at_first_error() {
    let mut u = blank("U");
    let lines: Vec<String> = vec![
        "amountSol == x,".to_string(),
        "amountSpl ~ y,".to_string(),
        "assetSpl == z,".to_string(),
    ];
    assert_eq!(
        u.from_input(&lines),
        Err(MacroCircomError::InvalidComparator("~".to_string()))
    );
    assert_eq!(u.amount_sol, Some((Comparator::Equal, "x".to_string())));
    assert_eq!(u.asset_spl, None);
}

#[test]
fn from_input_ignores_lines_after_utxo_data() {
    let mut u = blank("U");
    let lines: Vec<String> = vec![
        "utxoData: {".to_string(),
        "a,".to_string(),
        "}".to_string(),
        "whatever goes here".to_string(),
    ];
    u.from_input(&lines).unwrap();
    assert_eq!(u.utxo_data, Some(vec![("a".to_string(), None, None)]));
}

#[test]
fn generation_needs_in_or_out() {
    let mut u = blank("U");
    u.no_utxos = "1".to_string();
    u.utxo_data = Some(vec![]);
    assert_eq!(
        u.generate_components(),
        Err(MacroCircomError::CheckUtxoInvalidFormat)
    );
    assert_eq!(
        u.generate_comparison_check_code(),
        Err(MacroCircomError::CheckUtxoInvalidFormat)
    );
    assert_eq!(
        u.generate_instruction_hash_code(),
        Err(MacroCircomError::CheckUtxoInvalidFormat)
    );
    assert_eq!(u.code, "");
}

#[test]
fn components_for_several_out_utxos() {
    let mut u = blank("myUtxo");
    u.is_out_utxo = true;
    u.no_utxos = "+02".to_string();
    u.utxo_data = Some(vec![("x".to_string(), Some(Comparator::Equal), Some("y".to_string()))]);
    u.generate_components().unwrap();
    assert_eq!(
        u.code,
        "var myUtxo = 2;\n\
component checkOutUtxoDataXmyUtxo[myUtxo][nOuts];\n\
component instructionHashermyUtxo[myUtxo];\n\
component checkInstructionHashmyUtxo[myUtxo][nOuts];\n"
    );
}

#[test]
fn instruction_hash_for_several_utxos() {
    let mut u = blank("myUtxo");
    u.is_out_utxo = true;
    u.no_utxos = "3".to_string();
    u.utxo_data = Some(vec![("x".to_string(), None, None)]);
    u.generate_instruction_hash_code().unwrap();
    assert_eq!(
        u.code,
        "for (var appUtxoIndex = 0; appUtxoIndex < nAppUtxos; appUtxoIndex++) {\n\
\tinstructionHasherMyUtxo[appUtxoIndex] = Poseidon(1);\n\
instructionHasherMyUtxo[appUtxoIndex].inputs[0] <== x[appUtxoIndex];\n\
for (var inUtxoIndex = 0; inUtxoIndex < nIns; inUtxoIndex++) {\n\
\tcheckInstructionHashMyUtxo[appUtxoIndex][inUtxoIndex] = ForceEqualIfEnabled();\n\
\tcheckInstructionHashMyUtxo[appUtxoIndex][inUtxoIndex].in[0] <== inAppDataHash[inUtxoIndex];\n\
\tcheckInstructionHashMyUtxo[appUtxoIndex][inUtxoIndex].in[1] <== instructionHasherMyUtxo[appUtxoIndex].out;\n\
\tcheckInstructionHashMyUtxo[appUtxoIndex][inUtxoIndex].enabled <== isOutAppUtxoMyUtxo[appUtxoIndex][inUtxoIndex];\n\
}\n}\n"
    );
}

#[test]
fn comparison_checks_without_instruction_use_one() {
    let mut u = blank("U");
    u.is_out_utxo = true;
    u.amount_sol = Some((Comparator::Equal, "v".to_string()));
    u.utxo_data = Some(vec![]);
    u.generate_comparison_check_code().unwrap();
    assert_eq!(
        u.code,
        "for (var i = 0; i < nOuts; i++) {\n\
checkOutAmountSolU[i] = ForceEqualIfEnabled();\n        \
checkOutAmountSolU[i].in[0] <== outAmountsHasher[i].inputs[0];\n        \
checkOutAmountSolU[i].in[1] <== v;\n        \
checkOutAmountSolU[i].enabled <== isOutAppUtxoU[i] * 1;\n        \
}\n"
    );
}

#[test]
fn generate_equal_code_camel_cases() {
    let code = macro_circom::check_utxo::generate_equal_code(
        &"N".to_string(),
        &"a".to_string(),
        &"out_value".to_string(),
        &"b".to_string(),
        &"k".to_string(),
        "out",
    );
    assert!(code.starts_with("checkOutValueN[i] = ForceEqualIfEnabled();"));
    assert!(code.contains("isOutAppUtxoN[i] * k;"));
}

#[test]
fn bracket_block_missing_header() {
    let input = "no header here\n{\n}".to_string();
    assert_eq!(
        parse_general_between_curly_brackets(&input, &"#[checkInUtxo(".to_string(), true, false),
        Err(MacroCircomError::ParseInstanceError(input.clone()))
    );
    let (block, header, rest, empty) =
        parse_general_between_curly_brackets(&input, &"#[checkInUtxo(".to_string(), false, false)
            .unwrap();
    assert!(block.is_empty());
    assert_eq!(header, "");
    assert_eq!(rest, "no header here\n{\n}");
    assert!(empty);
}

#[test]
fn bracket_block_keeps_comments_outside() {
    let input = "/** doc\n still doc */\n#[checkInUtxo(a,1)]\n{\n  x == y,\n}\nafter".to_string();
    let (block, header, rest, empty) =
        parse_general_between_curly_brackets(&input, &"#[checkInUtxo(".to_string(), true, false)
            .unwrap();
    assert_eq!(block, vec!["x == y,".to_string()]);
    assert_eq!(header, "#[checkInUtxo(a,1)]");
    assert_eq!(rest, "/** doc\nstill doc */\n}\nafter");
    assert!(!empty);
}

#[test]
fn expanding_parsed_declarations() {
    let mut u = CheckUtxo::parse_header("#[checkInUtxo(utxoName, 1, instruction)]").unwrap();
    u.is_in_utxo = true;
    let lines: Vec<String> = vec![
        "amountSol == sth,".to_string(),
        "utxoData: {".to_string(),
        "attribute1,".to_string(),
        "}".to_string(),
    ];
    u.from_input(&lines).unwrap();
    let contents = "source".to_string();
    let (rest, list) = macro_circom::check_utxo::generate_check_utxo_code(
        &contents,
        &"In".to_string(),
        vec![u],
    )
    .unwrap();
    assert_eq!(rest, "source");
    assert!(list[0].code.starts_with("signal input attribute1;\nvar utxoName = 1;\n"));
    assert!(list[0].code.ends_with("}\n"));

    let neither = CheckUtxo::new();
    assert_eq!(
        macro_circom::check_utxo::generate_check_utxo_code(&contents, &"In".to_string(), vec![neither]),
        Err(MacroCircomError::CheckUtxoInvalidFormat)
    );
}

/// The declarations of `contents`, each as its header and body give it, the
/// name, count and instruction taken as written.
fn declarations_in(contents: &str) -> Vec<CheckUtxo> {
    let mut rest = contents.to_string();
    let mut list = Vec::new();
    loop {
        let (body, header, remaining, is_empty) =
            parse_general_between_curly_brackets(&rest, &"#[checkInUtxo(".to_string(), false, false)
                .unwrap();
        if is_empty {
            return list;
        }
        let (name, count, instruction) = header_parts(header.trim()).unwrap();
        let mut utxo = CheckUtxo::new();
        utxo.name = name;
        utxo.no_utxos = count;
        utxo.instruction_name = instruction;
        utxo.is_in_utxo = true;
        utxo.from_input(&body).unwrap();
        list.push(utxo);
        rest = remaining;
    }
}

#[test]
fn checkUtxo_complete_test() {
    let contents = String::from(
        "#[checkInUtxo(utxoName, 1, instruction)]
    // to append to otherwise duplicate identifiers
   {
        amountSol == sth, // enable comparisons ==, <=, <, =>, >
        amountSpl == sth1,
        assetSpl == sth2,
        // blinding == sth,
        appDataHash == sth3,
        // poolType: sth, // always 0
        // verifierPubkey: // has to be this verifier
        utxoData: {
           attribute1,
           attribute2 == testComparison,
           }
       }",
    );
    let (_remainingContent, checkedUtxos) = generate_check_utxo_code(
        &contents,
        &String::from("In"),
        declarations_in(&contents),
    )
    .unwrap();
    let checkUtxo = checkedUtxos[0].clone();
    println!("code {}", checkUtxo.code);
    assert_eq!(checkUtxo.name, "utxoName");
    assert_eq!(checkUtxo.no_utxos, "1");
    assert_eq!(
        checkUtxo.instruction_name,
        Some(String::from("instruction"))
    );
    assert_eq!(
        checkUtxo.amount_sol,
        Some((Comparator::Equal, String::from("sth")))
    );
    assert_eq!(
        checkUtxo.amount_spl,
        Some((Comparator::Equal, String::from("sth1")))
    );
    assert_eq!(
        checkUtxo.asset_spl,
        Some((Comparator::Equal, String::from("sth2")))
    );
    assert_eq!(
        checkUtxo.app_data_hash,
        Some((Comparator::Equal, String::from("sth3")))
    );
    assert_eq!(
        checkUtxo.utxo_data,
        Some(vec![
            ("attribute1".to_string(), None, None),
            (
                "attribute2".to_string(),
                Some(Comparator::Equal),
                Some("testComparison".to_string()),
            ),
        ])
    );
}

#[test]
fn checkUtxo_complete_test_2() {
    let contents = String::from(
        "#[checkInUtxo(utxoName, 1, instruction)]
    // to append to otherwise duplicate identifiers
    {
        amountSol == sth, // enable comparisons ==, <=, <, =>, >
        amountSpl == sth1,
        assetSpl == sth2,
        // blinding == sth,
        appDataHash == sth3,
        // poolType: sth, // always 0
        // verifierPubkey: // has to be this verifier
        utxoData: {
            attribute1,
            attribute2 == testComparison,
            }
        }
       #[checkInUtxo(utxoName1, 1, instruction1)]
    // to append to otherwise duplicate identifiers
   {
        amountSol == sth2, // enable comparisons ==, <=, <, =>, >
        amountSpl == sth12,
        assetSpl == sth22,
        // blinding == sth2,
        appDataHash == sth32,
        // poolType: sth, // always 0
        // verifierPubkey: // has to be this verifier
        utxoData: {
           attribute11,
           attribute21 == testComparison1,
           }
       }",
    );
    let (_remainingContent, checkedUtxos) = generate_check_utxo_code(
        &contents,
        &String::from("In"),
        declarations_in(&contents),
    )
    .unwrap();
    let checkUtxo = checkedUtxos[0].clone();
    assert_eq!(checkedUtxos.len(), 2);
    println!("code {}", checkUtxo.code);
    assert_eq!(checkUtxo.name, "utxoName");
    assert_eq!(checkUtxo.no_utxos, "1");
    assert_eq!(
        checkUtxo.instruction_name,
        Some(String::from("instruction"))
    );
    assert_eq!(
        checkUtxo.amount_sol,
        Some((Comparator::Equal, String::from("sth")))
    );
    assert_eq!(
        checkUtxo.amount_spl,
        Some((Comparator::Equal, String::from("sth1")))
    );
    assert_eq!(
        checkUtxo.asset_spl,
        Some((Comparator::Equal, String::from("sth2")))
    );
    assert_eq!(
        checkUtxo.app_data_hash,
        Some((Comparator::Equal, String::from("sth3")))
    );
    assert_eq!(
        checkUtxo.utxo_data,
        Some(vec![
            ("attribute1".to_string(), None, None),
            (
                "attribute2".to_string(),
                Some(Comparator::Equal),
                Some("testComparison".to_string()),
            ),
        ])
    );

    let checkUtxo1 = checkedUtxos[1].clone();
    assert_eq!(checkUtxo1.name, "utxoName1");
    assert_eq!(checkUtxo1.no_utxos, "1");
    assert_eq!(
        checkUtxo1.instruction_name,
        Some(String::from("instruction1"))
    );
    assert_eq!(
        checkUtxo1.amount_sol,
        Some((Comparator::Equal, String::from("sth2")))
    );
    assert_eq!(
        checkUtxo1.amount_spl,
        Some((Comparator::Equal, String::from("sth12")))
    );
    assert_eq!(
        checkUtxo1.asset_spl,
        Some((Comparator::Equal, String::from("sth22")))
    );
    assert_eq!(
        checkUtxo1.app_data_hash,
        Some((Comparator::Equal, String::from("sth32")))
    );
    assert_eq!(
        checkUtxo1.utxo_data,
        Some(vec![
            ("attribute11".to_string(), None, None),
            (
                "attribute21".to_string(),
                Some(Comparator::Equal),
                Some("testComparison1".to_string()),
            ),
        ])
    );
}
