use macro_circom::code_gen::circom_main_code::{
    generate_circom_main_code, Instance, DISCLAIMER_STRING,
};

#[test]
fn test_generate_circom_string_pass() {
    let instance = Instance {
        file_name: "appTransaction".to_owned(),
        template_name: Some(String::from("AppTransaction")),
        config: Some(vec![String::from("7"), String::from("1")]),
        public_inputs: vec![
            String::from("transactionHash"),
            String::from("publicAppVerifier"),
        ],
    };

    let expected_string = format!("{}\npragma circom 2.1.4;\n\
        include \"./circuit.circom\";\n\
        component main {{public [transactionHash, publicAppVerifier]}} =  AppTransaction(7, 1, 18, 4, 4, 184598798020101492503359154328231866914977581098629757339001774613643340069, 0, 1, 3, 2, 2);", DISCLAIMER_STRING);

    assert_eq!(
        generate_circom_main_code(&instance, "circuit"),
        expected_string
    );
}

#[test]
fn test_generate_circom_string_pass2() {
    let instance = Instance {
        file_name: "appTransaction".to_owned(),
        template_name: Some(String::from("AppTransaction")),
        config: Some(vec![
            String::from("7"),
            String::from("1"),
            String::from("3"),
            String::from("2"),
        ]),
        public_inputs: vec![
            String::from("transactionHash"),
            String::from("publicAppVerifier"),
        ],
    };

    let expected_string = format!("{}\npragma circom 2.1.4;\n\
        include \"./circuit.circom\";\n\
        component main {{public [transactionHash, publicAppVerifier]}} =  AppTransaction(7, 1, 3, 2, 18, 4, 4, 184598798020101492503359154328231866914977581098629757339001774613643340069, 0, 1, 3, 2, 2);", DISCLAIMER_STRING);

    assert_eq!(
        generate_circom_main_code(&instance, "circuit"),
        expected_string
    );
}

#[test]
fn main_code_without_config_has_no_comma() {
    for config in [None, Some(vec![])] {
        let instance = Instance {
            file_name: "app_transaction".to_owned(),
            template_name: None,
            config,
            public_inputs: vec![],
        };
        let code = generate_circom_main_code(&instance, "c");
        assert!(code.ends_with("component main {public []} =  AppTransaction( 18, 4, 4, 184598798020101492503359154328231866914977581098629757339001774613643340069, 0, 1, 3, 2, 2);"));
    }
}

#[test]
fn main_file_goes_next_to_the_circuit() {
    let instance = Instance {
        file_name: "app".to_owned(),
        template_name: None,
        config: None,
        public_inputs: vec!["x".to_string()],
    };
    let (path, code) =
        macro_circom::code_gen::circom_main_code::generate_circom_main_file(instance.clone(), "c", "dir");
    assert_eq!(path, "dir/app.circom");
    assert_eq!(code, generate_circom_main_code(&instance, "c"));
}
