use cart::opc;

#[test]
fn output_extension_mapping() {
    assert_eq!(opc::output_extension("ines"), "nes");
    assert_eq!(opc::output_extension("lnx"), "lnx");
    assert_eq!(opc::output_extension("raw"), "bin");
    assert_eq!(opc::output_extension("hex"), "hex");
    assert_eq!(opc::output_extension("unknown"), "bin");
}

#[test]
fn opc_args_build_command() {
    let args = opc::OpcArgs {
        input: "game.op".to_string(),
        target: "mos6502-nintendo-nes-ntsc".to_string(),
        features: vec!["debug".to_string()],
        opt_level: 1,
        format: Some("ines".to_string()),
        output: Some("out.nes".to_string()),
        stage: opc::OpcStage::Full,
        include_dirs: Vec::new(),
    };
    let argv = args.to_args();
    assert_eq!(opc::OPC_PROGRAM, "opc");
    assert_eq!(
        argv,
        vec![
            "--target", "mos6502-nintendo-nes-ntsc", "--feature", "debug", "-O", "1", "--format",
            "ines", "-o", "out.nes", "game.op",
        ]
    );
}

#[test]
fn opc_args_parse_stage() {
    let args = opc::OpcArgs {
        input: "game.op".to_string(),
        target: "mos6502-nintendo-nes-ntsc".to_string(),
        features: Vec::new(),
        opt_level: 0,
        format: None,
        output: None,
        stage: opc::OpcStage::Parse,
        include_dirs: Vec::new(),
    };
    let cmd_args = args.to_args();
    assert!(cmd_args.contains(&"--parse".to_string()));
}

#[test]
fn opc_args_full_order() {
    let args = opc::OpcArgs {
        input: "src/cart.op".to_string(),
        target: "rp2A03-nintendo-nes-ntsc".to_string(),
        features: vec!["a".to_string(), "b".to_string()],
        opt_level: 1,
        format: Some("ines".to_string()),
        output: Some("out.nes".to_string()),
        stage: opc::OpcStage::Full,
        include_dirs: vec!["libs/std/src".to_string()],
    };
    let argv = args.to_args();
    assert_eq!(
        argv,
        vec![
            "--target", "rp2A03-nintendo-nes-ntsc", "--feature", "a", "--feature", "b", "-O", "1",
            "--format", "ines", "-o", "out.nes", "-I", "libs/std/src", "src/cart.op",
        ]
    );
}
