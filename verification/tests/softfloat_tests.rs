use genvm::softfloat::{
    float_imports, float_signatures, float_types, fops_from, import_name, rewrite_body, rewrite_float_instruction, BodyOp,
    Emit, OutOp,
    FloatInstr, MyEncoder, ValKind, I32_SIGN, OPS_PER_WIDTH, ROUND_MAX, ROUND_MIN, ROUND_MIN_MAG,
};

#[test]
fn encoder_moves_functions_past_the_imports() {
    let mut e = MyEncoder::new();
    assert_eq!(e.function_index(5), 5);
    e.set_layout(3, 40);
    assert_eq!(e.function_index(2), 2);
    assert_eq!(e.function_index(3), 43);
    assert_eq!(e.function_index(10), 50);
}

#[test]
fn types_and_signatures() {
    let (t32, t64, up, down) = float_types(7);
    assert_eq!((t32.bopf, t32.round, t64.bopf, t64.round, up, down), (7, 14, 15, 22, 23, 24));
    let sigs = float_signatures();
    assert_eq!(sigs.len(), 18);
    assert_eq!(sigs[0], (vec![ValKind::F32, ValKind::F32], vec![ValKind::F32]));
    assert_eq!(sigs[13], (vec![ValKind::F64, ValKind::I32, ValKind::I32], vec![ValKind::I32]));
    assert_eq!(sigs[17], (vec![ValKind::F64], vec![ValKind::F32]));
}

#[test]
fn import_table() {
    let (t32, t64, up, down) = float_types(0);
    let (imports, o32, o64) = float_imports(2, t32, t64, up, down);
    assert_eq!(imports.len(), 2 * OPS_PER_WIDTH as usize);
    assert_eq!(imports[0].name, "f32_add");
    assert_eq!(imports[4].name, "f32_lt_quiet");
    assert_eq!(imports[17].name, "f64_to_f32");
    assert_eq!(imports[17].fn_type, down);
    assert_eq!(imports[20].name, "f64_add");
    assert_eq!(imports[37].name, "f32_to_f64");
    assert_eq!(imports[37].fn_type, up);
    assert_eq!(imports[39].name, "f64_sqrt");
    assert_eq!(o32.add, 2);
    assert_eq!(o32.sqrt, 21);
    assert_eq!(o64.add, 22);
    assert_eq!(o64.to_u64, 38);
    assert_eq!(import_name(true, 13), "f64_to_i32");
    assert_eq!(fops_from(100).round, 118);
}

#[test]
fn instruction_rewrites() {
    let o32 = fops_from(10);
    let o64 = fops_from(30);
    assert_eq!(rewrite_float_instruction(FloatInstr::F32Add, o32, o64), vec![Emit::Call(10)]);
    assert_eq!(rewrite_float_instruction(FloatInstr::F64Sqrt, o32, o64), vec![Emit::Call(49)]);
    assert_eq!(
        rewrite_float_instruction(FloatInstr::F32Ne, o32, o64),
        vec![Emit::Call(16), Emit::I32Const(1), Emit::I32Xor]
    );
    assert_eq!(
        rewrite_float_instruction(FloatInstr::I64TruncF64U, o32, o64),
        vec![Emit::I32Const(ROUND_MIN_MAG), Emit::I32Const(0), Emit::Call(46)]
    );
    assert_eq!(
        rewrite_float_instruction(FloatInstr::F32Floor, o32, o64),
        vec![Emit::I32Const(ROUND_MIN), Emit::I32Const(0), Emit::Call(28)]
    );
    assert_eq!(
        rewrite_float_instruction(FloatInstr::F64Ceil, o32, o64),
        vec![Emit::I32Const(ROUND_MAX), Emit::I32Const(0), Emit::Call(48)]
    );
    assert_eq!(
        rewrite_float_instruction(FloatInstr::F32Neg, o32, o64),
        vec![Emit::I32ReinterpretF32, Emit::I32Const(I32_SIGN), Emit::I32Xor, Emit::F32ReinterpretI32]
    );
    assert_eq!(rewrite_float_instruction(FloatInstr::F32DemoteF64, o32, o64), vec![Emit::Call(27)]);
    assert_eq!(rewrite_float_instruction(FloatInstr::F64PromoteF32, o32, o64), vec![Emit::Call(47)]);
}

#[test]
fn body_rewrite_replaces_only_float_instructions() {
    let (t32, t64, up, down) = float_types(4);
    let (_imports, o32, o64) = float_imports(2, t32, t64, up, down);
    let body = vec![BodyOp::Other(0), BodyOp::Float(FloatInstr::F32Add), BodyOp::Other(2), BodyOp::Float(FloatInstr::F64Neg)];
    let out = rewrite_body(&body, o32, o64);
    let mut expected = vec![OutOp::Copy(0)];
    expected.extend(rewrite_float_instruction(FloatInstr::F32Add, o32, o64).into_iter().map(OutOp::Emit));
    expected.push(OutOp::Copy(2));
    expected.extend(rewrite_float_instruction(FloatInstr::F64Neg, o32, o64).into_iter().map(OutOp::Emit));
    assert_eq!(out, expected);
    assert!(out.iter().all(|o| match o {
        OutOp::Copy(i) => body.contains(&BodyOp::Other(*i)),
        OutOp::Emit(_) => true,
    }));
}
