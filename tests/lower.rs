use mc_assembly::{
    compile, lsc, Command, Condition, IntLiteral, IntoSingleString, MCAsmError, Mnemonic,
    Operand, Path, Qualified, Releasable, ScoreAddable, ScoreAssignable, ScoreCompareble,
    ScoreDividable, ScoreMultiplicatable, ScoreSubtractable, ScoreSurplusable, Scoreboard,
    Storage, StorageType,
};

fn texts(v: Vec<Qualified>) -> Vec<String> {
    v.into_iter().map(|q| q.serialise()).collect()
}

#[test]
fn literal_assignment_below_the_bound_emits_one_set() {
    let a = Scoreboard::new("A", "ns");
    let out = IntLiteral::from(5).assign(&a).unwrap();
    assert_eq!(texts(out), vec!["scoreboard players set A ns 5".to_string()]);
    let out = IntLiteral::from(2147483646).assign(&a).unwrap();
    assert_eq!(texts(out), vec!["scoreboard players set A ns 2147483646".to_string()]);
    let out = IntLiteral::from(-7).assign(&a).unwrap();
    assert_eq!(texts(out), vec!["scoreboard players set A ns -7".to_string()]);
}

#[test]
fn literal_assignment_at_or_above_the_bound_fails() {
    let a = Scoreboard::new("A", "ns");
    assert_eq!(
        IntLiteral::from(2147483647).assign(&a).err(),
        Some(MCAsmError::NarrowingConversion)
    );
    assert_eq!(
        IntLiteral::from(i64::MAX).assign(&a).err(),
        Some(MCAsmError::NarrowingConversion)
    );
}

#[test]
fn literals_keep_their_low_32_bits() {
    let a = Scoreboard::new("A", "ns");
    let out = ScoreAddable::add(&IntLiteral::from(4294967297), &a).unwrap();
    assert_eq!(texts(out), vec!["scoreboard players add A ns 1".to_string()]);
    let out = IntLiteral::from(-2147483648).sub(&a).unwrap();
    assert_eq!(
        texts(out),
        vec!["scoreboard players remove A ns -2147483648".to_string()]
    );
}

#[test]
fn register_operands_use_operation_commands() {
    let a = Scoreboard::new("A", "ns");
    let b = Scoreboard::new("B", "ns");
    assert_eq!(
        texts(b.assign(&a).unwrap()),
        vec!["scoreboard players operation A ns = B ns".to_string()]
    );
    assert_eq!(
        texts(ScoreAddable::add(&b, &a).unwrap()),
        vec!["scoreboard players operation A ns += B ns".to_string()]
    );
    assert_eq!(
        texts(b.sub(&a).unwrap()),
        vec!["scoreboard players operation A ns -= B ns".to_string()]
    );
    assert_eq!(
        texts(b.mul(&a).unwrap()),
        vec!["scoreboard players operation A ns *= B ns".to_string()]
    );
    assert_eq!(
        texts(b.div(&a).unwrap()),
        vec!["scoreboard players operation A ns /= B ns".to_string()]
    );
    assert_eq!(
        texts(b.sur(&a).unwrap()),
        vec!["scoreboard players operation A ns %= B ns".to_string()]
    );
    assert_eq!(texts(b.rel()), vec!["scoreboard players reset B ns".to_string()]);
}

#[test]
fn literal_operations_without_immediate_form_are_staged() {
    let a = Scoreboard::new("A", "ns");
    assert_eq!(
        texts(IntLiteral::from(9).sur(&a).unwrap()),
        vec![
            "scoreboard players set LITERAL_SCORE_CONVERSION MC_ASM 9".to_string(),
            "scoreboard players operation A ns %= LITERAL_SCORE_CONVERSION MC_ASM".to_string(),
        ]
    );
}

#[test]
fn comparisons_of_registers_and_literals() {
    let a = Scoreboard::new("A", "ns");
    let b = Scoreboard::new("B", "ns");
    let (setup, cond) = b.cmp(false, "<", &a).unwrap();
    assert_eq!(setup.len(), 0);
    let mut q = Qualified::new(a.free());
    q.push_condition(cond);
    assert_eq!(
        q.serialise(),
        "execute if score A ns < B ns run scoreboard players reset A ns"
    );
    let (setup, cond) = IntLiteral::from(4).cmp(true, "=", &a).unwrap();
    assert_eq!(
        texts(setup),
        vec!["scoreboard players set LITERAL_SCORE_CONVERSION MC_ASM 4".to_string()]
    );
    let mut q = Qualified::new(a.free());
    q.push_condition(cond);
    assert_eq!(
        q.serialise(),
        "execute unless score A ns = LITERAL_SCORE_CONVERSION MC_ASM run scoreboard players reset A ns"
    );
}

#[test]
fn nested_jumps_accumulate_guards_in_order() {
    let reg = |h: &str| Scoreboard::new(h, "ns");
    let m = Mnemonic::Je((
        reg("A"),
        Operand::Score(reg("B")),
        Box::new(Mnemonic::Jl((
            reg("C"),
            Operand::Score(reg("D")),
            Box::new(Mnemonic::Rel(reg("E"))),
        ))),
    ));
    let out = m.to_qualified().unwrap();
    assert_eq!(out.len(), 1);
    assert_eq!(
        m.to_string().unwrap(),
        "execute if score C ns < D ns if score A ns = B ns run scoreboard players reset E ns"
    );
}

#[test]
fn jump_setup_commands_come_first_and_unguarded() {
    let reg = |h: &str| Scoreboard::new(h, "ns");
    let m = Mnemonic::Jne((
        reg("A"),
        Operand::Int(IntLiteral::from(7)),
        Box::new(Mnemonic::Mul((reg("E"), Operand::Int(IntLiteral::from(2))))),
    ));
    assert_eq!(
        m.to_string().unwrap(),
        "scoreboard players set LITERAL_SCORE_CONVERSION MC_ASM 7\n\
         execute unless score A ns = LITERAL_SCORE_CONVERSION MC_ASM run scoreboard players set LITERAL_SCORE_CONVERSION MC_ASM 2\n\
         execute unless score A ns = LITERAL_SCORE_CONVERSION MC_ASM run scoreboard players operation E ns *= LITERAL_SCORE_CONVERSION MC_ASM"
    );
    let g = Mnemonic::Jg((
        reg("A"),
        Operand::Score(reg("B")),
        Box::new(Mnemonic::Rel(reg("E"))),
    ));
    assert_eq!(
        g.to_string().unwrap(),
        "execute if score A ns > B ns run scoreboard players reset E ns"
    );
}

#[test]
fn a_failing_nested_instruction_fails_the_jump() {
    let reg = |h: &str| Scoreboard::new(h, "ns");
    let m = Mnemonic::Je((
        reg("A"),
        Operand::Int(IntLiteral::from(1)),
        Box::new(Mnemonic::Mov((reg("E"), Operand::Int(IntLiteral::from(i64::MAX))))),
    ));
    assert_eq!(m.to_qualified().err(), Some(MCAsmError::NarrowingConversion));
}

#[test]
fn serialise_without_and_with_guards() {
    let q = Qualified::new(Command::from("say hi".to_string()));
    assert_eq!(q.serialise(), "say hi");
    let mut q = Qualified::new(Command::from("say hi".to_string()));
    q.push_condition(Condition::from("if a".to_string()));
    q.push_condition(Condition::from("unless b".to_string()));
    assert_eq!(q.serialise(), "execute if a unless b run say hi");
}

#[test]
fn commands_join_into_one_text() {
    let a = Scoreboard::new("A", "ns");
    let v = vec![Qualified::new(a.get()), Qualified::new(a.free())];
    assert_eq!(
        v.into_single_string(),
        "scoreboard players get A ns\nscoreboard players reset A ns"
    );
    let empty: Vec<Qualified> = Vec::new();
    assert_eq!(empty.into_single_string(), "");
}

#[test]
fn register_reads_split_at_the_first_separator() {
    let s = Scoreboard::try_from("obj::holder::x").unwrap();
    assert_eq!(s.objective, "obj");
    assert_eq!(s.scoreholder, "holder::x");
    let s = Scoreboard::try_from("::h").unwrap();
    assert_eq!(s.objective, "");
    assert_eq!(s.scoreholder, "h");
    assert_eq!(Scoreboard::try_from("a:b").err(), Some(MCAsmError::InvalidScoreboard));
}

#[test]
fn scratch_register_name() {
    let s = lsc();
    assert_eq!(s.scoreholder, "LITERAL_SCORE_CONVERSION");
    assert_eq!(s.objective, "MC_ASM");
}

#[test]
fn register_command_texts() {
    let a = Scoreboard::new("A", "ns");
    let b = Scoreboard::new("B", "ns");
    assert_eq!(a.set(-1).command, "scoreboard players set A ns -1");
    assert_eq!(a.add(10).command, "scoreboard players add A ns 10");
    assert_eq!(a.remove(0).command, "scoreboard players remove A ns 0");
    assert_eq!(a.free().command, "scoreboard players reset A ns");
    assert_eq!(a.get().command, "scoreboard players get A ns");
    assert_eq!(
        a.operate("><", &b).command,
        "scoreboard players operation A ns >< B ns"
    );
    let mut q = Qualified::new(a.get());
    q.push_condition(a.compare(true, ">", &b));
    assert_eq!(
        q.serialise(),
        "execute unless score B ns > A ns run scoreboard players get A ns"
    );
}

#[test]
fn storage_reference_takes_the_leftmost_match() {
    let s = Storage::try_from("mcasm:some").unwrap();
    assert_eq!(s.namespace, "mcasm");
    assert_eq!(s.name, "some");
    assert_eq!(s.fullname(), "mcasm:some");
    let s = Storage::try_from("Ab.c:d_e-f.g!h:i").unwrap();
    assert_eq!(s.namespace, "b.c");
    assert_eq!(s.name, "d_e-f.g");
    assert_eq!(Storage::try_from("AB:CD").err(), Some(MCAsmError::InvalidStorage));
    assert_eq!(Storage::try_from("ab:").err(), Some(MCAsmError::InvalidStorage));
}

#[test]
fn storage_command_texts() {
    let s = Storage::try_from("st:data").unwrap();
    let a = Scoreboard::new("A", "ns");
    assert_eq!(
        s.store_to_score(&a, &"x.y".to_string(), 3),
        "execute store result score A ns run data get st:data x.y 3"
    );
    assert_eq!(
        a.storage_to_score(&s, &StorageType::Short, &"x.y".to_string(), 0),
        "execute store result storage st:data x.y short 0 run scoreboard players get A ns"
    );
}

#[test]
fn path_type_annotations() {
    let p = Path::try_from("a.b").unwrap();
    assert_eq!(p.path, "a.b");
    assert_eq!(p.type_annotation, StorageType::Int);
    let p = Path::try_from("a.b::<double>").unwrap();
    assert_eq!(p.path, "a.b");
    assert_eq!(p.type_annotation, StorageType::Double);
    let p = Path::try_from("a::<int>.b::<byte>").unwrap();
    assert_eq!(p.path, "a::<int>.b");
    assert_eq!(p.type_annotation, StorageType::Byte);
    let p = Path::try_from("a::<long").unwrap();
    assert_eq!(p.path, "a::<long");
    assert_eq!(p.type_annotation, StorageType::Int);
    assert_eq!(Path::try_from("a::<Int>").err(), Some(MCAsmError::UnknownType));
    assert_eq!(Path::try_from("a::<>").err(), Some(MCAsmError::UnknownType));
}

#[test]
fn storage_type_keywords() {
    for (k, t) in [
        ("byte", StorageType::Byte),
        ("short", StorageType::Short),
        ("int", StorageType::Int),
        ("long", StorageType::Long),
        ("float", StorageType::Float),
        ("double", StorageType::Double),
    ] {
        assert_eq!(StorageType::try_from(k), Some(t));
        assert_eq!(t.to_string(), k);
    }
    assert_eq!(StorageType::try_from("string"), None);
}

#[test]
fn compile_writes_every_command() {
    let out = compile("DEF ns::A 2\n// x\nMUL ns::A ns::B\nREL ns::A");
    assert_eq!(
        out.unwrap(),
        "scoreboard players set A ns 2\n\
         scoreboard players operation A ns *= B ns\n\
         scoreboard players reset A ns"
    );
    assert_eq!(
        compile("DEF ns::A 2\n// x\nMOV ns::A 2147483647\nREL ns::A\nMOV ns::B 2147483648").err(),
        Some(vec![(2, MCAsmError::NarrowingConversion)])
    );
    assert_eq!(
        compile("DEF ns::A\nREL").err(),
        Some(vec![(0, MCAsmError::TooFewOperand), (1, MCAsmError::TooFewOperand)])
    );
    assert_eq!(compile("").unwrap(), "");
}

#[test]
fn literal_jump_guard_names_the_register_first() {
    let m = Mnemonic::Je((
        Scoreboard::new("A", "ns"),
        Operand::Int(IntLiteral::from(5)),
        Box::new(Mnemonic::Rel(Scoreboard::new("E", "ns"))),
    ));
    assert_eq!(
        texts(m.to_qualified().unwrap()),
        vec![
            "scoreboard players set LITERAL_SCORE_CONVERSION MC_ASM 5".to_string(),
            "execute if score A ns = LITERAL_SCORE_CONVERSION MC_ASM run scoreboard players reset E ns"
                .to_string(),
        ]
    );
}

#[test]
fn mnemonic_to_mcfunction_test() {
    // A = (B + C) * 3
    let a = Scoreboard::new("A", "mcasm");
    let b = Scoreboard::new("B", "mcasm");
    let c = Scoreboard::new("C", "mcasm");

    const IDEAL_RESULT: &str = "scoreboard players operation A mcasm = B mcasm\nscoreboard players operation A mcasm += C mcasm\nscoreboard players set LITERAL_SCORE_CONVERSION MC_ASM 3\nscoreboard players operation A mcasm *= LITERAL_SCORE_CONVERSION MC_ASM";

    assert_eq!(
        [
            Mnemonic::Mov((a.clone(), Operand::Score(b))),
            Mnemonic::Add((a.clone(), Operand::Score(c))),
            Mnemonic::Mul((a, Operand::Int(IntLiteral::from(3))))
        ]
        .iter()
        .map(|opecode| opecode.to_string().unwrap())
        .collect::<Vec<String>>()
        .join("\n"),
        IDEAL_RESULT.to_string()
    );
}
