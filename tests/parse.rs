use mc_assembly::{parse, parse_line, MCAsmError, Mnemonic};

fn render(source: &str) -> String {
    parse(source)
        .unwrap()
        .iter()
        .map(|mnemonic| mnemonic.to_string().unwrap())
        .collect::<Vec<String>>()
        .join("\n")
}

#[test]
fn parse_test() {
    let expected_result: String = "
            scoreboard players operation #A mcasm = #B mcasm
            scoreboard players operation #A mcasm += #C mcasm
            scoreboard players set LITERAL_SCORE_CONVERSION MC_ASM 3
            scoreboard players operation #A mcasm *= LITERAL_SCORE_CONVERSION MC_ASM
            scoreboard players reset #A mcasm
            execute store result score #D mcasm run data get mcasm:some path.to.data[0] 1024
            execute store result storage mcasm:some path.to.data[1] int 1 run scoreboard players get #D mcasm
        "
    .lines()
    .map(|s| s.trim())
    .filter(|s| !s.is_empty())
    .collect::<Vec<&str>>()
    .join("\n");
    let source = "
            DEF mcasm::#A mcasm::#B
            ADD mcasm::#A mcasm::#C
            MUL mcasm::#A 3

            REL mcasm::#A

            NTS mcasm::#D mcasm:some path.to.data[0]::<float> 1024
            STN mcasm:some path.to.data[1] mcasm::#D 1
        ";
    let stringfied = parse(source)
        .unwrap()
        .iter()
        .map(|mnemonic| mnemonic.to_string().unwrap())
        .collect::<Vec<String>>()
        .join("\n");
    assert_eq!(stringfied, expected_result);
}

#[test]
fn all_valid_lines_give_one_instruction_each_in_order() {
    let source = "// header\n\nMOV ns::A 1\n   \nADD ns::A ns::B\n  // note\nREL ns::A\n";
    let parsed = parse(source).unwrap();
    assert_eq!(parsed.len(), 3);
    assert_eq!(parsed[0].to_string().unwrap(), "scoreboard players set A ns 1");
    assert_eq!(
        parsed[1].to_string().unwrap(),
        "scoreboard players operation A ns += B ns"
    );
    assert_eq!(parsed[2].to_string().unwrap(), "scoreboard players reset A ns");
}

#[test]
fn empty_source_gives_no_instruction() {
    assert_eq!(parse("").unwrap().len(), 0);
    assert_eq!(parse("\n\n  \t\n// only a comment").unwrap().len(), 0);
}

#[test]
fn every_bad_line_is_reported_with_its_index() {
    let source = "DEF a::b 1\nFOO x\n\nADD a::b\n// c\nREL nope\nMOV a::b a::c";
    let errors = parse(source).err().unwrap();
    assert_eq!(
        errors,
        vec![
            (1, MCAsmError::UnknownMnemonic),
            (3, MCAsmError::TooFewOperand),
            (5, MCAsmError::InvalidScoreboard),
        ]
    );
}

#[test]
fn carriage_returns_and_unicode_spaces_separate_words() {
    let parsed = parse("MOV\u{3000}ns::A\t5\r\nREL ns::A\r\n").unwrap();
    assert_eq!(parsed.len(), 2);
    assert_eq!(parsed[0].to_string().unwrap(), "scoreboard players set A ns 5");
}

#[test]
fn golden_copy_add_and_staged_multiply() {
    let text = render("DEF ns::A ns::B\nADD ns::A ns::C\nMUL ns::A 3");
    assert_eq!(
        text,
        "scoreboard players operation A ns = B ns\n\
         scoreboard players operation A ns += C ns\n\
         scoreboard players set LITERAL_SCORE_CONVERSION MC_ASM 3\n\
         scoreboard players operation A ns *= LITERAL_SCORE_CONVERSION MC_ASM"
    );
}

#[test]
fn literal_and_register_operands_of_every_arithmetic_instruction() {
    let text = render(
        "SUB g::h 4\nSUB g::h g::i\nDIV g::h 2\nDIV g::h g::i\nSUR g::h 5\nSUR g::h g::i\nMUL g::h g::i\nADD g::h -3",
    );
    assert_eq!(
        text,
        "scoreboard players remove h g 4\n\
         scoreboard players operation h g -= i g\n\
         scoreboard players set LITERAL_SCORE_CONVERSION MC_ASM 2\n\
         scoreboard players operation h g /= LITERAL_SCORE_CONVERSION MC_ASM\n\
         scoreboard players operation h g /= i g\n\
         scoreboard players set LITERAL_SCORE_CONVERSION MC_ASM 5\n\
         scoreboard players operation h g %= LITERAL_SCORE_CONVERSION MC_ASM\n\
         scoreboard players operation h g %= i g\n\
         scoreboard players operation h g *= i g\n\
         scoreboard players add h g -3"
    );
}

#[test]
fn storage_moves_give_one_command_each() {
    let parsed = parse("NTS ns::A st:data a.b 10\nSTN st:data a.b ns::A 2").unwrap();
    let first = parsed[0].to_qualified().unwrap();
    let second = parsed[1].to_qualified().unwrap();
    assert_eq!(first.len(), 1);
    assert_eq!(second.len(), 1);
    assert_eq!(
        parsed[0].to_string().unwrap(),
        "execute store result score A ns run data get st:data a.b 10"
    );
    assert_eq!(
        parsed[1].to_string().unwrap(),
        "execute store result storage st:data a.b int 2 run scoreboard players get A ns"
    );
}

#[test]
fn storage_path_type_annotation_is_written_out() {
    let parsed = parse("STN st:data a.b::<double> ns::A +7").unwrap();
    assert_eq!(
        parsed[0].to_string().unwrap(),
        "execute store result storage st:data a.b double 7 run scoreboard players get A ns"
    );
}

#[test]
fn each_parse_error_kind() {
    assert_eq!(parse_line("").err(), Some(MCAsmError::EmptyLineGiven));
    assert_eq!(parse_line("  \t ").err(), Some(MCAsmError::EmptyLineGiven));
    assert_eq!(parse_line("MOV a::b").err(), Some(MCAsmError::TooFewOperand));
    assert_eq!(parse_line("REL").err(), Some(MCAsmError::TooFewOperand));
    assert_eq!(
        parse_line("NTS a::b st:x p").err(),
        Some(MCAsmError::TooFewOperand)
    );
    assert_eq!(parse_line("MOV a::b c").err(), Some(MCAsmError::InvalidOperand));
    assert_eq!(parse_line("MOV a 1").err(), Some(MCAsmError::InvalidOperand));
    assert_eq!(parse_line("JMP a::b").err(), Some(MCAsmError::UnknownMnemonic));
    assert_eq!(parse_line("mov a::b 1").err(), Some(MCAsmError::UnknownMnemonic));
    assert_eq!(
        parse_line("NTS a::b st:x p::<word> 1").err(),
        Some(MCAsmError::UnknownType)
    );
    assert_eq!(
        parse_line("NTS ab st:x p 1").err(),
        Some(MCAsmError::InvalidScoreboard)
    );
    assert_eq!(
        parse_line("STN st:x p ab 1").err(),
        Some(MCAsmError::InvalidScoreboard)
    );
    assert_eq!(
        parse_line("NTS a::b ST p 1").err(),
        Some(MCAsmError::InvalidStorage)
    );
    assert_eq!(
        parse_line("STN ST p a::b 1").err(),
        Some(MCAsmError::InvalidStorage)
    );
    assert_eq!(
        parse_line("NTS a::b st:x p -1").err(),
        Some(MCAsmError::CantImplicateAsUnsignedInteger)
    );
    assert_eq!(
        parse_line("STN st:x p a::b 4294967296").err(),
        Some(MCAsmError::CantImplicateAsUnsignedInteger)
    );
}

#[test]
fn first_failing_operand_decides_the_error() {
    assert_eq!(
        parse_line("NTS ab ST p::<word> x").err(),
        Some(MCAsmError::InvalidScoreboard)
    );
    assert_eq!(
        parse_line("STN ST p::<word> ab x").err(),
        Some(MCAsmError::InvalidStorage)
    );
    assert_eq!(
        parse_line("STN st:x p::<word> ab x").err(),
        Some(MCAsmError::UnknownType)
    );
}

#[test]
fn extra_words_are_rejected() {
    assert_eq!(
        parse_line("REL a::b trailing").err(),
        Some(MCAsmError::InvalidOperand)
    );
    assert_eq!(
        parse_line("MOV a::b 1 2").err(),
        Some(MCAsmError::InvalidOperand)
    );
    assert_eq!(
        parse_line("NTS a::b st:x p 1 extra").err(),
        Some(MCAsmError::InvalidOperand)
    );
    assert_eq!(
        parse_line("STN st:x p a::b 1 extra").err(),
        Some(MCAsmError::InvalidOperand)
    );
    assert_eq!(
        parse("REL a::b\nREL a::b c").err(),
        Some(vec![(1, MCAsmError::InvalidOperand)])
    );
}

#[test]
fn integer_literal_bounds() {
    let m = parse_line("ADD a::b -9223372036854775808").unwrap();
    assert_eq!(m.to_string().unwrap(), "scoreboard players add b a 0");
    assert_eq!(
        parse_line("ADD a::b 9223372036854775808").err(),
        Some(MCAsmError::InvalidOperand)
    );
    let m = parse_line("ADD a::b +0012").unwrap();
    assert_eq!(m.to_string().unwrap(), "scoreboard players add b a 12");
    assert_eq!(parse_line("ADD a::b -").err(), Some(MCAsmError::InvalidOperand));
    assert_eq!(parse_line("ADD a::b +").err(), Some(MCAsmError::InvalidOperand));
    let m = parse_line("NTS a::b st:x p 4294967295").unwrap();
    assert_eq!(
        m.to_string().unwrap(),
        "execute store result score b a run data get st:x p 4294967295"
    );
}

#[test]
fn lowering_failure_surfaces_per_instruction() {
    let parsed = parse("MOV a::b 2147483647\nMOV a::b 2147483646").unwrap();
    assert_eq!(parsed[0].to_qualified().err(), Some(MCAsmError::NarrowingConversion));
    assert_eq!(parsed[0].to_string().err(), Some(MCAsmError::NarrowingConversion));
    assert_eq!(
        parsed[1].to_string().unwrap(),
        "scoreboard players set b a 2147483646"
    );
}

#[test]
fn rendering_twice_gives_the_same_text() {
    let parsed: Vec<Mnemonic> = parse("MUL ns::A 3\nREL ns::A").unwrap();
    let once: Vec<String> = parsed.iter().map(|m| m.to_string().unwrap()).collect();
    let twice: Vec<String> = parsed.iter().map(|m| m.to_string().unwrap()).collect();
    assert_eq!(once, twice);
}
