use rnemu::common::{bits, signext};
use rnemu::executer::{Decoder, Effect};
use rnemu::operand::OperandType;
use rnemu::riscv32::isa_logo;

#[test]
fn bits_test() {
    let i: u32 = 0x297;
    let rd = bits(i, 11, 7);
    assert_eq!(5, rd);
}

#[test]
fn sext_test() {
    let x = signext(1, 1);
    assert_eq!(u32::MAX, x);
}

#[test]
fn debug_t() {
    let x = "rnemu::main";
    if let Some(n) = x.rfind(':') {
        println!("{:?}", &x[n + 1..]);
    }
}

#[test]
fn myfile_test() {
    let x = "rnemu/src/session.rs";
    let shortened = if let Some(n) = x.find('/') { &x[n + 1..] } else { x };
    println!("{}", shortened);
}

#[test]
fn riscv32_t() {
    println!("{}", isa_logo());
}

#[test]
fn macro_test() {
    let x = Decoder::new("00000 00 0 00 0 00 0", OperandType::U, Effect::AddUpperImmPc);
    assert!(x.is_some());
}

#[test]
fn executer_test() {
    let executer = rnemu::executer::Executer::new();
    assert_eq!(executer.pc, 0);
    println!("success");
}

#[test]
fn mod_t() {
    println!("{}", isa_logo());
}

#[test]
fn split_test() {
    let s = "a     b c";
    let v: Vec<&str> = s.split_whitespace().collect();
    println!("{:?}", v);
}

#[test]
fn it_works() {}

#[test]
fn dec_value_test() {}
