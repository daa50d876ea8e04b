#![allow(non_snake_case)]

use chip8::{make_bitvector, Chip8};

#[test]
fn bitvector() {
    assert_eq!(vec![0,1,1,0,1,1,1,0],
               make_bitvector(0b01101110));
}

#[test]
fn op00E0() {
    let mut chip = Chip8::new();
    chip.loadHex(&vec![0x00, 0xE0]).unwrap();
    chip.graphics[1] = 1;
    assert_eq!(chip.pc, 512);

    chip.emulateCycle().unwrap();
    assert_eq!(chip.pc, 514);
    assert_eq!(chip.graphics[1], 0);
}

#[test]
fn op00EE() {
    let mut chip = Chip8::new();
    chip.loadHex(&vec![0x00, 0xEE]).unwrap();
    chip.stack[0] = 0x42;
    chip.sp = 1;
    assert_eq!(chip.pc, 512);

    chip.emulateCycle().unwrap();
    assert_eq!(chip.pc, 0x44);
    assert_eq!(chip.sp, 0);
}

#[test]
fn op1nnn() {
    let mut chip = Chip8::new();
    chip.loadHex(&vec![0x16, 0x66]).unwrap();
    assert_eq!(chip.pc, 512);
    chip.emulateCycle().unwrap();
    assert_eq!(chip.pc, 0x666);
}

#[test]
fn op2nnn() {
    let mut chip = Chip8::new();
    chip.loadHex(&vec![0x26, 0x66]).unwrap();
    assert_eq!(chip.pc, 512);
    chip.emulateCycle().unwrap();
    assert_eq!(chip.pc, 0x666);
    assert_eq!(chip.stack[0], 512);
    assert_eq!(chip.sp, 1);
}

#[test]
fn op3xnn() {
    let mut chip = Chip8::new();
    chip.loadHex(&vec![0x31, 0x66, 0x31, 0x67]).unwrap();
    chip.reg[1] = 0x67;
    assert_eq!(chip.pc, 512);
    chip.emulateCycle().unwrap();
    assert_eq!(chip.pc, 514);
    chip.emulateCycle().unwrap();
    assert_eq!(chip.pc, 518);
}

#[test]
fn op4xnn() {
    let mut chip = Chip8::new();
    chip.loadHex(&vec![0x41, 0x66, 0x41, 0x67]).unwrap();
    chip.reg[1] = 0x66;
    assert_eq!(chip.pc, 512);
    chip.emulateCycle().unwrap();
    assert_eq!(chip.pc, 514);
    chip.emulateCycle().unwrap();
    assert_eq!(chip.pc, 518);
}

#[test]
fn op5xy0() {
    let mut chip = Chip8::new();
    chip.loadHex(&vec![0x51, 0x20, 0x51, 0x30]).unwrap();
    chip.reg[1] = 0x66;
    chip.reg[2] = 0x22;
    chip.reg[3] = 0x66;
    assert_eq!(chip.pc, 512);
    chip.emulateCycle().unwrap();
    assert_eq!(chip.pc, 514);
    chip.emulateCycle().unwrap();
    assert_eq!(chip.pc, 518);
}

#[test]
fn op6xnn() {
    let mut chip = Chip8::new();
    chip.loadHex(&vec![0x6A, 0x2F]).unwrap();
    assert_eq!(chip.reg[0xA], 0);
    assert_eq!(chip.pc, 512);
    chip.emulateCycle().unwrap();
    assert_eq!(chip.reg[0xA], 0x2F);
    assert_eq!(chip.pc, 514);
}

#[test]
fn op7xnn() {
    let mut chip = Chip8::new();
    chip.loadHex(&vec![0x7A, 0x2F]).unwrap();
    chip.reg[0xA] = 0xB;
    assert_eq!(chip.reg[0xA], 0xB);
    assert_eq!(chip.pc, 512);
    chip.emulateCycle().unwrap();
    assert_eq!(chip.reg[0xA], 0x2F + 0xB);
    assert_eq!(chip.pc, 514);
}

#[test]
fn op8xy0() {
    let mut chip = Chip8::new();
    chip.loadHex(&vec![0x8A, 0x20]).unwrap();
    chip.reg[0xA] = 0xB;
    chip.reg[0x2] = 0xC;
    assert_eq!(chip.reg[0xA], 0xB);
    assert_eq!(chip.reg[0x2], 0xC);
    assert_eq!(chip.pc, 512);
    chip.emulateCycle().unwrap();
    assert_eq!(chip.reg[0xA], 0xC);
    assert_eq!(chip.reg[0x2], 0xC);
    assert_eq!(chip.pc, 514);
}

#[test]
fn op8xy1() {
    let mut chip = Chip8::new();
    chip.loadHex(&vec![0x8A, 0x21]).unwrap();
    chip.reg[0xA] = 0xB;
    chip.reg[0x2] = 0xC;
    assert_eq!(chip.reg[0xA], 0xB);
    assert_eq!(chip.reg[0x2], 0xC);
    assert_eq!(chip.pc, 512);
    chip.emulateCycle().unwrap();
    assert_eq!(chip.reg[0xA], 0xB | 0xC);
    assert_eq!(chip.reg[0x2], 0xC);
    assert_eq!(chip.pc, 514);
}

#[test]
fn op8xy2() {
    let mut chip = Chip8::new();
    chip.loadHex(&vec![0x8A, 0x22]).unwrap();
    chip.reg[0xA] = 0xB;
    chip.reg[0x2] = 0xC;
    assert_eq!(chip.reg[0xA], 0xB);
    assert_eq!(chip.reg[0x2], 0xC);
    assert_eq!(chip.pc, 512);
    chip.emulateCycle().unwrap();
    assert_eq!(chip.reg[0xA], 0xB & 0xC);
    assert_eq!(chip.reg[0x2], 0xC);
    assert_eq!(chip.pc, 514);
}

#[test]
fn op8xy3() {
    let mut chip = Chip8::new();
    chip.loadHex(&vec![0x8A, 0x23]).unwrap();
    chip.reg[0xA] = 0xB;
    chip.reg[0x2] = 0xC;
    assert_eq!(chip.reg[0xA], 0xB);
    assert_eq!(chip.reg[0x2], 0xC);
    assert_eq!(chip.pc, 512);
    chip.emulateCycle().unwrap();
    assert_eq!(chip.reg[0xA], 0xB ^ 0xC);
    assert_eq!(chip.reg[0x2], 0xC);
    assert_eq!(chip.pc, 514);
}

#[test]
fn op8xy4() {
    let mut chip = Chip8::new();
    chip.loadHex(&vec![0x8A, 0xB4, 0x8B, 0xC4]).unwrap();
    chip.reg[0xA] = 0x00;
    chip.reg[0xB] = 0xFF;
    chip.reg[0xC] = 0x01;
    assert_eq!(chip.pc, 512);

    chip.emulateCycle().unwrap();
    assert_eq!(chip.pc, 514);
    assert_eq!(chip.reg[0xA], 0xFF);
    assert_eq!(chip.reg[0xB], 0xFF);
    assert_eq!(chip.reg[0xF], 0x00);

    chip.emulateCycle().unwrap();
    assert_eq!(chip.pc, 516);
    assert_eq!(chip.reg[0xB], 0x0);
    assert_eq!(chip.reg[0xC], 0x1);
    assert_eq!(chip.reg[0xF], 0x1);
}

#[test]
fn op8xy5() {
    let mut chip = Chip8::new();
    chip.loadHex(&vec![0x8A, 0xB5, 0x8A, 0xB5]).unwrap();
    chip.reg[0xA] = 0x01;
    chip.reg[0xB] = 0x02;
    assert_eq!(chip.pc, 512);

    chip.emulateCycle().unwrap();
    assert_eq!(chip.pc, 514);
    assert_eq!(chip.reg[0xA], 0xFF);
    assert_eq!(chip.reg[0xB], 0x02);
    assert_eq!(chip.reg[0xF], 0x00);
    chip.reg[0xA] = 0x02;
    chip.reg[0xB] = 0x01;

    chip.emulateCycle().unwrap();
    assert_eq!(chip.pc, 516);
    assert_eq!(chip.reg[0xA], 0x1);
    assert_eq!(chip.reg[0xB], 0x1);
    assert_eq!(chip.reg[0xF], 0x1);
}

#[test]
fn op8x_6() {
    let mut chip = Chip8::new();
    chip.loadHex(&vec![0x81, 0x06]).unwrap();
    chip.reg[0x1] = 0b011;
    assert_eq!(chip.pc, 512);
    assert_eq!(chip.reg[0xF], 0);
    chip.emulateCycle().unwrap();
    assert_eq!(chip.pc, 514);
    assert_eq!(chip.reg[0x1], 0b01);
    assert_eq!(chip.reg[0xF], 0x1);
}

#[test]
fn op8xy7() {
    let mut chip = Chip8::new();
    chip.loadHex(&vec![0x8A, 0xB7, 0x8A, 0xB7]).unwrap();
    chip.reg[0xA] = 0x01;
    chip.reg[0xB] = 0x02;
    assert_eq!(chip.pc, 512);

    chip.emulateCycle().unwrap();
    assert_eq!(chip.pc, 514);
    assert_eq!(chip.reg[0xA], 0x01);
    assert_eq!(chip.reg[0xB], 0x02);
    assert_eq!(chip.reg[0xF], 0x01);
    chip.reg[0xA] = 0x02;
    chip.reg[0xB] = 0x01;

    chip.emulateCycle().unwrap();
    assert_eq!(chip.pc, 516);
    assert_eq!(chip.reg[0xA], 0xFF);
    assert_eq!(chip.reg[0xB], 0x01);
    assert_eq!(chip.reg[0xF], 0x0);
}

#[test]
fn op8x_e() {
    let mut chip = Chip8::new();
    chip.loadHex(&vec![0x81, 0x0E]).unwrap();
    chip.reg[0x1] = 0x81;
    assert_eq!(chip.pc, 512);
    assert_eq!(chip.reg[0xF], 0);
    chip.emulateCycle().unwrap();
    assert_eq!(chip.pc, 514);
    assert_eq!(chip.reg[0x1], 0x81 << 1);
    assert_eq!(chip.reg[0xF], 0x1);
}

#[test]
fn op9xy0() {
    let mut chip = Chip8::new();
    chip.loadHex(&vec![0x91, 0x20, 0x91, 0x30]).unwrap();
    chip.reg[0x1] = 0x81;
    chip.reg[0x2] = 0x81;
    chip.reg[0x3] = 0x82;
    assert_eq!(chip.pc, 512);

    chip.emulateCycle().unwrap();
    assert_eq!(chip.pc, 514);

    chip.emulateCycle().unwrap();
    assert_eq!(chip.pc, 518);
}

#[test]
fn opAnnn() {
    let mut chip = Chip8::new();
    chip.loadHex(&vec![0xA6, 0x66]).unwrap();
    assert_eq!(chip.index, 0);
    assert_eq!(chip.pc, 512);
    chip.emulateCycle().unwrap();
    assert_eq!(chip.index, 0x666);
    assert_eq!(chip.pc, 514);
}

#[test]
fn opBnnn() {
    let mut chip = Chip8::new();
    chip.loadHex(&vec![0xB6, 0x66]).unwrap();
    chip.reg[0] = 0x5;
    assert_eq!(chip.index, 0);
    assert_eq!(chip.pc, 512);
    chip.emulateCycle().unwrap();
    assert_eq!(chip.index, 0);
    assert_eq!(chip.pc, 0x666 + 0x5);
}

#[test]
fn opEx9e() {
    let mut chip = Chip8::new();
    chip.loadHex(&vec![0xE1, 0x9E, 0xE1, 0x9E]).unwrap();
    chip.reg[1] = 1;
    chip.key[1] = 0;
    assert_eq!(chip.pc, 512);

    chip.emulateCycle().unwrap();
    assert_eq!(chip.pc, 514);
    chip.key[1] = 1;

    chip.emulateCycle().unwrap();
    assert_eq!(chip.pc, 518);
}

#[test]
fn opExa1() {
    let mut chip = Chip8::new();
    chip.loadHex(&vec![0xE1, 0xA1, 0xE1, 0xA1]).unwrap();
    chip.reg[1] = 1;
    chip.key[1] = 1;
    assert_eq!(chip.pc, 512);

    chip.emulateCycle().unwrap();
    assert_eq!(chip.pc, 514);
    chip.key[1] = 0;

    chip.emulateCycle().unwrap();
    assert_eq!(chip.pc, 518);
}

#[test]
fn opFx07() {
    let mut chip = Chip8::new();
    chip.loadHex(&vec![0xF1, 0x07]).unwrap();
    chip.timer_delay = 10;
    assert_eq!(chip.pc, 512);

    chip.emulateCycle().unwrap();
    assert_eq!(chip.pc, 514);
    assert_eq!(chip.reg[1], 10);
}

#[test]
fn opFx0A() {
    let mut chip = Chip8::new();
    chip.loadHex(&vec![0xF1, 0x0A]).unwrap();
    assert_eq!(chip.reg[1], 0);
    assert_eq!(chip.key[1], 0);
    assert_eq!(chip.pc, 512);

    chip.emulateCycle().unwrap();
    assert_eq!(chip.pc, 512);
    chip.key[1] = 1;

    chip.emulateCycle().unwrap();
    assert_eq!(chip.pc, 514);
    assert_eq!(chip.reg[1], 1);
}

#[test]
fn opFx15() {
    let mut chip = Chip8::new();
    chip.loadHex(&vec![0xF1, 0x15]).unwrap();
    chip.reg[1] = 10;
    assert_eq!(chip.pc, 512);

    chip.emulateCycle().unwrap();
    assert_eq!(chip.pc, 514);
    assert_eq!(chip.timer_delay, 9);
}

#[test]
fn opFx18() {
    let mut chip = Chip8::new();
    chip.loadHex(&vec![0xF1, 0x18]).unwrap();
    chip.reg[1] = 10;
    assert_eq!(chip.pc, 512);

    chip.emulateCycle().unwrap();
    assert_eq!(chip.pc, 514);
    assert_eq!(chip.timer_sound, 9);
}

#[test]
fn opFx1E() {
    let mut chip = Chip8::new();
    chip.loadHex(&vec![0xF1, 0x1E]).unwrap();
    chip.reg[1] = 10;
    let init_index = chip.index;
    assert_eq!(chip.pc, 512);

    chip.emulateCycle().unwrap();
    assert_eq!(chip.pc, 514);
    assert_eq!(chip.index, init_index + chip.reg[1] as u16);
    assert_eq!(chip.reg[1], 10);
}

#[test]
fn opFx29() {
    let mut chip = Chip8::new();
    chip.loadHex(&vec![0xF1, 0x29]).unwrap();
    chip.reg[1] = 0xA;
    assert_eq!(chip.pc, 512);

    chip.emulateCycle().unwrap();
    assert_eq!(chip.pc, 514);
    assert_eq!(chip.index, chip.reg[1] as u16 * 5);
    assert_eq!(chip.reg[1], 0xA);
}

#[test]
fn opFx55() {
    let mut chip = Chip8::new();
    chip.loadHex(&vec![0xF1, 0x55]).unwrap();
    chip.index = 10;
    chip.reg[0] = 0xAB;
    chip.reg[1] = 0xCD;
    assert_eq!(chip.pc, 512);

    chip.emulateCycle().unwrap();
    assert_eq!(chip.pc, 514);
    assert_eq!(chip.memory[10], 0xAB);
    assert_eq!(chip.memory[11], 0xCD);
}

#[test]
fn opFx65() {
    let mut chip = Chip8::new();
    chip.loadHex(&vec![0xF1, 0x65]).unwrap();
    chip.memory[10] = 0xAB;
    chip.memory[11] = 0xCD;
    chip.index = 10;
    assert_eq!(chip.pc, 512);

    chip.emulateCycle().unwrap();
    assert_eq!(chip.pc, 514);
    assert_eq!(chip.reg[0], 0xAB);
    assert_eq!(chip.reg[1], 0xCD);
}
