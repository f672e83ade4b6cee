use chip8::cpu::decode;
use chip8::cpu::Cpu;
use chip8::cpu::DisplayAction;
use chip8::cpu::StepError;
use chip8::ram::Ram;

#[test]
fn decode_extracts_every_field() {
    let d = decode(0xABCD);
    assert_eq!(d.class, 0xA);
    assert_eq!(d.x, 0xB);
    assert_eq!(d.y, 0xC);
    assert_eq!(d.n, 0xD);
    assert_eq!(d.nn, 0xCD);
    assert_eq!(d.nnn, 0xBCD);
}

#[test]
fn decode_is_deterministic() {
    for w in [0x0000u16, 0x00EE, 0x1234, 0x8A95, 0xE000, 0xFFFF] {
        assert_eq!(decode(w), decode(w));
    }
}

#[test]
fn register_accessors_round_trip() {
    let mut c = Cpu::new();
    for r in 0..16 {
        c.write_reg_vx(r, 0x40 + r);
    }
    for r in 0..16 {
        assert_eq!(c.read_reg_vx(r), 0x40 + r);
    }
}

#[test]
fn cpu_steps_against_its_own_ram() {
    let mut c = Cpu::new();
    let mut ram = Ram::new();
    ram.write_byte(0x200, 0x6A);
    ram.write_byte(0x201, 0x2A);
    assert_eq!(c.exec_instruction(&mut ram), Ok(DisplayAction::Silent));
    assert_eq!(c.read_reg_vx(0xA), 0x2A);
    assert_eq!(c.pc, 0x202);
    // zero word at 0x202 halts
    assert_eq!(
        c.exec_instruction(&mut ram),
        Err(StepError::HaltSignal { pc: 0x202 })
    );
}

#[test]
fn fresh_ram_is_zeroed() {
    let ram = Ram::new();
    assert_eq!(ram.read_byte(0x0000), 0);
    assert_eq!(ram.read_byte(0x0200), 0);
    assert_eq!(ram.read_byte(0xFFFF), 0);
}

#[test]
fn ram_write_then_read() {
    let mut ram = Ram::new();
    ram.write_byte(0x0FFF, 0x99);
    assert_eq!(ram.read_byte(0x0FFF), 0x99);
    assert_eq!(ram.read_byte(0x0FFE), 0x00);
}
