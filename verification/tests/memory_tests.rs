use chip8::memory::RAM;

#[test]
fn ram_new_holds_font_and_zeroes() {
    let ram = RAM::new();
    assert_eq!(ram.memory.len(), 4096);
    // glyph "0" starts with 0xF0, glyph "1" with 0x20
    assert_eq!(ram.memory[0], 0xF0);
    assert_eq!(ram.memory[4], 0xF0);
    assert_eq!(ram.memory[5], 0x20);
    // last byte of glyph "F"
    assert_eq!(ram.memory[79], 0x80);
    assert_eq!(ram.memory[80], 0);
    assert_eq!(ram.memory[0x200], 0);
    assert_eq!(ram.memory[4095], 0);
}

#[test]
fn load_rom_copies_image_at_0x200() {
    let mut ram = RAM::new();
    let rom = vec![0x63, 0x42, 0xA1];
    assert!(ram.load_rom(&rom).is_ok());
    assert_eq!(ram.memory[0x200], 0x63);
    assert_eq!(ram.memory[0x201], 0x42);
    assert_eq!(ram.memory[0x202], 0xA1);
    assert_eq!(ram.memory[0x203], 0);
    // the font below the load offset is untouched
    assert_eq!(ram.memory[0], 0xF0);
}

#[test]
fn load_rom_rejects_an_image_that_overflows() {
    let mut ram = RAM::new();
    let too_big = vec![0xAB; 3585];
    assert!(ram.load_rom(&too_big).is_err());
    // a rejected load leaves memory untouched
    assert_eq!(ram.memory[0x200], 0);
    let just_fits = vec![0xCD; 3584];
    assert!(ram.load_rom(&just_fits).is_ok());
    assert_eq!(ram.memory[4095], 0xCD);
}
