use gibi::interrupts::{InterruptHandler, InterruptType};
use gibi::joypad::{Joypad, JoypadKeys};
use gibi::palettes::{GameboyColorShade, Palette};
use gibi::textures::RGBA;
use gibi::timer::tima_bit_position;

#[test]
fn interrupt_request_then_reset() {
    let mut handler = InterruptHandler { interrupt_enable: 0, interrupt_flag: 0 };
    handler.request_interrupt(InterruptType::Timer);
    handler.request_interrupt(InterruptType::Vblank);
    assert_eq!(handler.read(0xFF0F), 0x05);
    handler.reset_interrupt_request(InterruptType::Timer);
    assert_eq!(handler.read(0xFF0F), 0x01);
    handler.write(0xFFFF, 0x12);
    assert!(handler.is_interrupt_enabled(InterruptType::LcdStat));
    handler.disable_interrupt(InterruptType::LcdStat);
    assert!(!handler.is_interrupt_enabled(InterruptType::LcdStat));
    assert_eq!(handler.read(0xFFFF), 0x10);
}

#[test]
fn interrupt_vectors_by_priority() {
    assert_eq!(InterruptType::from_index(0).vector(), 0x40);
    assert_eq!(InterruptType::from_index(1).vector(), 0x48);
    assert_eq!(InterruptType::from_index(2).vector(), 0x50);
    assert_eq!(InterruptType::from_index(3).vector(), 0x58);
    assert_eq!(InterruptType::from_index(4).vector(), 0x60);
}

#[test]
fn joypad_polls_the_selected_group() {
    let mut joypad = Joypad::new();
    let mut interrupts = InterruptHandler { interrupt_enable: 0, interrupt_flag: 0 };
    // Select the direction keys
    joypad.write(0xFF00, 0x20, &mut interrupts);
    assert_eq!(joypad.read(0xFF00), 0xEF);
    // The key's code is the mask: Down is 3 and clears bits 0 and 1
    joypad.keydown(JoypadKeys::Down);
    assert_eq!(joypad.keys, 0xFC);
    joypad.update(&mut interrupts);
    assert_eq!(joypad.read(0xFF00), 0xEC);
    assert_eq!(interrupts.interrupt_flag, 0x10);
    joypad.keyup(JoypadKeys::Down);
    assert_eq!(joypad.keys, 0xFF);
}

#[test]
fn timer_clock_select_bits() {
    assert_eq!(tima_bit_position(0b100), 0x200);
    assert_eq!(tima_bit_position(0b101), 0x08);
    assert_eq!(tima_bit_position(0b110), 0x20);
    assert_eq!(tima_bit_position(0b111), 0x80);
}

#[test]
fn greyscale_palette_maps_shades() {
    let palette = Palette::new_greyscale(0b11_10_01_00);
    assert_eq!(palette.color0(), RGBA::new(0xE0, 0xF8, 0xD0, 0xFF));
    assert_eq!(palette.color3(), RGBA::new(0x08, 0x18, 0x20, 0xFF));
    assert!(matches!(GameboyColorShade::new(2), GameboyColorShade::DarkGray));
}

#[test]
fn color_palette_expands_five_bit_channels() {
    // Color 0 is white (0x7FFF), color 1 is pure red (0x001F)
    let palette = Palette::new_color(&[0xFF, 0x7F, 0x1F, 0x00, 0x00, 0x00, 0x00, 0x00]);
    assert_eq!(palette.color0(), RGBA::new(0xFF, 0xFF, 0xFF, 0xFF));
    assert_eq!(palette.color1(), RGBA::new(0xFF, 0x00, 0x00, 0xFF));
    assert_eq!(palette.actual_color_from_index(1), palette.color1());
}

#[test]
fn rgba_packs_channels() {
    let color = RGBA::new(0x11, 0x22, 0x33, 0x44);
    assert_eq!((color.r(), color.g(), color.b()), (0x11, 0x22, 0x33));
    assert_eq!(color.full(), 0xFF332211);
}
