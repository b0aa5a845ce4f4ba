use vstd::prelude::*;

use vstd::utf8::{decode_utf8, valid_utf8};

use crate::text::{decimal_string, decimal_text};
use crate::utils::bits_needed;
use crate::{min_number_of_bits, HardwareSupport};

verus! {

pub const CGB_FLAG_ADDRESS: u16 = 0x143;

pub const CARTRIDGE_TYPE_ADDRESS: u16 = 0x147;

pub const ROM_SIZE_ADDRESS: u16 = 0x148;

pub const ROM_BANK_SIZE: usize = 0x4000;

pub const RAM_SIZE_ADDRESS: u16 = 0x149;

pub const RAM_BANK_SIZE: usize = 0x2000;

pub const BOOT_ROM_START: u16 = 0x0000;

pub const BOOT_ROM_END: u16 = 0x08FF;

/// Size of the CGB boot ROM.
pub const BOOT_ROM_SIZE: usize = 0x900;

pub const CART_ROM_START: u16 = 0x0000;

pub const CART_ROM_END: u16 = 0x7FFF;

pub const CART_RAM_START: u16 = 0xA000;

pub const CART_RAM_END: u16 = 0xBFFF;

/// Offset of the header within the ROM.
pub const HEADER_START: usize = 0x100;

/// Size of the header.
pub const HEADER_SIZE: usize = 0x50;

/// What std's UTF-8 decoder reports for bytes that are not UTF-8.
pub uninterp spec fn utf8_error_text(bytes: Seq<u8>) -> Seq<char>;

/// Decode UTF-8 text with `std::str::from_utf8`; the error is its message.
/// The contract claims that std accepts exactly the byte strings that are
/// valid UTF-8 and decodes them to their scalar values; the error message is
/// only named.
#[verifier::external_body]
fn str_from_utf8(bytes: &[u8]) -> (text: Result<String, String>)
    ensures
        text is Ok <==> valid_utf8(bytes@),
        text matches Ok(s) ==> s@ == decode_utf8(bytes@),
        text matches Err(m) ==> m@ == utf8_error_text(bytes@),
{
    match std::str::from_utf8(bytes) {
        Ok(value) => Ok(value.to_string()),
        Err(e) => Err(e.to_string()),
    }
}

/// Information read from the cartridge header.
pub struct CartridgeHeader {
    pub title: String,
    pub manufacturer_code: String,
    pub hardware_supported: HardwareSupport,
    pub cart_type: String,
    pub rom_size_and_banks: (usize, usize),
    pub ram_size_and_banks: (usize, usize),
}

impl Clone for CartridgeHeader {
    fn clone(&self) -> (copy: Self)
        ensures
            copy == *self,
    {
        CartridgeHeader {
            title: self.title.clone(),
            manufacturer_code: self.manufacturer_code.clone(),
            hardware_supported: self.hardware_supported,
            cart_type: self.cart_type.clone(),
            rom_size_and_banks: (self.rom_size_and_banks.0, self.rom_size_and_banks.1),
            ram_size_and_banks: (self.ram_size_and_banks.0, self.ram_size_and_banks.1),
        }
    }
}

impl CartridgeHeader {
    /// ROM size in bytes
    pub fn rom_size(&self) -> (size: usize)
        ensures
            size == self.rom_size_and_banks.0,
    {
        self.rom_size_and_banks.0
    }

    /// Number of ROM banks
    pub fn rom_banks(&self) -> (banks: usize)
        ensures
            banks == self.rom_size_and_banks.1,
    {
        self.rom_size_and_banks.1
    }

    /// RAM size in bytes. 0 if None
    pub fn ram_size(&self) -> (size: usize)
        ensures
            size == self.ram_size_and_banks.0,
    {
        self.ram_size_and_banks.0
    }

    /// Number of RAM banks
    pub fn ram_banks(&self) -> (banks: usize)
        ensures
            banks == self.ram_size_and_banks.1,
    {
        self.ram_size_and_banks.1
    }
}

/// Why a cartridge header was refused.
#[derive(Debug)]
pub enum CartridgeError {
    Header(String),
    Size { expected: usize, got: usize },
}

impl Clone for CartridgeError {
    fn clone(&self) -> (copy: Self)
        ensures
            copy == *self,
    {
        match self {
            CartridgeError::Header(detail) => CartridgeError::Header(detail.clone()),
            CartridgeError::Size { expected, got } => CartridgeError::Size {
                expected: *expected,
                got: *got,
            },
        }
    }
}

pub open spec fn cartridge_error_text(e: CartridgeError) -> Seq<char> {
    match e {
        CartridgeError::Header(detail) => "Invalid header. Error: '"@ + detail@ + "'"@,
        CartridgeError::Size { expected, got } => "Invalid size (expected '"@ + decimal_text(
            expected as nat,
        ) + "', got '"@ + decimal_text(got as nat) + "'"@,
    }
}

impl CartridgeError {
    /// The error message.
    pub fn message(&self) -> (text: String)
        ensures
            text@ == cartridge_error_text(*self),
    {
        match self {
            CartridgeError::Header(detail) => {
                let mut text = String::from_str("Invalid header. Error: '");
                text.append(detail.as_str());
                text.append("'");
                text
            },
            CartridgeError::Size { expected, got } => {
                let mut text = String::from_str("Invalid size (expected '");
                text.append(decimal_string(*expected).as_str());
                text.append("', got '");
                text.append(decimal_string(*got).as_str());
                text.append("'");
                text
            },
        }
    }
}

/// ROM size in bytes and number of 16KiB banks for a ROM size byte:
/// (32KiB << `value`).
pub open spec fn rom_size_of(value: u8) -> (int, int) {
    (
        0x8000 * vstd::arithmetic::power2::pow2(value as nat) as int,
        2 * vstd::arithmetic::power2::pow2(value as nat) as int,
    )
}

pub open spec fn ram_size_known(value: u8) -> bool {
    value == 0 || value == 2 || value == 3 || value == 4 || value == 5
}

/// RAM size in bytes and number of 8KiB banks for a RAM size byte.
pub open spec fn ram_size_of(value: u8) -> (int, int) {
    if value == 2 {
        (0x2000, 1)
    } else if value == 3 {
        (0x8000, 4)
    } else if value == 4 {
        (0x20000, 16)
    } else if value == 5 {
        (0x10000, 8)
    } else {
        (0, 0)
    }
}

pub open spec fn hardware_of(value: u8) -> HardwareSupport {
    if value == 0x80 {
        HardwareSupport::DmgCgb
    } else if value == 0xC0 {
        HardwareSupport::CgbOnly
    } else {
        HardwareSupport::DmgCompat
    }
}

/// The name of the cartridge type given by the type byte, if it is known.
pub open spec fn cart_type_name(code: u8) -> Option<Seq<char>> {
    if code == 0x00 {
        Some("no_mbc"@)
    } else if code == 0x01 {
        Some("mbc1"@)
    } else if code == 0x02 {
        Some("mbc1 | ram"@)
    } else if code == 0x03 {
        Some("mbc1 | ram | battery"@)
    } else if code == 0x05 {
        Some("mbc2"@)
    } else if code == 0x06 {
        Some("mbc2 | battery"@)
    } else if code == 0x08 {
        Some("no_mbc | ram"@)
    } else if code == 0x09 {
        Some("no_mbc | ram | battery"@)
    } else if code == 0x0B {
        Some("mmm01"@)
    } else if code == 0x0C {
        Some("mmm01 | ram"@)
    } else if code == 0x0D {
        Some("mmm01 | ram | battery"@)
    } else if code == 0x0F {
        Some("mbc3 | timer | battery"@)
    } else if code == 0x10 {
        Some("mbc3 | timer | ram | battery"@)
    } else if code == 0x11 {
        Some("mbc3"@)
    } else if code == 0x12 {
        Some("mbc3 | ram"@)
    } else if code == 0x13 {
        Some("mbc3 | ram | battery"@)
    } else if code == 0x19 {
        Some("mbc5"@)
    } else if code == 0x1A {
        Some("mbc5 | ram"@)
    } else if code == 0x1B {
        Some("mbc5 | ram | battery"@)
    } else if code == 0x1C {
        Some("mbc5 | rumble"@)
    } else if code == 0x1D {
        Some("mbc5 | rumble | ram"@)
    } else if code == 0x1E {
        Some("mbc5 | rumble | ram | battery"@)
    } else if code == 0x20 {
        Some("mbc6"@)
    } else if code == 0x22 {
        Some("mbc7 | sensor | rumble"@)
    } else if code == 0xFC {
        Some("camera"@)
    } else if code == 0xFD {
        Some("tama5"@)
    } else if code == 0xFE {
        Some("huc3"@)
    } else if code == 0xFF {
        Some("huc1 | ram | battery"@)
    } else {
        None
    }
}

fn cart_type_string(code: u8) -> (name: Option<String>)
    ensures
        name is Some <==> cart_type_name(code) is Some,
        name matches Some(n) ==> n@ == cart_type_name(code).unwrap(),
{
    let s = if code == 0x00 {
        "no_mbc"
    } else if code == 0x01 {
        "mbc1"
    } else if code == 0x02 {
        "mbc1 | ram"
    } else if code == 0x03 {
        "mbc1 | ram | battery"
    } else if code == 0x05 {
        "mbc2"
    } else if code == 0x06 {
        "mbc2 | battery"
    } else if code == 0x08 {
        "no_mbc | ram"
    } else if code == 0x09 {
        "no_mbc | ram | battery"
    } else if code == 0x0B {
        "mmm01"
    } else if code == 0x0C {
        "mmm01 | ram"
    } else if code == 0x0D {
        "mmm01 | ram | battery"
    } else if code == 0x0F {
        "mbc3 | timer | battery"
    } else if code == 0x10 {
        "mbc3 | timer | ram | battery"
    } else if code == 0x11 {
        "mbc3"
    } else if code == 0x12 {
        "mbc3 | ram"
    } else if code == 0x13 {
        "mbc3 | ram | battery"
    } else if code == 0x19 {
        "mbc5"
    } else if code == 0x1A {
        "mbc5 | ram"
    } else if code == 0x1B {
        "mbc5 | ram | battery"
    } else if code == 0x1C {
        "mbc5 | rumble"
    } else if code == 0x1D {
        "mbc5 | rumble | ram"
    } else if code == 0x1E {
        "mbc5 | rumble | ram | battery"
    } else if code == 0x20 {
        "mbc6"
    } else if code == 0x22 {
        "mbc7 | sensor | rumble"
    } else if code == 0xFC {
        "camera"
    } else if code == 0xFD {
        "tama5"
    } else if code == 0xFE {
        "huc3"
    } else if code == 0xFF {
        "huc1 | ram | battery"
    } else {
        return None;
    };
    Some(String::from_str(s))
}

/// Whether parsing `header` (the 0x50 bytes at 0x100) gets as far as the
/// ROM and RAM size bytes.
pub open spec fn header_reaches_sizes(header: Seq<u8>) -> bool {
    &&& header.len() == HEADER_SIZE
    &&& valid_utf8(header.subrange(0x34, 0x3F))
    &&& valid_utf8(header.subrange(0x3F, 0x43))
    &&& cart_type_name(header[0x47]) is Some
}

/// The outcome of parsing a header: the error, or the header's fields.
pub open spec fn header_title_ok(header: Seq<u8>) -> bool {
    valid_utf8(header.subrange(0x34, 0x3F))
}

pub open spec fn parsed_header_matches(header: Seq<u8>, h: CartridgeHeader) -> bool {
    &&& h.title@ == decode_utf8(header.subrange(0x34, 0x3F))
    &&& h.manufacturer_code@ == decode_utf8(header.subrange(0x3F, 0x43))
    &&& h.hardware_supported == hardware_of(header[0x43])
    &&& h.cart_type@ == cart_type_name(header[0x47]).unwrap()
    &&& h.rom_size_and_banks.0 == rom_size_of(header[0x48]).0
    &&& h.rom_size_and_banks.1 == rom_size_of(header[0x48]).1
    &&& h.ram_size_and_banks.0 == ram_size_of(header[0x49]).0
    &&& h.ram_size_and_banks.1 == ram_size_of(header[0x49]).1
}

pub open spec fn header_error(header: Seq<u8>, e: CartridgeError) -> bool {
    if header.len() != HEADER_SIZE {
        e == CartridgeError::Size { expected: 0x50, got: header.len() as usize }
    } else if !valid_utf8(header.subrange(0x34, 0x3F)) {
        e matches CartridgeError::Header(d) && d@ == "Error in decoding title: "@ + utf8_error_text(
            header.subrange(0x34, 0x3F),
        )
    } else if !valid_utf8(header.subrange(0x3F, 0x43)) {
        e matches CartridgeError::Header(d) && d@ == utf8_error_text(header.subrange(0x3F, 0x43))
    } else {
        e matches CartridgeError::Header(d) && d@ == "Unexpected byte for cartridge type: '"@
            + decimal_text(header[0x47] as nat) + "'"@
    }
}

/// The message of the error that parsing `header` gives, when it fails.
pub open spec fn header_error_text(header: Seq<u8>) -> Seq<char> {
    if header.len() != HEADER_SIZE {
        cartridge_error_text(CartridgeError::Size { expected: 0x50, got: header.len() as usize })
    } else {
        let detail = if !valid_utf8(header.subrange(0x34, 0x3F)) {
            "Error in decoding title: "@ + utf8_error_text(header.subrange(0x34, 0x3F))
        } else if !valid_utf8(header.subrange(0x3F, 0x43)) {
            utf8_error_text(header.subrange(0x3F, 0x43))
        } else {
            "Unexpected byte for cartridge type: '"@ + decimal_text(header[0x47] as nat) + "'"@
        };
        "Invalid header. Error: '"@ + detail + "'"@
    }
}

/// Why `Cartridge::new` refuses `rom`: its header does not parse, or the
/// cartridge type it names is not supported.
pub open spec fn cartridge_refusal(rom: Seq<u8>) -> Seq<char> {
    let header = rom.subrange(0x100, 0x150);
    if header_reaches_sizes(header) {
        "Unsupported MBC with code: '"@ + decimal_text(rom[0x147] as nat) + "'"@
    } else {
        header_error_text(header)
    }
}

pub struct Cartridge {
    pub mbc: MbcKind,
    pub header: CartridgeHeader,
}

/// The ROM sizes of the size codes: 32KiB shifted left by the code.
proof fn lemma_rom_size_shifts()
    by (bit_vector)
    ensures
        (0x8000usize << 0usize) == 0x8000usize,
        (0x8000usize << 1usize) == 0x10000usize,
        (0x8000usize << 2usize) == 0x20000usize,
        (0x8000usize << 3usize) == 0x40000usize,
        (0x8000usize << 4usize) == 0x80000usize,
        (0x8000usize << 5usize) == 0x100000usize,
        (0x8000usize << 6usize) == 0x200000usize,
        (0x8000usize << 7usize) == 0x400000usize,
        (0x8000usize << 8usize) == 0x800000usize,
{
}

/// The masks of the low bits that sign-extending shifts of 0x80 make.
proof fn lemma_mbc1_masks()
    by (bit_vector)
    ensures
        (((-128i8) >> 0u8) as u8) >> 7u8 == 1,
        (((-128i8) >> 1u8) as u8) >> 6u8 == 3,
        (((-128i8) >> 2u8) as u8) >> 5u8 == 7,
        (((-128i8) >> 3u8) as u8) >> 4u8 == 15,
        (((-128i8) >> 4u8) as u8) >> 3u8 == 31,
        (((-128i8) >> 5u8) as u8) >> 2u8 == 63,
        (((-128i8) >> 6u8) as u8) >> 1u8 == 127,
{
}

impl Cartridge {
    /// Parse the 0x50 bytes of the cartridge header.
    pub fn parse_header(header: &[u8]) -> (parsed: Result<CartridgeHeader, CartridgeError>)
        requires
            header_reaches_sizes(header@) ==> header@[0x48] <= 8 && ram_size_known(header@[0x49]),
        ensures
            parsed is Ok <==> header_reaches_sizes(header@),
            parsed matches Ok(h) ==> parsed_header_matches(header@, h),
            parsed matches Err(e) ==> header_error(header@, e),
    {
        if header.len() != 0x50 {
            return Err(CartridgeError::Size { expected: 0x50, got: header.len() });
        }
        let title = match str_from_utf8(&header[0x034..0x03F]) {
            Ok(value) => value,
            Err(e) => {
                let mut detail = String::from_str("Error in decoding title: ");
                detail.append(e.as_str());
                return Err(CartridgeError::Header(detail));
            },
        };
        let manufacturer_code = match str_from_utf8(&header[0x03F..0x043]) {
            Ok(value) => value,
            Err(e) => return Err(CartridgeError::Header(e)),
        };
        let hardware_supported = Cartridge::hardware_supported(header[(CGB_FLAG_ADDRESS - 0x100) as usize]);
        let type_byte = header[(CARTRIDGE_TYPE_ADDRESS - 0x100) as usize];
        let cart_type = match cart_type_string(type_byte) {
            Some(name) => name,
            None => {
                let mut detail = String::from_str("Unexpected byte for cartridge type: '");
                detail.append(decimal_string(type_byte as usize).as_str());
                detail.append("'");
                return Err(CartridgeError::Header(detail));
            },
        };
        let rom_size_and_banks = Cartridge::rom_size_from_header(
            header[(ROM_SIZE_ADDRESS - 0x100) as usize],
        );
        let ram_size_and_banks = Cartridge::ram_size_from_header(
            header[(RAM_SIZE_ADDRESS - 0x100) as usize],
        );
        Ok(
            CartridgeHeader {
                title,
                manufacturer_code,
                hardware_supported,
                cart_type,
                rom_size_and_banks,
                ram_size_and_banks,
            },
        )
    }

    /// Calculate the ROM size and number of ROM banks of the cartridge from the
    /// byte at 0x148. Return this information as a (size, banks) tuple
    pub fn rom_size_from_header(value: u8) -> (size_and_banks: (usize, usize))
        requires
            // According to Pan Docs no ROMs with the value 0x52, 0x53, 0x54 exist for
            // any game. So we safely ignore those
            value <= 8,
        ensures
            size_and_banks.0 == rom_size_of(value).0,
            size_and_banks.1 == rom_size_of(value).1,
    {
        proof {
            vstd::arithmetic::power2::lemma2_to64();
        }
        // Calculated as (32KiB << `value`)
        let size = (ROM_BANK_SIZE * 2) << (value as usize);
        if value == 0 {
            assert((0x8000usize << 0usize) == 0x8000usize) by {
                lemma_rom_size_shifts();
            }
        } else if value == 1 {
            assert((0x8000usize << 1usize) == 0x10000usize) by {
                lemma_rom_size_shifts();
            }
        } else if value == 2 {
            assert((0x8000usize << 2usize) == 0x20000usize) by {
                lemma_rom_size_shifts();
            }
        } else if value == 3 {
            assert((0x8000usize << 3usize) == 0x40000usize) by {
                lemma_rom_size_shifts();
            }
        } else if value == 4 {
            assert((0x8000usize << 4usize) == 0x80000usize) by {
                lemma_rom_size_shifts();
            }
        } else if value == 5 {
            assert((0x8000usize << 5usize) == 0x100000usize) by {
                lemma_rom_size_shifts();
            }
        } else if value == 6 {
            assert((0x8000usize << 6usize) == 0x200000usize) by {
                lemma_rom_size_shifts();
            }
        } else if value == 7 {
            assert((0x8000usize << 7usize) == 0x400000usize) by {
                lemma_rom_size_shifts();
            }
        } else {
            assert((0x8000usize << 8usize) == 0x800000usize) by {
                lemma_rom_size_shifts();
            }
        }
        let banks = size / ROM_BANK_SIZE;
        (size, banks)
    }

    /// Calculate the RAM size and the number of RAM banks of the cartridge from
    /// the byte at 0x149. Return this information as a (size, banks) tuple
    pub fn ram_size_from_header(value: u8) -> (size_and_banks: (usize, usize))
        requires
            ram_size_known(value),
        ensures
            size_and_banks.0 == ram_size_of(value).0,
            size_and_banks.1 == ram_size_of(value).1,
    {
        if value == 0x00 {
            (0x00, 0x00)  // No RAM
        } else if value == 0x02 {
            (RAM_BANK_SIZE, 1)  // 8KB
        } else if value == 0x03 {
            (RAM_BANK_SIZE * 4, 4)  // 32KB
        } else if value == 0x04 {
            (RAM_BANK_SIZE * 16, 16)  // 128 KB
        } else {
            (RAM_BANK_SIZE * 8, 8)  // 64KB
        }
    }

    /// Get the hardware supported by the ROM based of the `CGB_FLAG_ADDRESS`
    pub fn hardware_supported(value: u8) -> (hardware: HardwareSupport)
        ensures
            hardware == hardware_of(value),
    {
        if value == 0x80 {
            HardwareSupport::DmgCgb
        } else if value == 0xC0 {
            HardwareSupport::CgbOnly
        } else {
            HardwareSupport::DmgCompat
        }
    }
}

/// The contents of an optional RAM.
pub open spec fn ram_view(ram: Option<Vec<u8>>) -> Option<Seq<u8>> {
    match ram {
        Some(r) => Some(r@),
        None => None,
    }
}

/// The contents of an optional borrowed RAM.
pub open spec fn ref_ram_view(ram: Option<&Vec<u8>>) -> Option<Seq<u8>> {
    match ram {
        Some(r) => Some(r@),
        None => None,
    }
}

/// The RAM a controller starts with: the given one if it has the size the
/// header announces, else a fresh one filled with 0xFF (none when the header
/// announces no RAM and none is given).
pub open spec fn initial_ram(ram: Option<Seq<u8>>, ram_size: int) -> Option<Seq<u8>> {
    match ram {
        None => if ram_size > 0 {
            Some(Seq::new(ram_size as nat, |i: int| 0xFFu8))
        } else {
            None
        },
        Some(r) => if r.len() != ram_size {
            Some(Seq::new(ram_size as nat, |i: int| 0xFFu8))
        } else {
            Some(r)
        },
    }
}

fn make_initial_ram(ram: Option<Vec<u8>>, ram_size: usize) -> (result: Option<Vec<u8>>)
    ensures
        ram_view(result) == initial_ram(ram_view(ram), ram_size as int),
{
    match ram {
        None => if ram_size > 0 {
            let r = vec![0xFFu8; ram_size];
            assert(r@ =~= Seq::new(ram_size as nat, |i: int| 0xFFu8));
            Some(r)
        } else {
            None
        },
        Some(r) => if r.len() != ram_size {
            let fresh = vec![0xFFu8; ram_size];
            assert(fresh@ =~= Seq::new(ram_size as nat, |i: int| 0xFFu8));
            Some(fresh)
        } else {
            Some(r)
        },
    }
}

/// The operations every memory bank controller offers.
pub trait Mbc {
    /// Name of the MBC as determined by the cartridge type
    fn name(&self) -> String;

    fn rom(&self) -> &Vec<u8>;

    fn ram(&self) -> Option<&Vec<u8>>;

    fn savable(&self) -> bool;

    fn save_ram(&self) -> Option<&Vec<u8>>;
}

// Memory Banking Controllers (MBCS)
// ROM Only MBC ------------------------------------------------------------------------------------
pub struct NoMbc {
    pub rom: Vec<u8>,
}

impl NoMbc {
    pub fn new(rom: Vec<u8>) -> (mbc: Self)
        ensures
            mbc.rom@ == rom@,
    {
        NoMbc { rom }
    }

    pub open spec fn can_read(&self, address: u16) -> bool {
        address <= 0x7FFF ==> address < self.rom@.len()
    }

    pub open spec fn read_value(&self, address: u16) -> u8 {
        if address <= 0x7FFF {
            self.rom@[address as int]
        } else {
            0xFF
        }
    }

    pub fn read(&self, address: u16) -> (data: u8)
        requires
            self.can_read(address),
        ensures
            data == self.read_value(address),
    {
        if address <= 0x7FFF {
            self.rom[address as usize]
        } else {
            0xFF
        }
    }

    /// Writes go nowhere on a ROM-only cartridge.
    pub fn write(&mut self, _address: u16, _data: u8)
        ensures
            final(self).rom@ == old(self).rom@,
    {
    }
}

impl Mbc for NoMbc {
    fn name(&self) -> (name: String)
        ensures
            name@ == "ROM ONLY"@,
    {
        String::from_str("ROM ONLY")
    }

    fn rom(&self) -> (rom: &Vec<u8>)
        ensures
            rom@ == self.rom@,
    {
        &self.rom
    }

    fn ram(&self) -> (ram: Option<&Vec<u8>>)
        ensures
            ram is None,
    {
        None
    }

    fn savable(&self) -> (savable: bool)
        ensures
            !savable,
    {
        false
    }

    fn save_ram(&self) -> (ram: Option<&Vec<u8>>)
        ensures
            ram is None,
    {
        None
    }
}

// MBC1 --------------------------------------------------------------------------------------------
pub struct Mbc1 {
    pub rom: Vec<u8>,
    pub ram: Option<Vec<u8>>,
    pub rom_bank: u8,
    pub rom_bit_mask: u8,
    pub total_rom_banks: usize,
    pub ram_bank: u8,
    pub total_ram_banks: usize,
    pub ram_size: usize,
    pub ram_enabled: bool,
    pub ram_banking_mode: bool,
    pub savable: bool,
}

/// The bank mapped at 0x0000-0x3FFF in RAM banking mode.
pub open spec fn mbc1_zero_bank(total_rom_banks: usize, rom_bank: u8, ram_bank: u8) -> u8 {
    if total_rom_banks <= 32 {
        0x00
    } else if total_rom_banks == 64 {
        (ram_bank & 0b1) << 4u8
    } else {
        (ram_bank << 5u8) | rom_bank
    }
}

/// The bank mapped at 0x4000-0x7FFF.
pub open spec fn mbc1_high_bank(total_rom_banks: usize, rom_bank: u8, ram_bank: u8) -> u8 {
    if total_rom_banks <= 32 {
        rom_bank
    } else if total_rom_banks == 64 {
        ((ram_bank & 0b1) << 4u8) | rom_bank
    } else {
        (ram_bank << 5u8) | rom_bank
    }
}

impl Mbc1 {
    /// Index into RAM of an address in 0xA000-0xBFFF.
    pub open spec fn ram_offset(&self, address: u16) -> int {
        if self.total_ram_banks > 1 {
            if self.ram_banking_mode {
                0x2000 * self.ram_bank + (address - 0xA000)
            } else {
                // RAM banking not enabled. Use the 0 bank of RAM
                address - 0xA000
            }
        } else {
            // Only one bank of RAM exists either the full 8KB or 2KB (which requires
            // the % RAM_SIZE)
            (address - 0xA000) % (self.ram_size as int)
        }
    }

    /// The offset can be computed: the single-bank case divides by the RAM size.
    pub open spec fn ram_offset_defined(&self) -> bool {
        self.total_ram_banks > 1 || self.ram_size > 0
    }

    /// The ROM index a read of 0x0000-0x7FFF lands on.
    pub open spec fn rom_offset(&self, address: u16) -> int {
        if address <= 0x3FFF {
            if !self.ram_banking_mode {
                address as int
            } else {
                0x4000 * mbc1_zero_bank(self.total_rom_banks, self.rom_bank, self.ram_bank) + address
            }
        } else {
            0x4000 * mbc1_high_bank(self.total_rom_banks, self.rom_bank, self.ram_bank) + (address
                - 0x4000)
        }
    }

    pub open spec fn reads_rom(&self, address: u16) -> bool {
        address <= 0x7FFF
    }

    pub open spec fn reads_ram(&self, address: u16) -> bool {
        0xA000 <= address <= 0xBFFF && self.ram_enabled && self.ram is Some
    }

    pub open spec fn can_read(&self, address: u16) -> bool {
        &&& self.reads_rom(address) ==> self.rom_offset(address) < self.rom@.len()
        &&& self.reads_ram(address) ==> self.ram_offset_defined() && self.ram_offset(address)
            < self.ram.unwrap()@.len()
    }

    pub open spec fn read_value(&self, address: u16) -> u8 {
        if self.reads_rom(address) {
            self.rom@[self.rom_offset(address)]
        } else if self.reads_ram(address) {
            self.ram.unwrap()@[self.ram_offset(address)]
        } else {
            0xFF
        }
    }

    pub open spec fn can_write(&self, address: u16) -> bool {
        (0xA000 <= address <= 0xBFFF && self.ram_enabled) ==> {
            &&& self.ram_offset_defined()
            &&& self.ram matches Some(r) ==> self.ram_offset(address) < r@.len()
        }
    }

    /// The controller after a write, apart from its RAM.
    pub open spec fn registers_written(&self, new: &Self, address: u16, data: u8) -> bool {
        &&& new.rom@ == self.rom@
        &&& new.rom_bit_mask == self.rom_bit_mask
        &&& new.total_rom_banks == self.total_rom_banks
        &&& new.total_ram_banks == self.total_ram_banks
        &&& new.ram_size == self.ram_size
        &&& new.savable == self.savable
        &&& new.ram_enabled == if address <= 0x1FFF {
            data & 0x0F == 0x0A
        } else {
            self.ram_enabled
        }
        &&& new.rom_bank == if 0x2000 <= address <= 0x3FFF {
            (if data & 0x1F == 0 { 0x01u8 } else { data & 0x1F }) & self.rom_bit_mask
        } else {
            self.rom_bank
        }
        &&& new.ram_bank == if 0x4000 <= address <= 0x5FFF { data & 0x03 } else { self.ram_bank }
        &&& new.ram_banking_mode == if 0x6000 <= address <= 0x7FFF {
            data & 0b1 == 0b1
        } else {
            self.ram_banking_mode
        }
    }

    /// The RAM after a write.
    pub open spec fn ram_written(&self, address: u16, data: u8) -> Option<Seq<u8>> {
        if 0xA000 <= address <= 0xBFFF && self.ram_enabled {
            match self.ram {
                Some(r) => Some(r@.update(self.ram_offset(address), data)),
                None => None,
            }
        } else {
            ram_view(self.ram)
        }
    }

    pub fn new(rom: Vec<u8>, ram: Option<Vec<u8>>, savable: bool, header: &CartridgeHeader) -> (mbc: Self)
        requires
            header.rom_size_and_banks.1 == 2 || header.rom_size_and_banks.1 == 4
                || header.rom_size_and_banks.1 == 8 || header.rom_size_and_banks.1 == 16
                || header.rom_size_and_banks.1 == 32 || header.rom_size_and_banks.1 == 64
                || header.rom_size_and_banks.1 == 128,
        ensures
            mbc.rom@ == rom@,
            ram_view(mbc.ram) == initial_ram(ram_view(ram), header.ram_size_and_banks.0 as int),
            mbc.rom_bank == 1,
            mbc.rom_bit_mask == header.rom_size_and_banks.1 - 1,
            mbc.total_rom_banks == header.rom_size_and_banks.1,
            mbc.ram_bank == 0,
            mbc.total_ram_banks == header.ram_size_and_banks.1,
            mbc.ram_size == header.ram_size_and_banks.0,
            !mbc.ram_enabled,
            !mbc.ram_banking_mode,
            mbc.savable == savable,
    {
        let rom_bank = 0x01;
        let ram_bank = 0x00;
        let ram_enabled = false;
        let ram_banking_mode = false;
        let rom_banks = header.rom_banks();
        proof {
            reveal_with_fuel(bits_needed, 9);
            vstd::arithmetic::power2::lemma2_to64();
            assert(bits_needed(2) == 2);
            assert(bits_needed(4) == 3);
            assert(bits_needed(8) == 4);
            assert(bits_needed(16) == 5);
            assert(bits_needed(32) == 6);
            assert(bits_needed(64) == 7);
            assert(bits_needed(128) == 8);
        }
        let rom_bits_required = min_number_of_bits(rom_banks as u8) - 1;
        let rom_bit_mask = Self::low_bit_mask(rom_bits_required);
        let ram_size = header.ram_size();
        let ram = make_initial_ram(ram, ram_size);
        Mbc1 {
            rom,
            ram,
            rom_bank,
            rom_bit_mask,
            total_rom_banks: header.rom_banks(),
            ram_bank,
            ram_enabled,
            ram_banking_mode,
            savable,
            total_ram_banks: header.ram_banks(),
            ram_size: header.ram_size(),
        }
    }

    /// A mask of the lowest `bits` bits, as the arithmetic shift of the sign bit
    /// followed by a logical shift computes it.
    fn low_bit_mask(bits: u8) -> (mask: u8)
        requires
            1 <= bits <= 7,
        ensures
            mask as int == vstd::arithmetic::power2::pow2(bits as nat) - 1,
    {
        proof {
            vstd::arithmetic::power2::lemma2_to64();
        }
        let mask = (((-128i8) >> (bits - 1)) as u8) >> (8 - bits);
        if bits == 1 {
            assert((((-128i8) >> 0u8) as u8) >> 7u8 == 1) by {
                lemma_mbc1_masks();
            }
        } else if bits == 2 {
            assert((((-128i8) >> 1u8) as u8) >> 6u8 == 3) by {
                lemma_mbc1_masks();
            }
        } else if bits == 3 {
            assert((((-128i8) >> 2u8) as u8) >> 5u8 == 7) by {
                lemma_mbc1_masks();
            }
        } else if bits == 4 {
            assert((((-128i8) >> 3u8) as u8) >> 4u8 == 15) by {
                lemma_mbc1_masks();
            }
        } else if bits == 5 {
            assert((((-128i8) >> 4u8) as u8) >> 3u8 == 31) by {
                lemma_mbc1_masks();
            }
        } else if bits == 6 {
            assert((((-128i8) >> 5u8) as u8) >> 2u8 == 63) by {
                lemma_mbc1_masks();
            }
        } else {
            assert((((-128i8) >> 6u8) as u8) >> 1u8 == 127) by {
                lemma_mbc1_masks();
            }
        }
        mask
    }

    fn effective_ram_address(&self, address: u16) -> (offset: usize)
        requires
            0xA000 <= address <= 0xBFFF,
            self.ram_offset_defined(),
            self.ram_bank <= 3,
        ensures
            offset == self.ram_offset(address),
    {
        if self.total_ram_banks > 1 {
            if self.ram_banking_mode {
                0x2000 * self.ram_bank as usize + (address as usize - 0xA000)
            } else {
                // RAM banking not enabled. Use the 0 bank of RAM
                address as usize - 0xA000
            }
        } else {
            // Only one bank of RAM exists either the full 8KB or 2KB (which requires
            // the % RAM_SIZE)
            (address as usize - 0xA000) % self.ram_size
        }
    }

    pub fn read(&self, address: u16) -> (data: u8)
        requires
            self.can_read(address),
            self.ram_bank <= 3,
        ensures
            data == self.read_value(address),
    {
        if address <= 0x3FFF && !self.ram_banking_mode {
            self.rom[address as usize]
        } else if address <= 0x3FFF {
            let zero_bank_number = if self.total_rom_banks <= 32 {
                0x00
            } else if self.total_rom_banks == 64 {
                (self.ram_bank & 0b1) << 4u8
            } else {
                (self.ram_bank << 5u8) | self.rom_bank
            };
            self.rom[0x4000 * zero_bank_number as usize + address as usize]
        } else if address <= 0x7FFF {
            let high_bank_number = if self.total_rom_banks <= 32 {
                self.rom_bank
            } else if self.total_rom_banks == 64 {
                ((self.ram_bank & 0b1) << 4u8) | (self.rom_bank)
            } else {
                (self.ram_bank << 5u8) | (self.rom_bank)
            };
            self.rom[0x4000 * high_bank_number as usize + (address as usize - 0x4000)]
        } else if 0xA000 <= address && address <= 0xBFFF && !self.ram_enabled {
            0xFF
        } else if 0xA000 <= address && address <= 0xBFFF {
            match &self.ram {
                Some(ram) => {
                    let effective_address = self.effective_ram_address(address);
                    ram[effective_address]
                },
                None => 0xFF,
            }
        } else {
            0xFF
        }
    }

    pub fn write(&mut self, address: u16, data: u8)
        requires
            old(self).can_write(address),
            old(self).ram_bank <= 3,
        ensures
            old(self).registers_written(final(self), address, data),
            ram_view(final(self).ram) == old(self).ram_written(address, data),
            final(self).ram_bank <= 3,
    {
        if address <= 0x1FFF {
            self.ram_enabled = data & 0x0F == 0x0A;
        } else if address <= 0x3FFF {
            let mut rom_bank = data & 0x1F;
            // The full 5 bits are used for the 00->01 translation. This can allow
            // bank 0 to be mapped to 0x4000..=0x7FFF if, for example, the ROM needs only 4 bits but the value
            // 0b10000 is being written here. The non-zero value will prevent the 01 translation
            // however the actual ROM bits will be the lower 4-bits
            if rom_bank == 0x00 {
                rom_bank = 0x01;
            }
            // However only the actual number of required bits are used for the ROM bank
            // selection
            self.rom_bank = rom_bank & self.rom_bit_mask;
        } else if address <= 0x5FFF {
            assert(data & 0x03 <= 3) by {
                crate::bits::lemma_u8_bits(data);
            }
            self.ram_bank = data & 0x03;
        } else if address <= 0x7FFF {
            self.ram_banking_mode = (data & 0b1) == 0b1;
        } else if 0xA000 <= address && address <= 0xBFFF && self.ram_enabled {
            let effective_address = self.effective_ram_address(address);
            match &mut self.ram {
                Some(ram) => {
                    ram.set(effective_address, data);
                },
                None => {},
            }
        }
    }
}

impl Mbc for Mbc1 {
    fn name(&self) -> (name: String)
        ensures
            name@ == "MBC1"@,
    {
        String::from_str("MBC1")
    }

    fn rom(&self) -> (rom: &Vec<u8>)
        ensures
            rom@ == self.rom@,
    {
        &self.rom
    }

    fn ram(&self) -> (ram: Option<&Vec<u8>>)
        ensures
            ref_ram_view(ram) == ram_view(self.ram),
    {
        self.ram.as_ref()
    }

    fn savable(&self) -> (savable: bool)
        ensures
            savable == self.savable,
    {
        self.savable
    }

    fn save_ram(&self) -> (ram: Option<&Vec<u8>>)
        ensures
            ref_ram_view(ram) == ram_view(self.ram),
    {
        self.ram.as_ref()
    }
}

// MBC5 --------------------------------------------------------------------------------------------
pub struct Mbc5 {
    pub rom: Vec<u8>,
    pub ram: Option<Vec<u8>>,
    pub rom_bank: u16,
    pub total_rom_banks: usize,
    pub ram_bank: u8,
    pub ram_enabled: bool,
    pub savable: bool,
    pub has_rumble: bool,
    pub rumble_active: bool,
}

impl Mbc5 {
    pub open spec fn rom_offset(&self, address: u16) -> int {
        if address <= 0x3FFF {
            address as int
        } else {
            0x4000 * (self.rom_bank as int % self.total_rom_banks as int) + (address - 0x4000)
        }
    }

    pub open spec fn ram_offset(&self, address: u16) -> int {
        0x2000 * self.ram_bank + (address - 0xA000)
    }

    pub open spec fn reads_ram(&self, address: u16) -> bool {
        0xA000 <= address <= 0xBFFF && self.ram_enabled && self.ram is Some
    }

    pub open spec fn can_read(&self, address: u16) -> bool {
        &&& address <= 0x7FFF ==> self.total_rom_banks > 0 && self.rom_offset(address)
            < self.rom@.len()
        &&& self.reads_ram(address) ==> self.ram_offset(address) < self.ram.unwrap()@.len()
    }

    pub open spec fn read_value(&self, address: u16) -> u8 {
        if address <= 0x7FFF {
            self.rom@[self.rom_offset(address)]
        } else if self.reads_ram(address) {
            self.ram.unwrap()@[self.ram_offset(address)]
        } else {
            0xFF
        }
    }

    pub open spec fn can_write(&self, address: u16) -> bool {
        (0xA000 <= address <= 0xBFFF && self.ram_enabled) ==> (self.ram matches Some(r)
            ==> self.ram_offset(address) < r@.len())
    }

    /// The controller after a write, apart from its RAM.
    pub open spec fn registers_written(&self, new: &Self, address: u16, data: u8) -> bool {
        &&& new.rom@ == self.rom@
        &&& new.total_rom_banks == self.total_rom_banks
        &&& new.savable == self.savable
        &&& new.has_rumble == self.has_rumble
        // Unlike MBC1 all bits of the written value matter for MBC5
        &&& new.ram_enabled == if address <= 0x1FFF {
            data == 0x0A
        } else {
            self.ram_enabled
        }
        &&& new.rom_bank == if 0x2000 <= address <= 0x2FFF {
            (self.rom_bank & 0x100) | (data as u16)
        } else if 0x3000 <= address <= 0x3FFF {
            (((data as u16) & 0b1) << 8u16) | (self.rom_bank & 0xFF)
        } else {
            self.rom_bank
        }
        &&& new.ram_bank == if 0x4000 <= address <= 0x5FFF { data & 0b1111 } else { self.ram_bank }
        &&& new.rumble_active == if 0x4000 <= address <= 0x5FFF {
            data & 0b1000 != 0
        } else {
            self.rumble_active
        }
    }

    pub open spec fn ram_written(&self, address: u16, data: u8) -> Option<Seq<u8>> {
        if 0xA000 <= address <= 0xBFFF && self.ram_enabled {
            match self.ram {
                Some(r) => Some(r@.update(self.ram_offset(address), data)),
                None => None,
            }
        } else {
            ram_view(self.ram)
        }
    }

    pub fn new(
        rom: Vec<u8>,
        ram: Option<Vec<u8>>,
        savable: bool,
        has_rumble: bool,
        header: &CartridgeHeader,
    ) -> (mbc: Self)
        ensures
            mbc.rom@ == rom@,
            ram_view(mbc.ram) == initial_ram(ram_view(ram), header.ram_size_and_banks.0 as int),
            mbc.rom_bank == 1,
            mbc.total_rom_banks == header.rom_size_and_banks.1,
            mbc.ram_bank == 0,
            !mbc.ram_enabled,
            mbc.savable == savable,
            mbc.has_rumble == has_rumble,
            !mbc.rumble_active,
    {
        let ram_size = header.ram_size();
        let ram = make_initial_ram(ram, ram_size);
        Mbc5 {
            rom,
            ram,
            rom_bank: 0x01,
            ram_bank: 0x00,
            ram_enabled: false,
            savable,
            has_rumble,
            rumble_active: false,
            total_rom_banks: header.rom_banks(),
        }
    }

    pub fn read(&self, address: u16) -> (data: u8)
        requires
            self.can_read(address),
        ensures
            data == self.read_value(address),
    {
        if address <= 0x3FFF {
            self.rom[address as usize]
        } else if address <= 0x7FFF {
            let b = self.rom_bank as usize;
            let t = self.total_rom_banks;
            assert(b % t <= b) by (nonlinear_arith)
                requires
                    t > 0,
            ;
            self.rom[0x4000 * (self.rom_bank as usize % self.total_rom_banks) + (address as usize
                - 0x4000)]
        } else if 0xA000 <= address && address <= 0xBFFF && !self.ram_enabled {
            0xFF
        } else if 0xA000 <= address && address <= 0xBFFF {
            match &self.ram {
                Some(ram) => {
                    let effective_address = 0x2000 * self.ram_bank as usize + (address as usize
                        - 0xA000);
                    ram[effective_address]
                },
                None => 0xFF,
            }
        } else {
            0xFF
        }
    }

    pub fn write(&mut self, address: u16, data: u8)
        requires
            old(self).can_write(address),
        ensures
            old(self).registers_written(final(self), address, data),
            ram_view(final(self).ram) == old(self).ram_written(address, data),
    {
        if address <= 0x1FFF {
            self.ram_enabled = data == 0x0A;
        } else if address <= 0x2FFF {
            self.rom_bank = (self.rom_bank & 0x100) | data as u16;
        } else if address <= 0x3FFF {
            self.rom_bank = ((data as u16 & 0b1) << 8u16) | (self.rom_bank & 0xFF);
        } else if address <= 0x5FFF {
            // The lower 4 bits of the written value are the RAM bank number
            self.ram_bank = data & 0b1111;
            // The bit 3 enables and disables rumble
            // The bit is only recorded: no rumble motor is driven.
            self.rumble_active = data & 0b1000 != 0;
        } else if 0xA000 <= address && address <= 0xBFFF && self.ram_enabled {
            let effective_address = 0x2000 * self.ram_bank as usize + (address as usize - 0xA000);
            match &mut self.ram {
                Some(ram) => {
                    ram.set(effective_address, data);
                },
                None => {},
            }
        }
    }
}

impl Mbc for Mbc5 {
    fn name(&self) -> (name: String)
        ensures
            name@ == "MBC5"@,
    {
        String::from_str("MBC5")
    }

    fn rom(&self) -> (rom: &Vec<u8>)
        ensures
            rom@ == self.rom@,
    {
        &self.rom
    }

    fn ram(&self) -> (ram: Option<&Vec<u8>>)
        ensures
            ref_ram_view(ram) == ram_view(self.ram),
    {
        self.ram.as_ref()
    }

    fn savable(&self) -> (savable: bool)
        ensures
            savable == self.savable,
    {
        self.savable
    }

    fn save_ram(&self) -> (ram: Option<&Vec<u8>>)
        ensures
            ref_ram_view(ram) == ram_view(self.ram),
    {
        self.ram.as_ref()
    }
}

/// The banking controllers this emulator supports.
pub enum MbcKind {
    NoMbc(NoMbc),
    Mbc1(Mbc1),
    Mbc5(Mbc5),
}

/// The type byte selects one of the supported controllers.
pub open spec fn mbc_supported(code: u8) -> bool {
    code == 0x00 || (0x01 <= code <= 0x03) || (0x19 <= code <= 0x1E)
}

/// What `Cartridge::new` requires of a ROM: it holds a header, parsing the
/// header does not stop at its size bytes, and MBC1 cartridges have at most
/// 128 banks.
pub open spec fn rom_accepted(rom: Seq<u8>) -> bool {
    let header = rom.subrange(0x100, 0x150);
    &&& rom.len() >= 0x150
    &&& header_reaches_sizes(header) ==> header[0x48] <= 8 && ram_size_known(header[0x49])
    &&& header_reaches_sizes(header) && 0x01 <= rom[0x147] <= 0x03 ==> header[0x48] <= 6
}

impl Cartridge {
    pub open spec fn can_read(&self, address: u16) -> bool {
        match self.mbc {
            MbcKind::NoMbc(m) => m.can_read(address),
            MbcKind::Mbc1(m) => m.can_read(address) && m.ram_bank <= 3,
            MbcKind::Mbc5(m) => m.can_read(address),
        }
    }

    pub open spec fn read_value(&self, address: u16) -> u8 {
        match self.mbc {
            MbcKind::NoMbc(m) => m.read_value(address),
            MbcKind::Mbc1(m) => m.read_value(address),
            MbcKind::Mbc5(m) => m.read_value(address),
        }
    }

    pub open spec fn can_write(&self, address: u16) -> bool {
        match self.mbc {
            MbcKind::NoMbc(m) => true,
            MbcKind::Mbc1(m) => m.can_write(address) && m.ram_bank <= 3,
            MbcKind::Mbc5(m) => m.can_write(address),
        }
    }

    /// The controller after a write of `data` to `address`.
    pub open spec fn written(&self, new: &Self, address: u16, data: u8) -> bool {
        &&& new.header == self.header
        &&& match (self.mbc, new.mbc) {
            (MbcKind::NoMbc(m), MbcKind::NoMbc(n)) => n.rom@ == m.rom@,
            (MbcKind::Mbc1(m), MbcKind::Mbc1(n)) => m.registers_written(&n, address, data)
                && ram_view(n.ram) == m.ram_written(address, data) && n.ram_bank <= 3,
            (MbcKind::Mbc5(m), MbcKind::Mbc5(n)) => m.registers_written(&n, address, data)
                && ram_view(n.ram) == m.ram_written(address, data),
            _ => false,
        }
    }

    /// Check the header, then set up the controller the cartridge type asks for.
    pub fn new(rom: Vec<u8>, ram: Option<Vec<u8>>) -> (cart: Result<Self, String>)
        requires
            rom_accepted(rom@),
        ensures
            ({
                let header = rom@.subrange(0x100, 0x150);
                match cart {
                    Ok(c) => {
                        &&& header_reaches_sizes(header)
                        &&& mbc_supported(rom@[0x147])
                        &&& parsed_header_matches(header, c.header)
                        &&& match c.mbc {
                            MbcKind::NoMbc(m) => rom@[0x147] == 0x00 && m.rom@ == rom@,
                            MbcKind::Mbc1(m) => 0x01 <= rom@[0x147] <= 0x03 && m.rom@ == rom@
                                && m.savable == (rom@[0x147] == 0x03) && m.rom_bank == 1
                                && m.ram_bank == 0 && !m.ram_enabled && !m.ram_banking_mode
                                && m.total_rom_banks == c.header.rom_size_and_banks.1
                                && m.rom_bit_mask == c.header.rom_size_and_banks.1 - 1
                                && m.total_ram_banks == c.header.ram_size_and_banks.1
                                && m.ram_size == c.header.ram_size_and_banks.0 && ram_view(m.ram)
                                == initial_ram(ram_view(ram), c.header.ram_size_and_banks.0 as int),
                            MbcKind::Mbc5(m) => 0x19 <= rom@[0x147] <= 0x1E && m.rom@ == rom@
                                && m.savable == (rom@[0x147] == 0x1B || rom@[0x147] == 0x1E)
                                && m.has_rumble == (rom@[0x147] == 0x1C || rom@[0x147] == 0x1D
                                || rom@[0x147] == 0x1E) && m.rom_bank == 1 && m.ram_bank == 0
                                && !m.ram_enabled && !m.rumble_active && m.total_rom_banks
                                == c.header.rom_size_and_banks.1 && ram_view(m.ram) == initial_ram(
                                ram_view(ram),
                                c.header.ram_size_and_banks.0 as int,
                            ),
                        }
                    },
                    Err(message) => message@ == cartridge_refusal(rom@),
                }
            }),
            cart is Ok <==> header_reaches_sizes(rom@.subrange(0x100, 0x150)) && mbc_supported(
                rom@[0x147],
            ),
    {
        let header = match Cartridge::parse_header(&rom.as_slice()[0x100..0x150]) {
            Ok(h) => h,
            Err(e) => return Err(e.message()),
        };
        let code = rom[CARTRIDGE_TYPE_ADDRESS as usize];
        proof {
            vstd::arithmetic::power2::lemma2_to64();
        }
        let mbc = if code == 0x00 {
            MbcKind::NoMbc(NoMbc::new(rom))
        } else if 0x01 <= code && code <= 0x03 {
            MbcKind::Mbc1(Mbc1::new(rom, ram, code == 0x03, &header))
        } else if 0x19 <= code && code <= 0x1E {
            MbcKind::Mbc5(
                Mbc5::new(
                    rom,
                    ram,
                    code == 0x1B || code == 0x1E,
                    code == 0x1C || code == 0x1D || code == 0x1E,
                    &header,
                ),
            )
        } else {
            let mut message = String::from_str("Unsupported MBC with code: '");
            message.append(decimal_string(code as usize).as_str());
            message.append("'");
            return Err(message);
        };
        Ok(Self { mbc, header })
    }

    pub fn read(&self, address: u16) -> (data: u8)
        requires
            self.can_read(address),
        ensures
            data == self.read_value(address),
    {
        match &self.mbc {
            MbcKind::NoMbc(m) => m.read(address),
            MbcKind::Mbc1(m) => m.read(address),
            MbcKind::Mbc5(m) => m.read(address),
        }
    }

    pub fn write(&mut self, address: u16, data: u8)
        requires
            old(self).can_write(address),
        ensures
            old(self).written(final(self), address, data),
    {
        match &mut self.mbc {
            MbcKind::NoMbc(m) => m.write(address, data),
            MbcKind::Mbc1(m) => m.write(address, data),
            MbcKind::Mbc5(m) => m.write(address, data),
        }
    }

    /// Whether `Cartridge::new` can take `rom` without failing on the header's
    /// size bytes: the ROM holds a header, and a header that parses has a
    /// known ROM size (and at most 128 banks for MBC1) and a known RAM size.
    pub fn accepts_rom(rom: &Vec<u8>) -> (ok: bool)
        ensures
            ok == rom_accepted(rom@),
    {
        if rom.len() < 0x150 {
            return false;
        }
        let ghost header = rom@.subrange(0x100, 0x150);
        let title_ok = str_from_utf8(&rom.as_slice()[0x134..0x13F]).is_ok();
        let code_ok = str_from_utf8(&rom.as_slice()[0x13F..0x143]).is_ok();
        let type_ok = cart_type_string(rom[0x147]).is_some();
        assert(header.subrange(0x34, 0x3F) =~= rom@.subrange(0x134, 0x13F));
        assert(header.subrange(0x3F, 0x43) =~= rom@.subrange(0x13F, 0x143));
        let reaches = title_ok && code_ok && type_ok;
        let rom_size = rom[0x148];
        let ram_size = rom[0x149];
        let code = rom[0x147];
        let sizes_ok = rom_size <= 8 && (ram_size == 0 || ram_size == 2 || ram_size == 3
            || ram_size == 4 || ram_size == 5);
        let mbc1_ok = !(0x01 <= code && code <= 0x03) || rom_size <= 6;
        !reaches || (sizes_ok && mbc1_ok)
    }

    /// Whether the cartridge has a read check that holds for `address`.
    pub fn can_read_at(&self, address: u16) -> (ok: bool)
        ensures
            ok == self.can_read(address),
    {
        match &self.mbc {
            MbcKind::NoMbc(m) => address > 0x7FFF || (address as usize) < m.rom.len(),
            MbcKind::Mbc1(m) => {
                if m.ram_bank > 3 {
                    return false;
                }
                let rom_ok = if address > 0x7FFF {
                    true
                } else if address <= 0x3FFF && !m.ram_banking_mode {
                    (address as usize) < m.rom.len()
                } else if address <= 0x3FFF {
                    let zero_bank_number = if m.total_rom_banks <= 32 {
                        0x00
                    } else if m.total_rom_banks == 64 {
                        (m.ram_bank & 0b1) << 4u8
                    } else {
                        (m.ram_bank << 5u8) | m.rom_bank
                    };
                    0x4000 * (zero_bank_number as usize) + (address as usize) < m.rom.len()
                } else {
                    let high_bank_number = if m.total_rom_banks <= 32 {
                        m.rom_bank
                    } else if m.total_rom_banks == 64 {
                        ((m.ram_bank & 0b1) << 4u8) | (m.rom_bank)
                    } else {
                        (m.ram_bank << 5u8) | (m.rom_bank)
                    };
                    0x4000 * (high_bank_number as usize) + (address as usize - 0x4000) < m.rom.len()
                };
                let ram_ok = if 0xA000 <= address && address <= 0xBFFF && m.ram_enabled {
                    match &m.ram {
                        Some(r) => if m.total_ram_banks > 1 || m.ram_size > 0 {
                            m.effective_ram_address(address) < r.len()
                        } else {
                            false
                        },
                        None => true,
                    }
                } else {
                    true
                };
                rom_ok && ram_ok
            },
            MbcKind::Mbc5(m) => {
                let rom_ok = if address > 0x7FFF {
                    true
                } else if address <= 0x3FFF {
                    m.total_rom_banks > 0 && (address as usize) < m.rom.len()
                } else if m.total_rom_banks == 0 {
                    false
                } else {
                    let b = m.rom_bank as usize;
                    let t = m.total_rom_banks;
                    assert(b % t <= b) by (nonlinear_arith)
                        requires
                            t > 0,
                    ;
                    0x4000 * (m.rom_bank as usize % m.total_rom_banks) + (address as usize
                        - 0x4000) < m.rom.len()
                };
                let ram_ok = if 0xA000 <= address && address <= 0xBFFF && m.ram_enabled {
                    match &m.ram {
                        Some(r) => 0x2000 * m.ram_bank as usize + (address as usize - 0xA000)
                            < r.len(),
                        None => true,
                    }
                } else {
                    true
                };
                rom_ok && ram_ok
            },
        }
    }

    /// Whether the cartridge has a write check that holds for `address`.
    pub fn can_write_at(&self, address: u16) -> (ok: bool)
        ensures
            ok == self.can_write(address),
    {
        match &self.mbc {
            MbcKind::NoMbc(m) => true,
            MbcKind::Mbc1(m) => {
                if m.ram_bank > 3 {
                    return false;
                }
                if 0xA000 <= address && address <= 0xBFFF && m.ram_enabled {
                    if m.total_ram_banks > 1 || m.ram_size > 0 {
                        match &m.ram {
                            Some(r) => m.effective_ram_address(address) < r.len(),
                            None => true,
                        }
                    } else {
                        false
                    }
                } else {
                    true
                }
            },
            MbcKind::Mbc5(m) => {
                if 0xA000 <= address && address <= 0xBFFF && m.ram_enabled {
                    match &m.ram {
                        Some(r) => 0x2000 * m.ram_bank as usize + (address as usize - 0xA000)
                            < r.len(),
                        None => true,
                    }
                } else {
                    true
                }
            },
        }
    }

    pub fn name(&self) -> (name: String)
        ensures
            name@ == match self.mbc {
                MbcKind::NoMbc(_) => "ROM ONLY"@,
                MbcKind::Mbc1(_) => "MBC1"@,
                MbcKind::Mbc5(_) => "MBC5"@,
            },
    {
        match &self.mbc {
            MbcKind::NoMbc(m) => m.name(),
            MbcKind::Mbc1(m) => m.name(),
            MbcKind::Mbc5(m) => m.name(),
        }
    }

    pub fn savable(&self) -> (savable: bool)
        ensures
            savable == match self.mbc {
                MbcKind::NoMbc(_) => false,
                MbcKind::Mbc1(m) => m.savable,
                MbcKind::Mbc5(m) => m.savable,
            },
    {
        match &self.mbc {
            MbcKind::NoMbc(m) => m.savable(),
            MbcKind::Mbc1(m) => m.savable(),
            MbcKind::Mbc5(m) => m.savable(),
        }
    }

    /// The RAM to write to a save file, if the controller has RAM.
    pub fn save_ram(&self) -> (ram: Option<&Vec<u8>>)
        ensures
            ref_ram_view(ram) == match self.mbc {
                MbcKind::NoMbc(_) => None,
                MbcKind::Mbc1(m) => ram_view(m.ram),
                MbcKind::Mbc5(m) => ram_view(m.ram),
            },
    {
        match &self.mbc {
            MbcKind::NoMbc(m) => m.save_ram(),
            MbcKind::Mbc1(m) => m.save_ram(),
            MbcKind::Mbc5(m) => m.save_ram(),
        }
    }
}

impl Cartridge {
    /// Whether `address` is in the cartridge RAM and the RAM is there and
    /// enabled.
    pub open spec fn ram_enabled_at(&self, address: u16) -> bool {
        match self.mbc {
            MbcKind::NoMbc(_) => false,
            MbcKind::Mbc1(m) => m.reads_ram(address) && m.ram_offset_defined(),
            MbcKind::Mbc5(m) => m.reads_ram(address),
        }
    }
}

/// Enabled cartridge RAM gives back what was written to it.
pub proof fn lemma_cart_ram_write_then_read(c: Cartridge, new: Cartridge, address: u16, data: u8)
    requires
        c.ram_enabled_at(address),
        c.can_write(address),
        c.written(&new, address, data),
    ensures
        new.read_value(address) == data,
        new.ram_enabled_at(address),
{
}

/// MBC5's ROM bank number has nine bits: a write to 0x2000-0x2FFF sets its
/// low eight bits to the written value, whatever they were, and keeps bit
/// 8; a write to 0x3000-0x3FFF sets bit 8 to bit 0 of the value and keeps
/// the low eight bits. The switchable window then reads that bank.
pub proof fn lemma_mbc5_rom_bank_write(m: Mbc5, n: Mbc5, address: u16, data: u8)
    requires
        m.registers_written(&n, address, data),
        0x2000 <= address <= 0x3FFF,
    ensures
        0x2000 <= address <= 0x2FFF ==> n.rom_bank % 256 == data && n.rom_bank / 256 == (m.rom_bank
            / 256) % 2,
        0x3000 <= address <= 0x3FFF ==> n.rom_bank % 256 == m.rom_bank % 256 && n.rom_bank / 256
            == data % 2,
        forall|offset: int|
            0 <= offset < 0x4000 ==> #[trigger] n.rom_offset((0x4000 + offset) as u16) == 0x4000 * (
            n.rom_bank as int % n.total_rom_banks as int) + offset,
{
    let rb = m.rom_bank;
    if address <= 0x2FFF {
        let nb = (rb & 0x100) | (data as u16);
        assert(nb % 256 == data as u16 && nb / 256 == (rb / 256) % 2) by (bit_vector)
            requires
                nb == (rb & 0x100) | (data as u16),
        ;
    } else {
        let nb = (((data as u16) & 0b1) << 8u16) | (rb & 0xFF);
        assert(nb % 256 == rb % 256 && nb / 256 == (data as u16) % 2) by (bit_vector)
            requires
                nb == (((data as u16) & 0b1) << 8u16) | (rb & 0xFF),
        ;
    }
}

/// Writing 0x0A to 0x0000-0x1FFF enables the RAM; any other value there
/// disables it (MBC1 looks at the lower four bits only).
pub proof fn lemma_cart_ram_enable(c: Cartridge, new: Cartridge, address: u16, data: u8)
    requires
        address <= 0x1FFF,
        c.written(&new, address, data),
    ensures
        new.mbc matches MbcKind::Mbc1(m) ==> m.ram_enabled == (data % 16 == 0x0A),
        new.mbc matches MbcKind::Mbc5(m) ==> m.ram_enabled == (data == 0x0A),
{
    assert(data & 0x0F == data % 16) by {
        crate::bits::lemma_u8_bits(data);
    }
}

} // verus!
