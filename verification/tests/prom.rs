use iris_devices::mips::decode;
use iris_devices::prom::{Prom, PROM_BASE, PROM_SIZE};
use iris_devices::traits::{BusDevice, BusStatus, Device};

#[test]
fn test_prom_behavior() {
    // Mock data: F0 0B F0 00 (Big Endian u32: 0xF00BF000)
    let data = vec![0xF0, 0x0B, 0xF0, 0x00];
    let prom = Prom::from_bytes(&data);
    let port = prom.get_port();

    // 1. Check if [0] is F0 0B F0 00
    match port.read32(PROM_BASE) {
        BusStatus::Data(val) => assert_eq!(val, 0xF00BF000, "First word mismatch"),
        _ => panic!("Expected BusStatus::Data"),
    }

    // 2. Check reads outside range return 0xFFFFFFFF
    // Inside mapped range but outside data length
    match port.read32(PROM_BASE + 4) {
        BusStatus::Data(val) => assert_eq!(val, 0xFFFFFFFF, "Read past data end mismatch"),
        _ => panic!("Expected BusStatus::Data"),
    }
    // Outside mapped range
    match port.read32(PROM_BASE - 4) {
        BusStatus::Data(val) => assert_eq!(val, 0xFFFFFFFF, "Read before base mismatch"),
        _ => panic!("Expected BusStatus::Data"),
    }

    // 3. Check writes do nothing
    assert_eq!(port.write32(PROM_BASE, 0xDEADBEEF), BusStatus::Ready);
    // Verify data is unchanged
    match port.read32(PROM_BASE) {
        BusStatus::Data(val) => assert_eq!(val, 0xF00BF000, "Write modified ROM data"),
        _ => panic!("Expected BusStatus::Data"),
    }
}

/// A few words of a typical reset vector: a jump, its delay slot, and code.
fn sample_image() -> Vec<u8> {
    let words: [u32; 6] = [0x0BF0_0100, 0x0000_0000, 0x3C08_BFC0, 0x3508_0400, 0x0100_0008, 0x0000_0000];
    let mut bytes = Vec::new();
    for w in words.iter() {
        bytes.extend_from_slice(&w.to_be_bytes());
    }
    bytes
}

#[test]
fn test_prom_disassembly() {
    let prom = Prom::from_bytes(&sample_image());
    let port = prom.get_port();

    println!("\nDisassembling first 256 words from PROM:\n");

    // PROM is at physical address 0x1FC00000
    // But CPU starts at 0xBFC00000 (KSEG1 uncached mapping)
    const KSEG1_OFFSET: u32 = 0xA0000000;

    for i in 0..256 {
        let phys_addr = PROM_BASE + (i * 4);
        let kseg1_addr = phys_addr + KSEG1_OFFSET; // 0xBFC00000 + offset

        match port.read32(phys_addr) {
            BusStatus::Data(word) => {
                let disasm = format!("{:?}", decode(word));
                println!("0x{:08x}: 0x{:08x}: {}", kseg1_addr, word, disasm);
            }
            _ => {
                println!("0x{:08x}: ERROR reading", kseg1_addr);
            }
        }
    }
}

#[test]
fn prom_byte_and_half_reads_are_big_endian() {
    let prom = Prom::from_bytes(&[0x12, 0x34, 0x56, 0x78]);
    let port = prom.get_port();
    assert_eq!(port.read8(PROM_BASE), BusStatus::Data8(0x12));
    assert_eq!(port.read8(PROM_BASE + 3), BusStatus::Data8(0x78));
    assert_eq!(port.read16(PROM_BASE), BusStatus::Data16(0x1234));
    assert_eq!(port.read16(PROM_BASE + 2), BusStatus::Data16(0x5678));
    assert_eq!(port.read8(PROM_BASE + PROM_SIZE), BusStatus::Data8(0xFF));
    assert_eq!(port.read16(PROM_BASE + 4), BusStatus::Data16(0xFFFF));
    assert_eq!(port.read64(PROM_BASE), BusStatus::Data64(0x1234_5678_FFFF_FFFF));
}

#[test]
fn prom_partial_last_word_is_padded() {
    let prom = Prom::from_bytes(&[0xAA, 0xBB, 0xCC, 0xDD, 0xEE]);
    let port = prom.get_port();
    assert_eq!(port.read32(PROM_BASE + 4), BusStatus::Data(0xEE00_0000));
}

#[test]
fn prom_runs_and_counts_accesses() {
    let prom = Prom::from_bytes(&[0, 0, 0, 0]);
    assert!(!prom.is_running());
    prom.start();
    assert!(prom.is_running());
    prom.stop();
    assert!(!prom.is_running());
    let port = prom.get_port();
    let before = prom.get_clock();
    let _ = port.read32(PROM_BASE);
    let _ = port.write8(PROM_BASE, 1);
    assert_eq!(prom.get_clock(), before + 2);
}
