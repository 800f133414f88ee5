use iris_devices::bt445::{
    Bt445, RDAC_CRS_ADDR_REG, RDAC_CRS_CTRL, RDAC_CRS_CURSOR, RDAC_CRS_OVL_RAM, RDAC_CRS_PAL_RAM,
    RDAC_CRS_SETUP, RDAC_CTRL_CMD0, RDAC_CTRL_ID, RDAC_CTRL_REVISION, RDAC_SETUP_CMD1,
};
use iris_devices::cmap::{
    Cmap, CMAP_REG_ADDR_HI, CMAP_REG_ADDR_LO, CMAP_REG_COLOR_BUF, CMAP_REG_PALETTE,
    CMAP_REG_REVISION, CMAP_REG_STATUS,
};
use iris_devices::xmap9::{
    Xmap9, XMAP9_REG_MODE_ADDR, XMAP9_REG_MODE_TABLE_READ, XMAP9_REG_MODE_TABLE_WRITE,
    XMAP9_REG_REVISION,
};

#[test]
fn bt445_palette_write_then_read() {
    let mut dac = Bt445::new();
    dac.write_crs(RDAC_CRS_ADDR_REG, 0x10);
    dac.write_crs(RDAC_CRS_PAL_RAM, 0x11);
    dac.write_crs(RDAC_CRS_PAL_RAM, 0x22);
    dac.write_crs(RDAC_CRS_PAL_RAM, 0x33);
    // The address advanced after blue.
    assert_eq!(dac.read_crs(RDAC_CRS_ADDR_REG), 0x11);
    dac.write_crs(RDAC_CRS_ADDR_REG, 0x10);
    assert_eq!(dac.read_crs(RDAC_CRS_PAL_RAM), 0x11);
    assert_eq!(dac.read_crs(RDAC_CRS_PAL_RAM), 0x22);
    assert_eq!(dac.read_crs(RDAC_CRS_PAL_RAM), 0x33);
    assert_eq!(dac.read_crs(RDAC_CRS_ADDR_REG), 0x11);
    assert_eq!(dac.palette_as_rgb()[0x10], 0x0011_2233);
    assert_eq!(dac.palette_as_rgb()[0x11], 0);
}

#[test]
fn bt445_write32_packs_rgb_in_upper_bytes() {
    let mut dac = Bt445::new();
    dac.write32(RDAC_CRS_ADDR_REG, 0xFF);
    dac.write32(RDAC_CRS_PAL_RAM, 0xCCBB_AA00);
    assert_eq!(dac.palette[0xFF], [0xAA, 0xBB, 0xCC]);
    // The address wraps.
    assert_eq!(dac.addr, 0);
    assert_eq!(dac.palette_as_rgb()[0xFF], 0x00AA_BBCC);
}

#[test]
fn bt445_control_registers() {
    let mut dac = Bt445::new();
    dac.write_crs(RDAC_CRS_ADDR_REG, RDAC_CTRL_ID);
    assert_eq!(dac.read_crs(RDAC_CRS_CTRL), 0x3A);
    dac.write_crs(RDAC_CRS_ADDR_REG, RDAC_CTRL_REVISION);
    assert_eq!(dac.read_crs(RDAC_CRS_CTRL), 0xA0);
    dac.write_crs(RDAC_CRS_ADDR_REG, RDAC_CTRL_CMD0);
    assert_eq!(dac.read_crs(RDAC_CRS_CTRL), 0x43);
    dac.write_crs(RDAC_CRS_CTRL, 0x05);
    assert_eq!(dac.read_crs(RDAC_CRS_CTRL), 0x05);
    // Control accesses do not move the address.
    assert_eq!(dac.read_crs(RDAC_CRS_ADDR_REG), RDAC_CTRL_CMD0);
}

#[test]
fn bt445_sync_on_green_follows_cmd1() {
    let mut dac = Bt445::new();
    assert!(!dac.sog_enabled());
    dac.write_crs(RDAC_CRS_ADDR_REG, RDAC_SETUP_CMD1);
    dac.write_crs(RDAC_CRS_SETUP, 0xC0);
    assert!(dac.sog_enabled());
    assert_eq!(dac.read_crs(RDAC_CRS_SETUP), 0xC0);
    dac.reset();
    assert!(!dac.sog_enabled());
    assert_eq!(dac.setup[RDAC_SETUP_CMD1 as usize], 0x40);
}

#[test]
fn bt445_sync_on_green_changes_are_reported() {
    let mut dac = Bt445::new();
    assert_eq!(dac.take_sog_change(), None);
    dac.write_crs(RDAC_CRS_ADDR_REG, RDAC_SETUP_CMD1);
    dac.write_crs(RDAC_CRS_SETUP, 0xC0);
    assert_eq!(dac.take_sog_change(), Some(true));
    assert_eq!(dac.take_sog_change(), None);
    // Same bit again: no change to report.
    dac.write_crs(RDAC_CRS_ADDR_REG, RDAC_SETUP_CMD1);
    dac.write_crs(RDAC_CRS_SETUP, 0x80);
    assert_eq!(dac.take_sog_change(), None);
    dac.write_crs(RDAC_CRS_ADDR_REG, RDAC_SETUP_CMD1);
    dac.write_crs(RDAC_CRS_SETUP, 0x40);
    assert_eq!(dac.take_sog_change(), Some(false));
    // Another setup register never reports.
    dac.write_crs(RDAC_CRS_ADDR_REG, 0x02);
    dac.write_crs(RDAC_CRS_SETUP, 0x80);
    assert_eq!(dac.take_sog_change(), None);
    assert_eq!(Bt445::sog_change_text(true), "BT445: Sync-on-Green (IOG) ENABLED");
    assert_eq!(Bt445::sog_change_text(false), "BT445: Sync-on-Green (IOG) DISABLED");
}

#[test]
fn bt445_overlay_and_cursor_index_wrap() {
    let mut dac = Bt445::new();
    dac.write_crs(RDAC_CRS_ADDR_REG, 0x13);
    dac.write_crs(RDAC_CRS_OVL_RAM, 1);
    dac.write_crs(RDAC_CRS_OVL_RAM, 2);
    dac.write_crs(RDAC_CRS_OVL_RAM, 3);
    assert_eq!(dac.overlay[3], [1, 2, 3]);
    dac.write_crs(RDAC_CRS_ADDR_REG, 0x06);
    dac.write_crs(RDAC_CRS_CURSOR, 4);
    dac.write_crs(RDAC_CRS_CURSOR, 5);
    dac.write_crs(RDAC_CRS_CURSOR, 6);
    assert_eq!(dac.cursor_color[2], [4, 5, 6]);
    dac.write_crs(RDAC_CRS_ADDR_REG, 0x02);
    assert_eq!(dac.read_crs(RDAC_CRS_CURSOR), 4);
    assert_eq!(dac.read_crs(RDAC_CRS_CURSOR), 5);
    assert_eq!(dac.read_crs(RDAC_CRS_CURSOR), 6);
}

#[test]
fn bt445_command_decoding() {
    assert_eq!(Bt445::decode_cmd0(0x43), "OVL0→CMAP blink=16/48(25%) OVL1_EN OVL0_EN");
    assert_eq!(Bt445::decode_cmd0(0x3C), "OVL0→OVL_COLOR blink=64/64(50%) OVL1_BLINK OVL0_BLINK OVL1_DIS OVL0_DIS");
    assert_eq!(Bt445::decode_cmd1(0x40), "SOG=off pedestal=7.5IRE pwr=normal pal=sparse");
    assert_eq!(Bt445::decode_cmd1(0x9F), "SOG=ON pedestal=0IRE pwr=clk_off pal=contiguous SAR RESET_PIPE");
    assert_eq!(Bt445::decode_cmd1(0x10), "SOG=off pedestal=0IRE pwr=DACs+RAM_off pal=sparse");
}

#[test]
fn cmap_palette_round_trip() {
    let mut cmap = Cmap::new(0);
    cmap.write_crs(CMAP_REG_ADDR_LO, 0x34);
    cmap.write_crs(CMAP_REG_ADDR_HI, 0x12);
    cmap.write_crs(CMAP_REG_PALETTE, 0xAA);
    cmap.write_crs(CMAP_REG_PALETTE, 0xBB);
    cmap.write_crs(CMAP_REG_PALETTE, 0xCC);
    // Stored as 0x00BBGGRR.
    assert_eq!(cmap.palette[0x1234], 0x00CC_BBAA);
    // The address advanced.
    assert_eq!(cmap.read_crs(CMAP_REG_ADDR_LO), 0x35);
    assert_eq!(cmap.read_crs(CMAP_REG_ADDR_HI), 0x12);
    cmap.write_crs(CMAP_REG_ADDR_LO, 0x34);
    assert_eq!(cmap.read_crs(CMAP_REG_PALETTE), 0xAA);
    assert_eq!(cmap.read_crs(CMAP_REG_PALETTE), 0xBB);
    assert_eq!(cmap.read_crs(CMAP_REG_PALETTE), 0xCC);
}

#[test]
fn cmap_status_and_color_buffer() {
    let mut cmap = Cmap::new(1);
    assert_eq!(cmap.read_crs(CMAP_REG_REVISION), 0x02);
    assert_eq!(cmap.read_crs(CMAP_REG_STATUS), 0x18);
    cmap.write_crs(CMAP_REG_PALETTE, 0x12);
    assert_eq!(cmap.read_crs(CMAP_REG_STATUS), 0x19);
    cmap.write_crs(CMAP_REG_PALETTE, 0x34);
    assert_eq!(cmap.read_crs(CMAP_REG_STATUS), 0x1A);
    cmap.write_crs(CMAP_REG_ADDR_LO, 0);
    assert_eq!(cmap.read_crs(CMAP_REG_COLOR_BUF), 0x12);
    assert_eq!(cmap.read_crs(CMAP_REG_COLOR_BUF), 0x34);
}

#[test]
fn xmap9_mode_table_round_trip() {
    let mut x = Xmap9::new();
    assert_eq!(x.read_crs(XMAP9_REG_REVISION), 3);
    x.write_crs(XMAP9_REG_MODE_TABLE_WRITE, 0x05AB_CDEF);
    // Entry 5, bytes 0..2 of the 24-bit data.
    x.write_crs(XMAP9_REG_MODE_ADDR, (5 << 2) | 0);
    assert_eq!(x.read_crs(XMAP9_REG_MODE_TABLE_READ), 0xEF);
    x.write_crs(XMAP9_REG_MODE_ADDR, (5 << 2) | 1);
    assert_eq!(x.read_crs(XMAP9_REG_MODE_TABLE_READ), 0xCD);
    x.write_crs(XMAP9_REG_MODE_ADDR, (5 << 2) | 2);
    assert_eq!(x.read_crs(XMAP9_REG_MODE_TABLE_READ), 0xAB);
    x.write_crs(XMAP9_REG_MODE_ADDR, (5 << 2) | 3);
    assert_eq!(x.read_crs(XMAP9_REG_MODE_TABLE_READ), 0);
    // The entry index is five bits.
    x.write_crs(XMAP9_REG_MODE_TABLE_WRITE, 0xFF00_0001);
    assert_eq!(x.mode_table[31], 1);
}

#[test]
fn xmap9_mode_entry_fields() {
    // 12 bpp color index: only bit 4 of the MSB field selects the base.
    let raw = (2 << 10) | (0x1F << 3) | 0b11;
    let m = Xmap9::decode_mode_entry(raw);
    assert_eq!((m.buf, m.ovl, m.msb, m.pix_mode, m.pix_size), (1, 1, 0x1F, 0, 2));
    assert_eq!(m.cmap_base, 0x1000);
    // 8 bpp color index: the whole MSB field.
    let m = Xmap9::decode_mode_entry((1 << 10) | (0x03 << 3));
    assert_eq!(m.cmap_base, 0x300);
    // RGB modes have no color map base.
    let m = Xmap9::decode_mode_entry((1 << 8) | (0x03 << 3) | (5 << 16) | (0x1F << 19));
    assert_eq!((m.pix_mode, m.cmap_base, m.aux_pix, m.aux_msb, m.aux_base), (1, 0, 5, 0x1F, 0x1F00));
}

use iris_devices::traits::{DmaStatus, DMA_EOP, DMA_EOX, DMA_IRQ, DMA_NOT_ACTIVE, DMA_OVERFLOW, DMA_ROWN};

#[test]
fn dma_status_flags() {
    let ok = DmaStatus::ok();
    assert!(ok.is_ok());
    assert!(!ok.refused());
    let s = DmaStatus(DMA_EOP) | DmaStatus(DMA_IRQ);
    assert!(s.eop() && s.irq() && !s.eox() && !s.is_ok());
    let mut t = DmaStatus(DMA_EOX);
    t |= DmaStatus(DMA_ROWN);
    assert!(t.eox());
    assert!(t.refused());
    assert!(DmaStatus(DMA_NOT_ACTIVE).refused());
    assert!(DmaStatus(DMA_OVERFLOW).refused());
    assert!(!DmaStatus(DMA_EOP | DMA_IRQ).refused());
}

/// The dump as the monitor's formatting writes it, field by field.
fn expected_bt445_dump(dac: &Bt445) -> String {
    let mut w = String::new();
    let cmd0 = dac.cmd0;
    let cmd1 = dac.setup[1];
    let pix_fmt = dac.setup[0x0A];
    w.push_str(&format!("BT445 RAMDAC status:\n"));
    w.push_str(&format!("  ID=0x3A  Revision=0xA0\n"));
    w.push_str(&format!("  addr={:02x}  rgb_counter={}\n", dac.addr, dac.rgb_counter));
    w.push_str(&format!("  CMD0={:02x}  {}\n", cmd0, Bt445::decode_cmd0(cmd0)));
    w.push_str(&format!("  CMD1={:02x}  {}\n", cmd1, Bt445::decode_cmd1(cmd1)));
    w.push_str(&format!("  Sync-on-Green (IOG): {}\n", if cmd1 & 0x80 != 0 { "ENABLED" } else { "disabled (power-on default)" }));
    w.push_str(&format!("  Blanking pedestal: {}\n", if cmd1 & 0x40 != 0 { "7.5 IRE (power-on default)" } else { "0 IRE" }));
    let pwr = (cmd1 & 0x18) >> 3;
    w.push_str(&format!("  Power mode: {}\n", match pwr {
        0 => "normal (power-on default)",
        1 => "DACs off (LUT→TTL outputs)",
        2 => "DACs and RAM off",
        3 => "internal clocking disabled",
        _ => "?",
    }));
    w.push_str(&format!("  Pixel format ctrl={:02x}: unpack={} cursor={} ovl={} pal_bypass={}\n",
        pix_fmt,
        if pix_fmt & 0x80 != 0 { "LSB" } else { "MSB" },
        if pix_fmt & 0x20 != 0 { "on" } else { "off" },
        if pix_fmt & 0x08 != 0 { "on" } else { "off" },
        match pix_fmt & 0x03 { 0 => "always-use", 1 => "always-bypass", 2 => "pixel-field", _ => "reserved" },
    ));
    w.push_str(&format!("  read_enable={:02x}  blink_enable={:02x}\n", dac.read_enable, dac.blink_enable));
    w.push_str(&format!("  PLL: rate0={:02x} rate1={:02x} ctrl={:02x}\n", dac.setup[5], dac.setup[6], dac.setup[7]));
    w.push_str(&format!("  Pix: start={:02x} fmt={:02x} mpx_rate={:02x} depth={:02x}\n", dac.setup[9], dac.setup[0x0A], dac.setup[0x0B], dac.setup[0x0D]));
    w.push_str(&format!("  VIDCLK_ctrl={:02x}  pal_bypass_pos={:02x}  pal_bypass_width={:02x}\n", dac.setup[3], dac.setup[0x0E], dac.setup[0x0F]));
    let nz_count = (0..256).filter(|&i| dac.palette[i] != [0, 0, 0]).count();
    if nz_count == 0 {
        w.push_str(&format!("  Palette: all zeros\n"));
    } else {
        w.push_str(&format!("  Palette ({} non-zero entries):\n", nz_count));
        for row in 0..32 {
            let base = row * 8;
            if dac.palette[base..base + 8].iter().all(|e| e == &[0, 0, 0]) {
                continue;
            }
            let mut line = format!("  {:02x}:", base);
            for i in 0..8 {
                let e = &dac.palette[base + i];
                line.push_str(&format!("  {:02x}{:02x}{:02x}", e[0], e[1], e[2]));
            }
            w.push_str(&format!("{}\n", line));
        }
    }
    let ovl_nz: Vec<usize> = (0..16).filter(|&i| dac.overlay[i] != [0, 0, 0]).collect();
    if ovl_nz.is_empty() {
        w.push_str(&format!("  Overlay palette: all zeros\n"));
    } else {
        let show: Vec<String> = ovl_nz.iter()
            .map(|&i| format!("[{:x}]={:02x}{:02x}{:02x}", i, dac.overlay[i][0], dac.overlay[i][1], dac.overlay[i][2]))
            .collect();
        w.push_str(&format!("  Overlay palette: {}\n", show.join("  ")));
    }
    let curs: Vec<String> = (0..4)
        .map(|i| format!("[{}]={:02x}{:02x}{:02x}", i, dac.cursor_color[i][0], dac.cursor_color[i][1], dac.cursor_color[i][2]))
        .collect();
    w.push_str(&format!("  Cursor colors: {}\n", curs.join("  ")));
    w
}

#[test]
fn bt445_status_dump() {
    let mut dac = Bt445::new();
    assert_eq!(dac.status_text(), expected_bt445_dump(&dac));
    dac.write_crs(RDAC_CRS_ADDR_REG, 0x09);
    for v in [0x01u8, 0xA2, 0x3F, 0, 0, 0, 0xFF, 0xFF, 0xFF] {
        dac.write_crs(RDAC_CRS_PAL_RAM, v);
    }
    dac.write_crs(RDAC_CRS_ADDR_REG, 0xF8);
    for v in [0x10u8, 0x20, 0x30] {
        dac.write_crs(RDAC_CRS_PAL_RAM, v);
    }
    dac.write_crs(RDAC_CRS_ADDR_REG, 0x0B);
    for v in [1u8, 2, 3] {
        dac.write_crs(RDAC_CRS_OVL_RAM, v);
    }
    dac.write_crs(RDAC_CRS_ADDR_REG, 0x02);
    for v in [0xABu8, 0xCD, 0xEF] {
        dac.write_crs(RDAC_CRS_OVL_RAM, v);
    }
    dac.write_crs(RDAC_CRS_ADDR_REG, 0x01);
    for v in [9u8, 8, 7] {
        dac.write_crs(RDAC_CRS_CURSOR, v);
    }
    dac.write_crs(RDAC_CRS_ADDR_REG, RDAC_SETUP_CMD1);
    dac.write_crs(RDAC_CRS_SETUP, 0x9F);
    dac.write_crs(RDAC_CRS_ADDR_REG, 0x0A);
    dac.write_crs(RDAC_CRS_SETUP, 0xA2);
    let text = dac.status_text();
    assert_eq!(text, expected_bt445_dump(&dac));
    assert!(text.contains("  Palette (3 non-zero entries):\n  08:  000000  01a23f  000000  ffffff"));
    assert!(text.contains("  Overlay palette: [2]=abcdef  [b]=010203\n"));
    assert!(text.contains("  Sync-on-Green (IOG): ENABLED\n"));
}

fn expected_cmap_dump(cmap: &Cmap, label: &str) -> String {
    let mut w = String::new();
    let address = (cmap.addr_hi as usize) << 8 | cmap.addr_lo as usize;
    w.push_str(&format!("=== {} ===\n", label));
    w.push_str(&format!("  addr={:04x} addr_lo={:02x} addr_hi={:02x}\n", address, cmap.addr_lo, cmap.addr_hi));
    w.push_str(&format!("  rgb_counter={} red_temp={:02x} green_temp={:02x}\n", cmap.rgb_counter, cmap.red_temp, cmap.green_temp));
    w.push_str(&format!("  command={:02x} revision={:02x}\n", cmap.command, cmap.revision));
    w.push_str("  Palette (non-zero rows):\n");
    for row in 0..(cmap.palette.len() / 16) {
        let base = row * 16;
        if cmap.palette[base..base + 16].iter().all(|&v| v == 0) {
            continue;
        }
        let mut line = format!("  {:04x}:", base);
        for i in 0..16 {
            line.push_str(&format!(" {:06x}", cmap.palette[base + i] & 0xFFFFFF));
        }
        w.push_str(&format!("{}\n", line));
    }
    w
}

#[test]
fn cmap_status_dump() {
    let mut cmap = Cmap::new(0);
    assert_eq!(cmap.status_text("CMAP0"), expected_cmap_dump(&cmap, "CMAP0"));
    cmap.write_crs(CMAP_REG_ADDR_LO, 0xFF);
    cmap.write_crs(CMAP_REG_ADDR_HI, 0x1F);
    for v in [1u8, 2, 3, 4, 5, 6] {
        cmap.write_crs(CMAP_REG_PALETTE, v);
    }
    cmap.write_crs(CMAP_REG_PALETTE, 0x77);
    assert_eq!(cmap.status_text("CMAP1"), expected_cmap_dump(&cmap, "CMAP1"));
    assert!(cmap.status_text("x").contains("  1ff0: 000000"));
}

fn expected_xmap9_dump(x: &Xmap9, label: &str) -> String {
    let mut w = String::new();
    w.push_str(&format!("=== {} ===\n", label));
    w.push_str(&format!("  config={:02x} cursor_cmap_msb={:02x} popup_cmap_msb={:02x} mode_addr={:02x} fifo_avail={:02x}\n",
        x.config, x.cursor_cmap_msb, x.popup_cmap_msb, x.mode_addr, x.fifo_avail));
    w.push_str("  Mode Table (32 entries):\n");
    w.push_str("  idx  raw      pix_mode pix_size msb_cmap cmap_base  aux_mode aux_msb aux_base  buf ovl\n");
    for (i, &raw) in x.mode_table.iter().enumerate() {
        let buf = raw & 0x1;
        let ovl = (raw >> 1) & 0x1;
        let msb = ((raw >> 3) & 0x1F) as u8;
        let pix_mode = (raw >> 8) & 0x3;
        let pix_size = (raw >> 10) & 0x3;
        let aux_pix = (raw >> 16) & 0x7;
        let aux_msb = ((raw >> 19) & 0x1F) as u8;
        let pix_mode_name = match pix_mode { 0 => "CI", 1 => "RGB0", 2 => "RGB1", 3 => "RGB2", _ => "?" };
        let pix_size_name = match pix_size { 0 => "4bpp", 1 => "8bpp", 2 => "12bpp", 3 => "24bpp", _ => "?" };
        let cmap_base = if pix_mode == 0 {
            if pix_size == 2 { (msb as usize & 0x10) << 8 } else { (msb as usize) << 8 }
        } else { 0 };
        let aux_base = (aux_msb as usize) << 8;
        w.push_str(&format!(
            "  {:2}   {:06x}   {:<5}    {:<6}   {:02x}       {:04x}       {:x}        {:02x}     {:04x}      {} {}\n",
            i, raw, pix_mode_name, pix_size_name, msb, cmap_base, aux_pix, aux_msb, aux_base, buf, ovl));
    }
    w
}

#[test]
fn xmap9_status_dump() {
    let mut x = Xmap9::new();
    assert_eq!(x.status_text("XMAP0"), expected_xmap9_dump(&x, "XMAP0"));
    x.write_crs(XMAP9_REG_MODE_TABLE_WRITE, 0x05AB_CDEF);
    x.write_crs(XMAP9_REG_MODE_TABLE_WRITE, 0x0B00_0AFB);
    x.write_crs(XMAP9_REG_MODE_TABLE_WRITE, 0x1F00_0103);
    x.mode_table[7] = 0x1234_5678;
    assert_eq!(x.status_text("XMAP1"), expected_xmap9_dump(&x, "XMAP1"));
}
