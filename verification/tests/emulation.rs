use nes_ui::cheats::{cheat_activity_rows, CheatEffect, CheatFlash};
use nes_ui::cheats::{cheat_cell_hover, cheat_code_labels, memory_label, Cheat, CheatActivity, CheatCode, MemorySpace};
use nes_ui::emulation::{
    format_bytes, inferred_region_from_rom_path, region_from_file_name, rom_load_plan, rom_load_plan_for_path,
    Region, RomLoadPlan,
};

fn european_filename() {
    assert_eq!(
        inferred_region_from_rom_path("25th Anniversary Super Mario Bros. (Europe) (Promo, Virtual Console).nes"),
        Some(Region::Pal)
    );
    assert_eq!(inferred_region_from_rom_path("Palace of Power (USA).nes"), None);
}

#[test]
fn emulation_european_filename_corrects_a_missing_pal_header_flag() {
    european_filename();
}

#[test]
fn app_european_filename_corrects_a_missing_pal_header_flag() {
    european_filename();
}

#[test]
fn region_tags_ignore_case_and_directories() {
    assert_eq!(region_from_file_name("Game [PAL].nes"), Some(Region::Pal));
    assert_eq!(region_from_file_name("Game (United Kingdom).nes"), Some(Region::Pal));
    assert_eq!(region_from_file_name("Game (Japan).nes"), None);
    assert_eq!(inferred_region_from_rom_path("/roms/(Europe)/Game (USA).nes"), None);
}

#[test]
fn disk_images_need_a_bios() {
    let fds = b"FDS\x1a\x01\x02";
    assert_eq!(rom_load_plan(fds, None, None, true), RomLoadPlan::Fds);
    assert_eq!(rom_load_plan(fds, None, None, false), RomLoadPlan::Ines { region: None });
    assert_eq!(rom_load_plan(b"NES\x1a", Some("FdS"), None, true), RomLoadPlan::Fds);
    assert_eq!(
        rom_load_plan(b"NES\x1a", Some("nes"), Some("Zelda (Europe).nes"), true),
        RomLoadPlan::Ines { region: Some(Region::Pal) }
    );
    assert_eq!(rom_load_plan_for_path(b"NES\x1a", Some("/roms/Zelda (Europe).fds"), true), RomLoadPlan::Fds);
    assert_eq!(
        rom_load_plan_for_path(b"NES\x1a", Some("/roms/Zelda (Europe).nes"), true),
        RomLoadPlan::Ines { region: Some(Region::Pal) }
    );
    assert_eq!(rom_load_plan_for_path(b"NES\x1a", None, true), RomLoadPlan::Ines { region: None });
}

#[test]
fn bare_file_names_choose_the_plan() {
    assert_eq!(rom_load_plan_for_path(b"NES\x1a", Some("Zelda.FDS"), true), RomLoadPlan::Fds);
    assert_eq!(rom_load_plan_for_path(b"NES\x1a", Some("Zelda.fds"), false), RomLoadPlan::Ines { region: None });
    assert_eq!(rom_load_plan_for_path(b"NES\x1a", Some(".fds"), true), RomLoadPlan::Ines { region: None });
    assert_eq!(rom_load_plan_for_path(b"NES\x1a", Some("a.b.fds"), true), RomLoadPlan::Fds);
    assert_eq!(
        rom_load_plan_for_path(b"NES\x1a", Some("Zelda (Europe).nes"), true),
        RomLoadPlan::Ines { region: Some(Region::Pal) }
    );
}

fn float_format(bytes: usize) -> String {
    const KIB: f64 = 1024.0;
    const MIB: f64 = KIB * 1024.0;
    if bytes as f64 >= MIB {
        format!("{:.1} MiB", bytes as f64 / MIB)
    } else if bytes as f64 >= KIB {
        format!("{:.1} KiB", bytes as f64 / KIB)
    } else {
        format!("{bytes} B")
    }
}

#[test]
fn byte_counts_read_like_the_float_formatting() {
    assert_eq!(format_bytes(0), "0 B");
    assert_eq!(format_bytes(1023), "1023 B");
    assert_eq!(format_bytes(1024), "1.0 KiB");
    assert_eq!(format_bytes(1536), "1.5 KiB");
    assert_eq!(format_bytes(12 * 1024 * 1024), "12.0 MiB");
    let mut samples: Vec<usize> = vec![
        1280, 1331, 1332, 1382, 1434, 3 * 1024 * 1024 / 2, 1048575, 1048576, 1101004, 1153433,
        usize::MAX, usize::MAX - 1, (1 << 53) + 1, (1 << 53) + 3, (1 << 54) + 2, (1 << 54) + 6,
        (1 << 60) + (1 << 7), (1 << 60) + (3 << 7),
    ];
    let mut x: u64 = 0x9E37_79B9_7F4A_7C15;
    for _ in 0..20_000 {
        x ^= x << 13;
        x ^= x >> 7;
        x ^= x << 17;
        samples.push((x >> (x % 60)) as usize);
        samples.push((x % 5_000_000) as usize);
    }
    for tenth in 0..2000usize {
        samples.push(tenth * 1024 * 1024 / 20);
        samples.push(tenth * 1024 / 20);
    }
    for bytes in samples {
        assert_eq!(format_bytes(bytes), float_format(bytes), "{bytes}");
    }
}

#[test]
fn memory_spaces_have_names() {
    assert_eq!(memory_label(MemorySpace::CpuBus), "CPU bus (game's view)");
    assert_eq!(memory_label(MemorySpace::PrgRom), "PRG ROM (read-only)");
}

#[test]
fn cheat_hover_explains_the_patch() {
    let entry = CheatActivity {
        cheat: Cheat {
            address: 0x07a5,
            value: 0x0f,
            compare: Some(0x3c),
        },
        actual: 0x3c,
        observed: 0x0f,
        hits: 12,
    };
    assert_eq!(
        cheat_cell_hover(&entry),
        "Cheat patch at $07A5: 3C → 0F while the real byte is 3C\nCPU currently sees 0F • fired 12 time(s)"
    );
    let plain = CheatActivity {
        cheat: Cheat {
            address: 0xfffe,
            value: 0xab,
            compare: None,
        },
        actual: 1,
        observed: 1,
        hits: 0,
    };
    assert_eq!(
        cheat_cell_hover(&plain),
        "Cheat patch at $FFFE: 01 → AB\nCPU currently sees 01 • fired 0 time(s)"
    );
}

#[test]
fn cheat_codes_are_labelled_once() {
    let cheat = Cheat {
        address: 0x1234,
        value: 5,
        compare: None,
    };
    let other = Cheat {
        address: 0x2000,
        value: 1,
        compare: Some(2),
    };
    let codes = vec![
        CheatCode {
            parsed: Some(cheat),
            code: "  sxiopo \t".into(),
            name: " Infinite lives ".into(),
        },
        CheatCode {
            parsed: None,
            code: "bogus".into(),
            name: String::new(),
        },
        CheatCode {
            parsed: Some(cheat),
            code: "SXIOPO".into(),
            name: "again".into(),
        },
        CheatCode {
            parsed: Some(other),
            code: "aapz".into(),
            name: "   ".into(),
        },
    ];
    let labels = cheat_code_labels(&codes);
    assert_eq!(labels.len(), 2);
    assert_eq!(labels[0], (cheat, "SXIOPO — Infinite lives".to_string()));
    assert_eq!(labels[1], (other, "AAPZ".to_string()));
}

#[test]
fn cheat_rows_light_up_when_a_cheat_fires() {
    let cheat = Cheat {
        address: 0x07a5,
        value: 0x0f,
        compare: Some(0x3c),
    };
    let labels = vec![(cheat, "SXIOPO — Lives".to_string())];
    let mut activity = vec![
        CheatActivity {
            cheat,
            actual: 0x3c,
            observed: 0x0f,
            hits: 2,
        },
        CheatActivity {
            cheat: Cheat {
                address: 0x0010,
                value: 1,
                compare: Some(9),
            },
            actual: 3,
            observed: 3,
            hits: 0,
        },
    ];
    let mut flash: Vec<CheatFlash> = Vec::new();
    let rows = cheat_activity_rows(&activity, &mut flash, &labels, 1_000);
    assert_eq!(flash.len(), 2);
    assert!(!rows[0].firing);
    assert_eq!(rows[0].label, "SXIOPO — Lives");
    assert_eq!(rows[0].patch, "$07A5: 3C → 0F");
    assert_eq!(rows[0].effect, CheatEffect::Patching);
    assert_eq!(rows[0].effect.text(), "patching");
    assert_eq!(rows[0].fired, "fired 2×");
    assert_eq!(rows[1].label, "unnamed patch");
    assert_eq!(rows[1].effect, CheatEffect::Waiting(3));
    assert_eq!(rows[1].effect.text(), "waiting (byte is 03)");
    assert_eq!(rows[1].address, 0x0010);
    activity[0].hits = 3;
    let rows = cheat_activity_rows(&activity, &mut flash, &labels, 2_000);
    assert!(rows[0].firing);
    assert_eq!(flash[0].flash_until, Some(2_000 + 600_000_000));
    let rows = cheat_activity_rows(&activity, &mut flash, &labels, 2_000 + 600_000_000);
    assert!(!rows[0].firing);
    assert_eq!(CheatEffect::AlreadyMatches.text(), "byte already matches");
    let plain = Cheat { address: 0xfffe, value: 0xab, compare: None };
    let rows = cheat_activity_rows(
        &vec![CheatActivity { cheat: plain, actual: 0xab, observed: 0xab, hits: 1 }],
        &mut flash,
        &labels,
        0,
    );
    assert_eq!(rows[0].patch, "$FFFE → AB");
    assert_eq!(rows[0].effect, CheatEffect::AlreadyMatches);
}

#[test]
fn only_the_file_name_of_a_full_path_sets_the_region() {
    assert_eq!(inferred_region_from_rom_path("/roms/USA/Zelda (Europe).nes"), Some(Region::Pal));
    assert_eq!(inferred_region_from_rom_path("/roms/Europe [PAL]/Zelda (USA).nes"), None);
    assert_eq!(
        rom_load_plan_for_path(b"NES\x1a", Some("/roms/(Europe) disks/Zelda.FDS"), true),
        RomLoadPlan::Fds
    );
    assert_eq!(
        rom_load_plan_for_path(b"NES\x1a", Some("/roms/(Europe) disks/Zelda.nes"), true),
        RomLoadPlan::Ines { region: None }
    );
}

#[test]
fn path_endings_follow_the_file_name_rules() {
    assert_eq!(inferred_region_from_rom_path("/roms/Zelda (Europe).nes/."), Some(Region::Pal));
    assert_eq!(inferred_region_from_rom_path("/roms/Zelda (Europe).nes/.."), None);
    assert_eq!(inferred_region_from_rom_path("/roms/Zelda (Europe).nes/"), Some(Region::Pal));
    assert_eq!(inferred_region_from_rom_path("/"), None);
    assert_eq!(inferred_region_from_rom_path(""), None);
    assert_eq!(
        rom_load_plan_for_path(b"NES\x1a", Some("/roms/Zelda.fds/."), true),
        RomLoadPlan::Fds
    );
    assert_eq!(
        rom_load_plan_for_path(b"NES\x1a", Some("/roms/(Europe).fds/.."), true),
        RomLoadPlan::Ines { region: None }
    );
}
