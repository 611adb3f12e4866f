use ssmt::cami::{
    category_buffer_file_name, export_category_buffer_action, game_type_folder_name, ib_file_format,
    match_first_index_table, max_slot_trianglelist_index, owner_trianglelist_index, parse_unsigned,
    possible_game_types, submesh_folder_name, vertex_limit_vb, BufferMetadata, CamiCategory, CamiGameType,
    CamiNewExtractor, CategoryBufferAction, DrawIBEntry, DrawIbProbe, DrawIbStep, IbTxtHeader, IbTxtProbe,
    SlotProbe, submesh_elements_for_category,
};

fn category(name: &str, slot: &str, stride: u64) -> CamiCategory {
    CamiCategory { name: name.to_string(), slot: slot.to_string(), stride, draw_category: name.to_string() }
}

fn game_type(name: &str, gpu: bool, self_stride: u64, cats: Vec<CamiCategory>) -> CamiGameType {
    CamiGameType { name: name.to_string(), gpu_pre_skinning: gpu, self_stride, categories: cats }
}

fn character_type(name: &str, gpu: bool, self_stride: u64) -> CamiGameType {
    game_type(name, gpu, self_stride, vec![category("Position", "vb0", 12), category("Blend", "vb4", 8)])
}

fn sized(size: u64) -> SlotProbe {
    SlotProbe { buf_listed: true, buf_path_known: true, txt_known: false, buf_size: Ok(size), txt_size: Ok(0) }
}

/// A draw with 100 vertices in both slots of a character type.
fn full_draw() -> Vec<SlotProbe> {
    vec![sized(1200), sized(800)]
}

fn unlisted() -> SlotProbe {
    SlotProbe { buf_listed: false, buf_path_known: false, txt_known: false, buf_size: Ok(0), txt_size: Ok(0) }
}

fn entry(draw_ib: &str) -> DrawIBEntry {
    DrawIBEntry { draw_ib: draw_ib.to_string(), alias: draw_ib.to_string() }
}

fn strings(items: &[&str]) -> Vec<String> {
    items.iter().map(|s| s.to_string()).collect()
}

fn extractor(types: Vec<CamiGameType>, specify: bool, config: Vec<DrawIBEntry>) -> CamiNewExtractor {
    CamiNewExtractor {
        workspace_path: "ws".to_string(),
        drawib_config: config,
        specify_drawib_extract: specify,
        game_types: types,
    }
}

#[test]
fn category_hash_follows_the_slot_name() {
    let ty = character_type("CAMI_Body", false, 20);
    let h = ty.build_category_hash_from_buf_file_name("Position", "000123-vb0=1a2b3c4d-vs=0f0f0f0f-ps=aa.buf");
    assert_eq!(h, Ok("1a2b3c4d".to_string()));
    let h = ty.build_category_hash_from_buf_file_name("Blend", "000123-vb4=deadbeef-vs=0f0f0f0f.buf");
    assert_eq!(h, Ok("deadbeef".to_string()));
}

#[test]
fn category_hash_errors() {
    let ty = character_type("CAMI_Body", false, 20);
    assert_eq!(
        ty.build_category_hash_from_buf_file_name("Normal", "000123-vb0=1a2b3c4d.buf"),
        Err("Category slot not found for category: Normal".to_string())
    );
    assert_eq!(
        ty.build_category_hash_from_buf_file_name("Position", "000123-vb0=1a2b"),
        Err("Cannot parse hash from buf file name: 000123-vb0=1a2b (category=Position, slot=vb0)".to_string())
    );
    assert_eq!(
        ty.build_category_hash_from_buf_file_name("Position", ""),
        Err("Cannot parse hash from buf file name:  (category=Position, slot=vb0)".to_string())
    );
    // Eight characters that are not eight bytes hold no hash.
    assert!(ty.build_category_hash_from_buf_file_name("Position", "000123-vb0=1a2b3cé-vs.buf").is_err());
}

#[test]
fn submesh_hashes_in_category_order() {
    let ty = character_type("CAMI_Body", false, 20);
    let names = strings(&["000123-vb0=11111111-vs.buf", "000123-vb4=22222222-vs.buf"]);
    assert_eq!(ty.submesh_category_hashes(&names), Ok(strings(&["11111111", "22222222"])));
    let names = strings(&["000123-vb0=11111111-vs.buf", ""]);
    assert_eq!(
        ty.submesh_category_hashes(&names),
        Err("Cannot parse hash from buf file name:  (category=Blend, slot=vb4)".to_string())
    );
}

#[test]
fn a_type_matches_when_one_draw_carries_all_its_slots() {
    let types = vec![character_type("CAMI_Body", false, 20)];
    // Draw 0 lacks the blend buffer; draw 1 has 100 vertices in both slots.
    let probes = vec![vec![vec![sized(1200), unlisted()], vec![sized(1200), sized(800)]]];
    assert_eq!(possible_game_types(&types, 2, &probes), Ok(vec![0]));
    // Vertex counts that disagree match nothing.
    let probes = vec![vec![vec![sized(1200), sized(808)]]];
    assert_eq!(possible_game_types(&types, 1, &probes), Ok(vec![]));
}

#[test]
fn shared_slots_and_zero_strides_never_match() {
    let shared = vec![game_type("T", false, 8, vec![category("A", "vb0", 4), category("B", "vb0", 4)])];
    let probes = vec![vec![vec![sized(40), sized(40)]]];
    assert_eq!(possible_game_types(&shared, 1, &probes), Ok(vec![]));
    let zero = vec![game_type("T", false, 8, vec![category("A", "vb0", 0)])];
    let probes = vec![vec![vec![sized(40)]]];
    assert_eq!(possible_game_types(&zero, 1, &probes), Ok(vec![]));
}

#[test]
fn gpu_matches_skip_later_cpu_types_and_keep_the_widest() {
    let types = vec![
        character_type("GPU_Wide", true, 40),
        character_type("CPU", false, 20),
        character_type("GPU_Narrow", true, 36),
    ];
    let probes = vec![vec![full_draw()], vec![full_draw()], vec![full_draw()]];
    assert_eq!(possible_game_types(&types, 1, &probes), Ok(vec![0]));
}

#[test]
fn cpu_types_before_a_gpu_match_stay_listed() {
    let types = vec![character_type("CPU", false, 20), character_type("GPU", true, 40)];
    let probes = vec![vec![full_draw()], vec![full_draw()]];
    assert_eq!(possible_game_types(&types, 1, &probes), Ok(vec![0, 1]));
}

#[test]
fn cpu_types_count_vertices_from_the_description() {
    let types = vec![character_type("CPU", false, 20)];
    let with_txt = |buf: u64, txt: u64| SlotProbe {
        buf_listed: true,
        buf_path_known: true,
        txt_known: true,
        buf_size: Ok(buf),
        txt_size: Ok(txt),
    };
    // The files hold more than the descriptions say; the descriptions agree.
    let probes = vec![vec![vec![with_txt(9999, 1200), with_txt(5, 800)]]];
    assert_eq!(possible_game_types(&types, 1, &probes), Ok(vec![0]));
    let unreadable = SlotProbe {
        buf_listed: true,
        buf_path_known: true,
        txt_known: true,
        buf_size: Ok(1200),
        txt_size: Err("bad txt".to_string()),
    };
    let probes = vec![vec![vec![unreadable, sized(800)]]];
    assert_eq!(possible_game_types(&types, 1, &probes), Err("bad txt".to_string()));
}

#[test]
fn max_slot_draw_is_the_last_of_the_widest() {
    let list = strings(&["000001", "000002", "000003", "000004"]);
    assert_eq!(max_slot_trianglelist_index(&list, &vec![3, 5, 5, 4]), "000003");
    assert_eq!(max_slot_trianglelist_index(&list, &vec![0, 0, 0, 0]), "000004");
    assert_eq!(max_slot_trianglelist_index(&vec![], &vec![]), "");
}

#[test]
fn draw_ib_list_trims_configured_entries() {
    let config = vec![entry(" f4dca227 "), entry("   "), entry("abc")];
    let chosen = extractor(vec![], true, config);
    assert_eq!(chosen.draw_ib_list(strings(&["zzz"])), strings(&["f4dca227", "abc"]));
    let full = extractor(vec![], false, vec![]);
    assert_eq!(full.draw_ib_list(strings(&["a", "b"])), strings(&["a", "b"]));
}

fn one_draw_probe(probes: Vec<Vec<Vec<SlotProbe>>>) -> DrawIbProbe {
    DrawIbProbe { trianglelist_index_list: strings(&["000010"]), slot_counts: vec![5], probes }
}

#[test]
fn plan_for_a_draw_ib() {
    let ex = extractor(vec![character_type("CPU", false, 20)], false, vec![]);
    let empty = DrawIbProbe { trianglelist_index_list: vec![], slot_counts: vec![], probes: vec![vec![]] };
    assert!(matches!(ex.plan_draw_ib(&empty, true, true), Ok(DrawIbStep::NoTrianglelistData)));
    let probe = one_draw_probe(vec![vec![vec![sized(1200), sized(800)]]]);
    match ex.plan_draw_ib(&probe, true, true) {
        Ok(DrawIbStep::Export { max_slot_trianglelist_index, game_types }) => {
            assert_eq!(max_slot_trianglelist_index, "000010");
            assert_eq!(game_types, vec![0]);
        }
        _ => panic!("expected an export"),
    }
    // A filter that wants only GPU pre-skinning types leaves nothing.
    assert!(matches!(ex.plan_draw_ib(&probe, true, false), Ok(DrawIbStep::NoDataTypeMatched)));
}

#[test]
fn run_stops_at_a_matching_error() {
    let ex = extractor(vec![character_type("CPU", false, 20)], false, vec![]);
    let good = one_draw_probe(vec![vec![vec![sized(1200), sized(800)]]]);
    let broken = SlotProbe {
        buf_listed: true,
        buf_path_known: true,
        txt_known: false,
        buf_size: Err("cannot stat".to_string()),
        txt_size: Ok(0),
    };
    let bad = one_draw_probe(vec![vec![vec![broken, sized(800)]]]);
    let plan = ex.run_extract(&strings(&["ib1", "ib2", "ib3"]), &vec![good, bad, one_draw_probe(vec![vec![vec![unlisted(), unlisted()]]])], true, true);
    assert_eq!(plan.steps.len(), 1);
    assert!(matches!(plan.steps[0], DrawIbStep::Export { .. }));
    assert!(matches!(plan.outcome, Err(ref e) if e == "cannot stat"));
}

#[test]
fn run_syncs_the_extracted_draw_ibs() {
    let ex = extractor(vec![character_type("CPU", false, 20)], false, vec![]);
    let good = one_draw_probe(vec![vec![vec![sized(1200), sized(800)]]]);
    let none = DrawIbProbe { trianglelist_index_list: vec![], slot_counts: vec![], probes: vec![vec![]] };
    let plan = ex.run_extract(&strings(&["ib1", "ib2"]), &vec![good, none], true, true);
    assert_eq!(plan.steps.len(), 2);
    assert!(matches!(plan.steps[1], DrawIbStep::NoTrianglelistData));
    match plan.outcome {
        Ok(entries) => {
            let pairs: Vec<(String, String)> = entries.into_iter().map(|e| (e.draw_ib, e.alias)).collect();
            assert_eq!(pairs, vec![("ib1".to_string(), "ib1".to_string()), ("ib2".to_string(), "ib2".to_string())]);
        }
        Err(e) => panic!("unexpected error {e}"),
    }
    let chosen = extractor(vec![], true, vec![DrawIBEntry { draw_ib: "f4dca227".to_string(), alias: "character".to_string() }]);
    let plan = chosen.run_extract(&strings(&[]), &vec![], true, true);
    match plan.outcome {
        Ok(entries) => {
            assert_eq!(entries.len(), 1);
            assert_eq!(entries[0].alias, "character");
        }
        Err(e) => panic!("unexpected error {e}"),
    }
}

#[test]
fn new_checks_in_order() {
    let folder = "C:/fa".to_string();
    let ws = "C:/ws".to_string();
    let r = CamiNewExtractor::new(&folder, &ws, false, false, Ok(()), Ok(vec![]), Ok(vec![]));
    assert!(matches!(r, Err(ref e) if e == "FrameAnalysis 文件夹未找到: C:/fa"));
    let r = CamiNewExtractor::new(&folder, &ws, false, true, Err("no log".to_string()), Ok(vec![]), Ok(vec![]));
    assert!(matches!(r, Err(ref e) if e == "no log"));
    let r = CamiNewExtractor::new(&folder, &ws, false, true, Ok(()), Err("bad json".to_string()), Ok(vec![]));
    assert!(matches!(r, Err(ref e) if e == "Failed to read DrawIB config: bad json"));
    // A full extraction does not read the configuration.
    let r = CamiNewExtractor::new(&folder, &ws, true, true, Ok(()), Err("bad json".to_string()), Ok(vec![]));
    match r {
        Ok(ex) => {
            assert!(!ex.specify_drawib_extract);
            assert!(ex.drawib_config.is_empty());
            assert_eq!(ex.workspace_path, "C:/ws");
        }
        Err(e) => panic!("unexpected error {e}"),
    }
    let r = CamiNewExtractor::new(&folder, &ws, true, true, Ok(()), Ok(vec![]), Err("no types".to_string()));
    assert!(matches!(r, Err(ref e) if e == "no types"));
}

#[test]
fn category_buffer_actions() {
    let meta = |stride: usize, vertex_count: usize, byte_offset: usize| Some(Ok(BufferMetadata { stride, vertex_count, byte_offset }));
    assert!(matches!(
        export_category_buffer_action("Position", "000123-vb0=1a2b3c4d.buf", false, false, None),
        Err(ref e) if e == "Category Position deduped path is empty: 000123-vb0=1a2b3c4d.buf"
    ));
    assert!(matches!(export_category_buffer_action("Position", "x.buf", true, true, meta(12, 10, 24)), Ok(CategoryBufferAction::Copy)));
    assert!(matches!(
        export_category_buffer_action("Position", "x.buf", true, false, meta(12, 10, 24)),
        Ok(CategoryBufferAction::Slice { start: 24, end: 144 })
    ));
    assert!(matches!(export_category_buffer_action("Position", "x.buf", true, false, meta(0, 10, 24)), Ok(CategoryBufferAction::Copy)));
    assert!(matches!(export_category_buffer_action("Position", "x.buf", true, false, None), Ok(CategoryBufferAction::Copy)));
    assert!(matches!(
        export_category_buffer_action("Position", "x.buf", true, false, Some(Err("unreadable".to_string()))),
        Err(ref e) if e == "unreadable"
    ));
    let huge = usize::MAX;
    let expected = format!("Category Blend slice length overflow: vertex_count={} stride=2", huge);
    assert!(matches!(
        export_category_buffer_action("Blend", "x.buf", true, false, meta(2, huge, 0)),
        Err(ref e) if *e == expected
    ));
    let expected = format!("Category Blend slice end overflow: byte_offset={} read_len=8", huge);
    assert!(matches!(
        export_category_buffer_action("Blend", "x.buf", true, false, meta(4, 2, huge)),
        Err(ref e) if *e == expected
    ));
}

#[test]
fn submesh_names() {
    assert_eq!(ib_file_format("DXGI_FORMAT_R32_UINT"), "DXGI_FORMAT_R32_UINT");
    assert_eq!(ib_file_format("DXGI_FORMAT_R16_UINT"), "DXGI_FORMAT_R16_UINT");
    assert_eq!(ib_file_format(""), "DXGI_FORMAT_R16_UINT");
    assert_eq!(vertex_limit_vb("000123-vb0=1a2b3c4d-vs=aa.txt"), "1a2b3c4d");
    assert_eq!(vertex_limit_vb(""), "");
    assert_eq!(vertex_limit_vb("000123-vb0=1a2"), "1a2");
    assert_eq!(owner_trianglelist_index("000123-ib=f4dca227-vs=aa.txt"), "000123");
    assert_eq!(owner_trianglelist_index("0001"), "0001");
    assert_eq!(submesh_folder_name("f4dca227", "72903", "41742"), "f4dca227-72903-41742");
    assert_eq!(game_type_folder_name("CAMI_Body"), "TYPE_CAMI_Body");
    assert_eq!(category_buffer_file_name("f4dca227-72903-41742", "Position"), "f4dca227-72903-41742-Position.buf");
}

#[test]
fn unsigned_parsing_follows_str_parse() {
    assert_eq!(parse_unsigned("41742", u64::MAX), Some(41742));
    assert_eq!(parse_unsigned("+7", u64::MAX), Some(7));
    assert_eq!(parse_unsigned("007", u64::MAX), Some(7));
    assert_eq!(parse_unsigned("18446744073709551615", u64::MAX), Some(u64::MAX));
    for bad in ["", "+", "-1", "12a", " 1", "18446744073709551616", "1_000"] {
        assert_eq!(parse_unsigned(bad, u64::MAX), None, "{bad}");
        assert_eq!(bad.parse::<u64>().ok(), None, "{bad}");
    }
    assert_eq!(parse_unsigned("256", 255), None);
    assert_eq!(parse_unsigned("255", 255), Some(255));
}

fn ib_probe(name: &str, topology: &str, first_index: &str) -> IbTxtProbe {
    IbTxtProbe {
        file_name: name.to_string(),
        path_known: true,
        header: Ok(IbTxtHeader { topology: topology.to_string(), first_index: first_index.to_string() }),
    }
}

#[test]
fn first_index_table_orders_trianglelist_submeshes() {
    let probes = vec![
        ib_probe("000020-ib.txt", "trianglelist", "300"),
        ib_probe("000021-ib.txt", "trianglestrip", "0"),
        ib_probe("000022-ib.txt", "trianglelist", "0"),
        ib_probe("", "trianglelist", "5"),
        ib_probe("000024-ib.txt", "trianglelist", "300"),
        ib_probe("000025-ib.txt", "trianglelist", "x"),
    ];
    let table = match_first_index_table(&probes).unwrap();
    assert_eq!(table, vec![(0, "000025-ib.txt".to_string()), (300, "000024-ib.txt".to_string())]);
    let broken = vec![
        ib_probe("000020-ib.txt", "trianglelist", "300"),
        IbTxtProbe { file_name: "000021-ib.txt".to_string(), path_known: true, header: Err("no header".to_string()) },
    ];
    assert_eq!(match_first_index_table(&broken), Err("no header".to_string()));
    let unknown_path = vec![IbTxtProbe { file_name: "000021-ib.txt".to_string(), path_known: false, header: Err("no header".to_string()) }];
    assert_eq!(match_first_index_table(&unknown_path), Ok(vec![]));
}

#[test]
fn submesh_plan_names_every_file() {
    let ty = character_type("CAMI_Body", false, 20);
    let plan = ty.plan_submesh("f4dca227", "72903", "41742");
    assert_eq!(plan.folder_name, "f4dca227-72903-41742");
    assert_eq!(plan.game_type_folder, "TYPE_CAMI_Body");
    assert_eq!(plan.ib_file_name, "f4dca227-72903-41742.ib");
    assert_eq!(plan.ib_first_index, 41742);
    assert_eq!(
        plan.category_buffer_files,
        strings(&["f4dca227-72903-41742-Position.buf", "f4dca227-72903-41742-Blend.buf"])
    );
    assert_eq!(plan.json_file_name, "f4dca227-72903-41742.json");
    let unreadable = ty.plan_submesh("f4dca227", "3", "x");
    assert_eq!(unreadable.ib_first_index, 0);
    assert_eq!(unreadable.folder_name, "f4dca227-3-x");
}

#[test]
fn elements_of_a_category_in_order() {
    let cats = vec![
        Some("Position".to_string()),
        Some("Blend".to_string()),
        None,
        Some("Position".to_string()),
    ];
    assert_eq!(submesh_elements_for_category(&cats, "Position"), vec![0, 3]);
    assert_eq!(submesh_elements_for_category(&cats, "Blend"), vec![1]);
    assert_eq!(submesh_elements_for_category(&cats, "Color"), Vec::<usize>::new());
}
