use p3_lib::loader::{
    export_search_start, export_search_step, module_address, table_entry_address, ExportSearch, DOS_MAGIC,
    NT_SIGNATURE,
};

fn search(names: &[&str], function_name: &str) -> ExportSearch {
    let wanted = function_name.to_string();
    let mut state = export_search_start(names.len() as u32);
    while let ExportSearch::ReadName(i) = state {
        state = export_search_step(i, names.len() as u32, &names[i as usize].to_string(), &wanted);
    }
    state
}

#[test]
fn headers_magic_numbers() {
    assert_eq!(DOS_MAGIC.to_le_bytes(), *b"MZ");
    assert_eq!(NT_SIGNATURE.to_le_bytes(), *b"PE\0\0");
}

#[test]
fn export_table_addresses() {
    assert_eq!(module_address(0x1000_0000, 0x80), 0x1000_0080);
    assert_eq!(table_entry_address(0x1000_0000, 0x2000, 3), 0x1000_200c);
}

#[test]
fn search_finds_the_first_export_of_that_name() {
    assert_eq!(search(&["start", "stop", "tick"], "stop"), ExportSearch::Found(1));
    assert_eq!(search(&["start", "stop", "stop"], "stop"), ExportSearch::Found(1));
    assert_eq!(search(&["start"], "start"), ExportSearch::Found(0));
}

#[test]
fn search_without_a_match() {
    assert_eq!(search(&["start", "stop"], "tick"), ExportSearch::NotFound);
    assert_eq!(search(&[], "start"), ExportSearch::NotFound);
    assert_eq!(export_search_start(0), ExportSearch::NotFound);
    assert_eq!(export_search_start(2), ExportSearch::ReadName(0));
}

#[test]
fn search_step_moves_to_the_next_name() {
    let wanted = "tick".to_string();
    assert_eq!(export_search_step(0, 2, &"start".to_string(), &wanted), ExportSearch::ReadName(1));
    assert_eq!(export_search_step(1, 2, &"stop".to_string(), &wanted), ExportSearch::NotFound);
    assert_eq!(export_search_step(1, 2, &"tick".to_string(), &wanted), ExportSearch::Found(1));
}
