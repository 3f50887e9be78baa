use p3_lib::town_hall::{
    add_office, add_town, effective_production_text, new_hanseatic_data, opens_aldermans_office, row_colors,
    sort_by_ratio, town_hall_page, FacilityId, HanseaticWareData, TownHallPage, COLOR_LOW_CONSUMPTION,
    COLOR_NORMAL, COLOR_SCARCE, COLOR_SPICES, WARE_COUNT, WHALE_OIL_FLAG,
};

fn entry(total_wares: i32, total_consumption: i32, ware: usize) -> HanseaticWareData {
    HanseaticWareData { total_wares, total_consumption, ware }
}

#[test]
fn ratio_is_stock_per_1024_units_of_consumption() {
    assert_eq!(entry(5000, 2048, 0).get_ratio(), 2500);
    assert_eq!(entry(5000, 3000, 0).get_ratio(), 2500);
    assert_eq!(entry(-5000, 2048, 0).get_ratio(), -2500);
    assert_eq!(entry(5000, 1023, 0).get_ratio(), 0);
    assert_eq!(entry(5000, 0, 0).get_ratio(), 0);
}

#[test]
fn new_data_has_twenty_empty_entries() {
    let data = new_hanseatic_data();
    assert_eq!(data.len(), WARE_COUNT);
    for d in &data {
        assert_eq!((d.total_wares, d.total_consumption, d.ware), (0, 0, 0));
    }
}

#[test]
fn add_town_and_office_sum_up_the_figures() {
    let mut data = new_hanseatic_data();
    let stock: Vec<i32> = (0..24).collect();
    let unknown: Vec<i32> = vec![100; 24];
    let citizens: Vec<i32> = vec![2; 24];
    let businesses: Vec<i32> = (0..24).map(|w| w * 10).collect();
    add_town(&mut data, &stock, &unknown, &citizens, &businesses);
    add_town(&mut data, &stock, &unknown, &citizens, &businesses);
    assert_eq!(data.len(), WARE_COUNT);
    assert_eq!((data[5].total_wares, data[5].total_consumption, data[5].ware), (210, 104, 5));
    assert_eq!((data[19].total_wares, data[19].total_consumption, data[19].ware), (238, 384, 19));
    let office_stock: Vec<i32> = vec![7; 24];
    let office_consumption: Vec<i32> = vec![-1; 24];
    add_office(&mut data, &office_stock, &office_consumption);
    assert_eq!((data[5].total_wares, data[5].total_consumption, data[5].ware), (217, 103, 5));
}

#[test]
fn sort_by_ratio_is_stable() {
    let data = vec![
        entry(9000, 1024, 0),
        entry(1000, 1024, 1),
        entry(100, 10, 2),
        entry(1000, 1024, 3),
        entry(0, 0, 4),
    ];
    let sorted = sort_by_ratio(&data);
    let wares: Vec<usize> = sorted.iter().map(|d| d.ware).collect();
    assert_eq!(wares, vec![2, 4, 1, 3, 0]);
}

#[test]
fn row_colors_mark_three_scarce_wares() {
    let rows = vec![
        entry(0, 100, 0),
        entry(0, 2048, 1),
        entry(0, 2048, 2),
        entry(0, 2048, 3),
        entry(0, 2048, 4),
        entry(0, 2048, 5),
    ];
    assert_eq!(
        row_colors(&rows, 9),
        vec![COLOR_LOW_CONSUMPTION, COLOR_SCARCE, COLOR_SCARCE, COLOR_SCARCE, COLOR_NORMAL, COLOR_NORMAL]
    );
    let colors = row_colors(&rows, 2);
    assert_eq!(
        colors,
        vec![COLOR_LOW_CONSUMPTION, COLOR_SCARCE, COLOR_SPICES, COLOR_SCARCE, COLOR_NORMAL, COLOR_NORMAL]
    );
    assert!(colors.iter().filter(|c| **c == COLOR_SCARCE).count() <= 3);
}

#[test]
fn production_text_lists_the_wares() {
    let facilities = [FacilityId::Militia, FacilityId::Brewery, FacilityId::CattleFarm, FacilityId::FishermansHouse];
    assert_eq!(effective_production_text(&facilities, 0), "Beer, Meat, Leather, Fish");
    assert_eq!(effective_production_text(&facilities, WHALE_OIL_FLAG), "Beer, Meat, Leather, Whale Oil");
}

#[test]
fn production_text_of_no_wares_is_empty() {
    assert_eq!(effective_production_text(&[], 0), "");
    assert_eq!(effective_production_text(&[FacilityId::Shipyard, FacilityId::Weaponsmith], 0), "");
}

#[test]
fn town_hall_pages() {
    assert_eq!(town_hall_page(-1), Some(TownHallPage::Details));
    assert_eq!(town_hall_page(7), Some(TownHallPage::AldermansOffice));
    assert_eq!(town_hall_page(0), None);
    assert!(opens_aldermans_office(7));
    assert!(!opens_aldermans_office(6));
}
