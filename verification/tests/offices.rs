use p3_lib::mods::AutotradeSettingChange;
use p3_lib::offices::{autotrade_synchronization, office_chain};
use p3_lib::town_hall::{hanseatic_overview, OfficeFigures, TownFigures};

#[test]
fn office_chain_follows_the_links_to_the_end() {
    let next = vec![2, 5, 1, 9];
    assert_eq!(office_chain(&next, 0), vec![0, 2, 1]);
    assert_eq!(office_chain(&next, 3), vec![3]);
    assert_eq!(office_chain(&next, 4), Vec::<u32>::new());
}

#[test]
fn synchronization_skips_the_setting_office() {
    let next = vec![2, 9, 1];
    let mut setting_stock = vec![0; 20];
    let mut setting_prices = vec![0; 20];
    let scalings = vec![1; 20];
    setting_stock[4] = 1;
    setting_prices[4] = 99;
    let stocks = vec![vec![10; 20], vec![11; 20], vec![12; 20]];
    let changes = autotrade_synchronization(&next, 0, 2, &setting_stock, &setting_prices, &scalings, &stocks);
    assert_eq!(
        changes,
        vec![
            AutotradeSettingChange { stock: 10, price: 99, office_index: 0, ware: 4 },
            AutotradeSettingChange { stock: 11, price: 99, office_index: 1, ware: 4 },
        ]
    );
}

fn town(value: i32, first_office: u32) -> TownFigures {
    TownFigures {
        stock: vec![value; 24],
        unknown_stock: vec![1; 24],
        consumption_citizens: vec![value; 24],
        consumption_businesses: vec![2; 24],
        first_office,
    }
}

#[test]
fn overview_sums_towns_and_their_offices() {
    let towns = vec![town(10, 0), town(20, 5)];
    let next_in_town = vec![1, 7];
    let offices = vec![
        OfficeFigures { stock: vec![100; 24], consumption: vec![3; 24] },
        OfficeFigures { stock: vec![1000; 24], consumption: vec![4; 24] },
    ];
    let data = hanseatic_overview(&towns, &next_in_town, &offices);
    assert_eq!(data.len(), 20);
    for (w, d) in data.iter().enumerate() {
        assert_eq!((d.total_wares, d.total_consumption, d.ware), (1132, 41, w));
    }
}
