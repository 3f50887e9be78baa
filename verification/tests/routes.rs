use p3_lib::routes::{create_route, route_tick_is_ok, HubRouteConfiguration, LoadRouteError, HubRoute, NextAction, RouteObservation, RouteOperation, TownStatistics, WareInfo, AGENT_MERCHANT_INDEX};

fn empty_stats() -> TownStatistics {
    TownStatistics {
        daily_consumptions_citizens: [0; 24],
        daily_consumptions_town_businesses: [0; 24],
        daily_consumptions_merchant_businesses: [0; 24],
        daily_production_town: [0; 24],
        daily_production_merchant: [0; 24],
    }
}

/// Ware 3 (scaling 10): 17 a day consumed, 5 a day produced.
fn sample_stats() -> TownStatistics {
    let mut s = empty_stats();
    s.daily_consumptions_citizens[3] = 10;
    s.daily_consumptions_town_businesses[3] = 5;
    s.daily_consumptions_merchant_businesses[3] = 2;
    s.daily_production_town[3] = 4;
    s.daily_production_merchant[3] = 1;
    s
}

fn sample_wares() -> Vec<WareInfo> {
    vec![WareInfo { ware: 3, scaling: 10 }, WareInfo { ware: 0, scaling: 1 }]
}

fn observation(last: Option<u8>, destination: Option<u8>) -> RouteObservation {
    let mut hub_office = [0; 24];
    hub_office[3] = 300;
    let mut satellite_office = [0; 24];
    satellite_office[3] = 50;
    RouteObservation {
        ship_index: 7,
        convoy_index: 0x12,
        convoy_status: 0,
        ship_status: 0,
        last_town_index: last,
        destination_town_index: destination,
        current_health: 5,
        max_health: 10,
        wares: sample_wares(),
        satellite_statistics: Some(sample_stats()),
        hub_office_wares: Some(hub_office),
        satellite_office_wares: Some(satellite_office),
    }
}

fn route(action: NextAction) -> HubRoute {
    HubRoute { hub_index: 1, satellite_index: 2, next_action: action }
}

#[test]
fn weekly_consumption_and_production_round_towards_zero() {
    let s = sample_stats();
    assert_eq!(s.get_weekly_consumption_rounded(3, 10), 11);
    assert_eq!(s.get_weekly_production_rounded(3, 10), 3);
    assert_eq!(s.get_weekly_consumption_rounded(3, 1), 119);
    let mut n = empty_stats();
    n.daily_production_town[5] = -3;
    assert_eq!(n.get_weekly_production_rounded(5, 10), -2);
}

#[test]
fn tick_does_nothing_while_at_sea() {
    let mut r = route(NextAction::HubUnload);
    let mut obs = observation(Some(1), None);
    obs.convoy_status = 1;
    assert!(r.tick(&obs).is_empty());
    assert_eq!(r.next_action, NextAction::HubUnload);
    let mut obs = observation(Some(1), None);
    obs.ship_status = 2;
    assert!(r.tick(&obs).is_empty());
    assert_eq!(r.next_action, NextAction::HubUnload);
}

#[test]
fn tick_hub_unload_unloads_everything_and_repairs() {
    let mut r = route(NextAction::HubUnload);
    let ops = r.tick(&observation(Some(1), None));
    assert_eq!(
        ops,
        vec![
            RouteOperation::MoveWaresConvoy { raw_amount: 2147483640, convoy_index: 0x12, ware: 3, merchant_index: AGENT_MERCHANT_INDEX, to_ship: false },
            RouteOperation::MoveWaresConvoy { raw_amount: 2147483647, convoy_index: 0x12, ware: 0, merchant_index: 0x24, to_ship: false },
            RouteOperation::RepairConvoy { convoy_index: 0x12 },
        ]
    );
    assert_eq!(r.next_action, NextAction::HubLoad);
}

#[test]
fn tick_hub_unload_without_damage_gives_no_repair() {
    let mut r = route(NextAction::HubUnload);
    let mut obs = observation(Some(1), None);
    obs.current_health = 10;
    let ops = r.tick(&obs);
    assert_eq!(ops.len(), 2);
    assert_eq!(r.next_action, NextAction::HubLoad);
}

#[test]
fn tick_hub_unload_elsewhere_waits() {
    let mut r = route(NextAction::HubUnload);
    assert!(r.tick(&observation(Some(2), None)).is_empty());
    assert_eq!(r.next_action, NextAction::HubUnload);
}

#[test]
fn tick_hub_load_loads_the_shortfall_and_sails() {
    let mut r = route(NextAction::HubLoad);
    let ops = r.tick(&observation(Some(1), None));
    assert_eq!(
        ops,
        vec![
            RouteOperation::MoveWaresConvoy { raw_amount: 80, convoy_index: 0x12, ware: 3, merchant_index: 0x24, to_ship: true },
            RouteOperation::MoveShipToTown { ship_index: 7, town_index: 2 },
        ]
    );
    assert_eq!(r.next_action, NextAction::Satellite);
}

#[test]
fn tick_hub_load_limited_by_the_office_stock() {
    let mut r = route(NextAction::HubLoad);
    let mut obs = observation(Some(1), None);
    let mut hub = [0; 24];
    hub[3] = 200;
    obs.hub_office_wares = Some(hub);
    let ops = r.tick(&obs);
    assert_eq!(
        ops[0],
        RouteOperation::MoveWaresConvoy { raw_amount: 40, convoy_index: 0x12, ware: 3, merchant_index: 0x24, to_ship: true }
    );
    hub[3] = 100;
    obs.hub_office_wares = Some(hub);
    let mut r = route(NextAction::HubLoad);
    let ops = r.tick(&obs);
    assert_eq!(ops, vec![RouteOperation::MoveShipToTown { ship_index: 7, town_index: 2 }]);
}

#[test]
fn tick_satellite_fills_the_office_and_loads_the_surplus() {
    let mut r = route(NextAction::Satellite);
    let ops = r.tick(&observation(Some(2), Some(2)));
    assert_eq!(
        ops,
        vec![
            RouteOperation::MoveWaresConvoy { raw_amount: 110, convoy_index: 0x12, ware: 3, merchant_index: 0x24, to_ship: false },
            RouteOperation::MoveWaresConvoy { raw_amount: 999999, convoy_index: 0x12, ware: 0, merchant_index: 0x24, to_ship: true },
            RouteOperation::MoveShipToTown { ship_index: 7, town_index: 1 },
        ]
    );
    assert_eq!(r.next_action, NextAction::HubUnload);
}

#[test]
fn tick_satellite_waits_until_arrived() {
    let mut r = route(NextAction::Satellite);
    assert!(r.tick(&observation(Some(1), Some(2))).is_empty());
    assert_eq!(r.next_action, NextAction::Satellite);
    assert!(r.tick(&observation(Some(3), Some(3))).is_empty());
    assert_eq!(r.next_action, NextAction::Satellite);
}

#[test]
fn route_cycles_through_its_three_stops() {
    let mut r = route(NextAction::HubUnload);
    r.tick(&observation(Some(1), None));
    assert_eq!(r.next_action, NextAction::HubLoad);
    r.tick(&observation(Some(1), None));
    assert_eq!(r.next_action, NextAction::Satellite);
    let ops = r.tick(&observation(Some(2), Some(2)));
    assert_eq!(r.next_action, NextAction::HubUnload);
    assert_eq!(*ops.last().unwrap(), RouteOperation::MoveShipToTown { ship_index: 7, town_index: 1 });
    assert_eq!(r.hub_index, 1);
    assert_eq!(r.satellite_index, 2);
}

#[test]
fn start_takes_over_the_current_voyage() {
    let (r, op) = HubRoute::start(1, 2, 9, Some(2));
    assert_eq!(r.next_action, NextAction::Satellite);
    assert_eq!(op, RouteOperation::MoveShipToTown { ship_index: 9, town_index: 2 });
    let (r, op) = HubRoute::start(1, 2, 9, Some(1));
    assert_eq!(r.next_action, NextAction::HubUnload);
    assert_eq!(op, RouteOperation::MoveShipToTown { ship_index: 9, town_index: 1 });
}

#[test]
fn start_sends_a_stray_or_idle_ship_to_the_hub() {
    let (r, op) = HubRoute::start(1, 2, 9, Some(5));
    assert_eq!(r.next_action, NextAction::HubUnload);
    assert_eq!(op, RouteOperation::MoveShipToTown { ship_index: 9, town_index: 1 });
    let (r, op) = HubRoute::start(1, 2, 9, None);
    assert_eq!((r.hub_index, r.satellite_index), (1, 2));
    assert_eq!(r.next_action, NextAction::HubUnload);
    assert_eq!(op, RouteOperation::MoveShipToTown { ship_index: 9, town_index: 1 });
}

fn config() -> HubRouteConfiguration {
    HubRouteConfiguration { hub: "Luebeck".to_string(), satellite: "Rostock".to_string() }
}

#[test]
fn create_route_takes_over_the_flagship() {
    let name = "Rostock".to_string();
    let (route, op) = create_route(&config(), Some(1), Some(2), &name, Some((9, Some(2)))).unwrap();
    assert_eq!((route.hub_index, route.satellite_index, route.next_action), (1, 2, NextAction::Satellite));
    assert_eq!(op, RouteOperation::MoveShipToTown { ship_index: 9, town_index: 2 });
    let (route, op) = create_route(&config(), Some(1), Some(2), &name, Some((9, None))).unwrap();
    assert_eq!(route.next_action, NextAction::HubUnload);
    assert_eq!(op, RouteOperation::MoveShipToTown { ship_index: 9, town_index: 1 });
}

#[test]
fn create_route_rejects_unknown_towns_and_ships() {
    let name = "Rostock".to_string();
    assert!(matches!(create_route(&config(), None, Some(2), &name, Some((9, None))), Err(LoadRouteError::InvalidTown(t)) if t == "Luebeck"));
    assert!(matches!(create_route(&config(), Some(1), None, &name, Some((9, None))), Err(LoadRouteError::InvalidTown(t)) if t == "Rostock"));
    assert!(matches!(create_route(&config(), Some(1), Some(2), &name, None), Err(LoadRouteError::UnknownShip(s)) if s == "Rostock"));
}

#[test]
fn sample_ticks_are_computable() {
    assert!(route_tick_is_ok(&route(NextAction::HubUnload), &observation(Some(1), None)));
    assert!(route_tick_is_ok(&route(NextAction::HubLoad), &observation(Some(1), None)));
    assert!(route_tick_is_ok(&route(NextAction::Satellite), &observation(Some(2), Some(2))));
    // elsewhere, nothing is computed
    assert!(route_tick_is_ok(&route(NextAction::HubLoad), &observation(Some(5), None)));
}

#[test]
fn ticks_that_would_fail_are_detected() {
    assert!(!route_tick_is_ok(&route(NextAction::HubUnload), &observation(None, None)));
    let mut obs = observation(Some(1), None);
    obs.hub_office_wares = None;
    assert!(!route_tick_is_ok(&route(NextAction::HubLoad), &obs));
    let mut obs = observation(Some(1), None);
    obs.wares.push(WareInfo { ware: 4, scaling: 0 });
    assert!(!route_tick_is_ok(&route(NextAction::HubUnload), &obs));
    let mut obs = observation(Some(1), None);
    let mut stats = sample_stats();
    stats.daily_consumptions_citizens[3] = i32::MAX;
    obs.satellite_statistics = Some(stats);
    assert!(!route_tick_is_ok(&route(NextAction::HubLoad), &obs));
    let mut obs = observation(Some(2), Some(2));
    obs.wares.push(WareInfo { ware: 5, scaling: 3000 });
    assert!(!route_tick_is_ok(&route(NextAction::Satellite), &obs));
}

#[test]
fn ticks_at_sea_need_nothing() {
    let mut obs = observation(None, None);
    obs.convoy_status = 1;
    obs.hub_office_wares = None;
    obs.satellite_statistics = None;
    assert!(route_tick_is_ok(&route(NextAction::HubLoad), &obs));
}
