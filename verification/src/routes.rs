//! The trading agent's hub routes: a flagship shuttles between a hub town and a
//! satellite town, unloading and repairing at the hub, loading what the
//! satellite lacks, filling the satellite's office up and bringing its surplus
//! back.
use vstd::prelude::*;

verus! {

/// The merchant whose ships and offices the agent runs.
pub const AGENT_MERCHANT_INDEX: u8 = 0x24;

/// The configured routes, as read from the agent's configuration file.
#[derive(Debug)]
pub struct P3AgentConfiguration {
    pub hub_routes: Vec<HubRouteConfiguration>,
}

/// One configured route: town names of the hub and of the satellite.
#[derive(Clone, Debug)]
pub struct HubRouteConfiguration {
    pub hub: String,
    pub satellite: String,
}

/// What a route's flagship does at its next stop.
#[derive(Debug, Clone, Copy, PartialEq, Eq, Structural)]
pub enum NextAction {
    HubUnload,
    HubLoad,
    Satellite,
}

/// A running route between two towns.
#[derive(Debug)]
pub struct HubRoute {
    pub hub_index: u8,
    pub satellite_index: u8,
    pub next_action: NextAction,
}

#[verifier::external_type_specification]
#[verifier::external_body]
pub struct ExTomlError(toml::de::Error);

/// Why a configured route could not be set up.
#[derive(Debug)]
pub enum LoadRouteError {
    FileError(std::io::Error),
    TomlError(toml::de::Error),
    InvalidTown(String),
    UnknownShip(String),
}

/// All running routes.
#[derive(Debug)]
pub struct RoutesContext {
    pub hub_routes: Vec<HubRoute>,
}

/// An order that a route gives to the game.
#[derive(Debug, Clone, PartialEq, Eq, Structural)]
pub enum RouteOperation {
    MoveWaresConvoy { raw_amount: i32, convoy_index: u16, ware: usize, merchant_index: u8, to_ship: bool },
    RepairConvoy { convoy_index: u32 },
    MoveShipToTown { ship_index: u32, town_index: u8 },
}

/// Daily consumption and production of a town and of the agent's office there,
/// per ware.
#[derive(Debug, Clone, Copy)]
pub struct TownStatistics {
    pub daily_consumptions_citizens: [i32; 24],
    pub daily_consumptions_town_businesses: [i32; 24],
    pub daily_consumptions_merchant_businesses: [i32; 24],
    pub daily_production_town: [i32; 24],
    pub daily_production_merchant: [i32; 24],
}

/// Division rounding towards zero, as Rust's `/` on integers.
pub open spec fn trunc_div(a: int, b: int) -> int {
    if a >= 0 {
        a / b
    } else {
        -((-a) / b)
    }
}

/// Whether `v` is representable as an `i32`.
pub open spec fn in_i32(v: int) -> bool {
    i32::MIN <= v <= i32::MAX
}

impl TownStatistics {
    pub open spec fn consumption_sum(&self, ware: int) -> int {
        self.daily_consumptions_citizens@[ware] + self.daily_consumptions_town_businesses@[ware]
            + self.daily_consumptions_merchant_businesses@[ware]
    }

    pub open spec fn production_sum(&self, ware: int) -> int {
        self.daily_production_town@[ware] + self.daily_production_merchant@[ware]
    }

    /// The weekly consumption of `ware` in units of `scaling`, rounded towards 0.
    pub open spec fn weekly_consumption(&self, ware: int, scaling: int) -> int {
        trunc_div(self.consumption_sum(ware) * 7, scaling)
    }

    /// The weekly production of `ware` in units of `scaling`, rounded towards 0.
    pub open spec fn weekly_production(&self, ware: int, scaling: int) -> int {
        trunc_div(self.production_sum(ware) * 7, scaling)
    }

    /// Whether computing the weekly figures of `ware` stays within `i32`.
    pub open spec fn weekly_fits(&self, ware: int) -> bool {
        &&& in_i32(self.daily_consumptions_citizens@[ware] + self.daily_consumptions_town_businesses@[ware])
        &&& in_i32(self.consumption_sum(ware))
        &&& in_i32(self.consumption_sum(ware) * 7)
        &&& in_i32(self.production_sum(ware))
        &&& in_i32(self.production_sum(ware) * 7)
    }

    /// The weekly consumption of a ware (citizens, town businesses and the
    /// office's businesses), in units of the ware's `scaling`.
    pub fn get_weekly_consumption_rounded(&self, ware: usize, scaling: i32) -> (r: i32)
        requires
            ware < 24,
            scaling > 0,
            self.weekly_fits(ware as int),
        ensures
            r == self.weekly_consumption(ware as int, scaling as int),
    {
        let total = (self.daily_consumptions_citizens[ware] + self.daily_consumptions_town_businesses[ware]
            + self.daily_consumptions_merchant_businesses[ware]) * 7;
        total / scaling
    }

    /// The weekly production of a ware (town and office), in units of the ware's
    /// `scaling`.
    pub fn get_weekly_production_rounded(&self, ware: usize, scaling: i32) -> (r: i32)
        requires
            ware < 24,
            scaling > 0,
            self.weekly_fits(ware as int),
        ensures
            r == self.weekly_production(ware as int, scaling as int),
    {
        (self.daily_production_town[ware] + self.daily_production_merchant[ware]) * 7 / scaling
    }
}

} // verus!

verus! {

/// A ware as the routes iterate over them: its index in the statistics and the
/// number of raw units that make one unit of it.
#[derive(Debug, Clone, Copy)]
pub struct WareInfo {
    pub ware: usize,
    pub scaling: i32,
}

/// What the agent reads from the game about a route's flagship before it ticks
/// the route. The offices are the agent's offices in the hub and the satellite
/// (`None` where it has none); their stocks are raw amounts per ware index.
#[derive(Debug)]
pub struct RouteObservation {
    pub ship_index: u16,
    pub convoy_index: u16,
    pub convoy_status: u32,
    pub ship_status: u32,
    pub last_town_index: Option<u8>,
    pub destination_town_index: Option<u8>,
    pub current_health: i32,
    pub max_health: i32,
    pub wares: Vec<WareInfo>,
    pub satellite_statistics: Option<TownStatistics>,
    pub hub_office_wares: Option<[i32; 24]>,
    pub satellite_office_wares: Option<[i32; 24]>,
}

/// Whether the per-ware figures of `w` can be computed at all.
pub open spec fn ware_ok(stats: TownStatistics, w: WareInfo) -> bool {
    &&& w.ware < 24
    &&& w.scaling > 0
    &&& stats.weekly_fits(w.ware as int)
}

/// The amount of `w` that the flagship loads at the hub: what the satellite
/// lacks per week, as far as the hub office has more than twice that in stock.
pub open spec fn hub_load_amount(stats: TownStatistics, hub: [i32; 24], w: WareInfo) -> int {
    let cons = stats.weekly_consumption(w.ware as int, w.scaling as int);
    let prod = stats.weekly_production(w.ware as int, w.scaling as int);
    let desired = cons - prod;
    let locked = 2 * desired;
    let office = trunc_div(hub@[w.ware as int] as int, w.scaling as int);
    let available = if office > locked {
        office - locked
    } else {
        0
    };
    if desired > available {
        available
    } else {
        desired
    }
}

/// The order to load `w` at the hub, if any.
pub open spec fn hub_load_op(stats: TownStatistics, hub: [i32; 24], w: WareInfo, convoy: u16) -> Option<RouteOperation> {
    let cons = stats.weekly_consumption(w.ware as int, w.scaling as int);
    let prod = stats.weekly_production(w.ware as int, w.scaling as int);
    let amount = hub_load_amount(stats, hub, w);
    if cons > prod && amount != 0 {
        Some(
            RouteOperation::MoveWaresConvoy {
                raw_amount: (amount * w.scaling) as i32,
                convoy_index: convoy,
                ware: w.ware,
                merchant_index: AGENT_MERCHANT_INDEX,
                to_ship: true,
            },
        )
    } else {
        None
    }
}

/// Whether computing the hub load of `w` stays within `i32`.
pub open spec fn hub_load_fits(stats: TownStatistics, hub: [i32; 24], w: WareInfo) -> bool {
    let cons = stats.weekly_consumption(w.ware as int, w.scaling as int);
    let prod = stats.weekly_production(w.ware as int, w.scaling as int);
    &&& ware_ok(stats, w)
    &&& cons > prod ==> {
        &&& in_i32(cons - prod)
        &&& in_i32(2 * (cons - prod))
        &&& in_i32(hub_load_amount(stats, hub, w) * w.scaling)
    }
}

/// The order to unload `w` into the satellite's office, if it holds less than
/// twice the weekly shortfall.
pub open spec fn satellite_fill_op(stats: TownStatistics, office: [i32; 24], w: WareInfo, convoy: u16) -> Option<RouteOperation> {
    let cons = stats.weekly_consumption(w.ware as int, w.scaling as int);
    let prod = stats.weekly_production(w.ware as int, w.scaling as int);
    let desired_level = 2 * (cons - prod);
    let office_ware = trunc_div(office@[w.ware as int] as int, w.scaling as int);
    if cons > prod && desired_level > office_ware {
        Some(
            RouteOperation::MoveWaresConvoy {
                raw_amount: ((desired_level - office_ware) * w.scaling) as i32,
                convoy_index: convoy,
                ware: w.ware,
                merchant_index: AGENT_MERCHANT_INDEX,
                to_ship: false,
            },
        )
    } else {
        None
    }
}

/// Whether computing the satellite fill of `w` stays within `i32`.
pub open spec fn satellite_fill_fits(stats: TownStatistics, office: [i32; 24], w: WareInfo) -> bool {
    let cons = stats.weekly_consumption(w.ware as int, w.scaling as int);
    let prod = stats.weekly_production(w.ware as int, w.scaling as int);
    let desired_level = 2 * (cons - prod);
    let office_ware = trunc_div(office@[w.ware as int] as int, w.scaling as int);
    &&& ware_ok(stats, w)
    &&& cons > prod ==> {
        &&& in_i32(cons - prod)
        &&& in_i32(desired_level)
        &&& (desired_level > office_ware ==> in_i32(desired_level - office_ware) && in_i32(
            (desired_level - office_ware) * w.scaling,
        ))
    }
}

/// The order to load all of `w` at the satellite, if the satellite produces at
/// least what it consumes.
pub open spec fn satellite_load_op(stats: TownStatistics, w: WareInfo, convoy: u16) -> Option<RouteOperation> {
    let cons = stats.weekly_consumption(w.ware as int, w.scaling as int);
    let prod = stats.weekly_production(w.ware as int, w.scaling as int);
    if prod >= cons {
        Some(
            RouteOperation::MoveWaresConvoy {
                raw_amount: (999999 * w.scaling) as i32,
                convoy_index: convoy,
                ware: w.ware,
                merchant_index: AGENT_MERCHANT_INDEX,
                to_ship: true,
            },
        )
    } else {
        None
    }
}

/// The order to unload all of `w` at the hub.
pub open spec fn hub_unload_op(w: WareInfo, convoy: u16) -> RouteOperation {
    RouteOperation::MoveWaresConvoy {
        raw_amount: ((i32::MAX / w.scaling) * w.scaling) as i32,
        convoy_index: convoy,
        ware: w.ware,
        merchant_index: AGENT_MERCHANT_INDEX,
        to_ship: false,
    }
}

pub open spec fn opt_seq(o: Option<RouteOperation>) -> Seq<RouteOperation> {
    match o {
        Some(op) => seq![op],
        None => Seq::empty(),
    }
}

pub open spec fn hub_unload_ops(wares: Seq<WareInfo>, convoy: u16) -> Seq<RouteOperation>
    decreases wares.len(),
{
    if wares.len() == 0 {
        Seq::empty()
    } else {
        hub_unload_ops(wares.drop_last(), convoy).push(hub_unload_op(wares.last(), convoy))
    }
}

pub open spec fn hub_load_ops(stats: TownStatistics, hub: [i32; 24], wares: Seq<WareInfo>, convoy: u16) -> Seq<RouteOperation>
    decreases wares.len(),
{
    if wares.len() == 0 {
        Seq::empty()
    } else {
        hub_load_ops(stats, hub, wares.drop_last(), convoy) + opt_seq(hub_load_op(stats, hub, wares.last(), convoy))
    }
}

pub open spec fn satellite_fill_ops(stats: TownStatistics, office: [i32; 24], wares: Seq<WareInfo>, convoy: u16) -> Seq<RouteOperation>
    decreases wares.len(),
{
    if wares.len() == 0 {
        Seq::empty()
    } else {
        satellite_fill_ops(stats, office, wares.drop_last(), convoy) + opt_seq(
            satellite_fill_op(stats, office, wares.last(), convoy),
        )
    }
}

pub open spec fn satellite_load_ops(stats: TownStatistics, wares: Seq<WareInfo>, convoy: u16) -> Seq<RouteOperation>
    decreases wares.len(),
{
    if wares.len() == 0 {
        Seq::empty()
    } else {
        satellite_load_ops(stats, wares.drop_last(), convoy) + opt_seq(satellite_load_op(stats, wares.last(), convoy))
    }
}

} // verus!

verus! {

fn hub_unload_orders(wares: &Vec<WareInfo>, convoy: u16) -> (ops: Vec<RouteOperation>)
    requires
        forall|k: int| 0 <= k < wares@.len() ==> (#[trigger] wares@[k]).scaling > 0,
    ensures
        ops@ == hub_unload_ops(wares@, convoy),
{
    let mut ops: Vec<RouteOperation> = vec![];
    let mut k: usize = 0;
    while k < wares.len()
        invariant
            k <= wares@.len(),
            forall|k: int| 0 <= k < wares@.len() ==> (#[trigger] wares@[k]).scaling > 0,
            ops@ == hub_unload_ops(wares@.take(k as int), convoy),
        decreases wares@.len() - k,
    {
        let w = wares[k];
        proof {
            let sc = w.scaling as int;
            assert(0 <= (0x7fff_ffffint / sc) * sc <= 0x7fff_ffffint) by (nonlinear_arith)
                requires
                    sc > 0,
            ;
        }
        ops.push(RouteOperation::MoveWaresConvoy {
            raw_amount: (i32::MAX / w.scaling) * w.scaling,
            convoy_index: convoy,
            ware: w.ware,
            merchant_index: AGENT_MERCHANT_INDEX,
            to_ship: false,
        });
        assert(wares@.take(k + 1).drop_last() =~= wares@.take(k as int));
        k += 1;
    }
    assert(wares@.take(wares@.len() as int) =~= wares@);
    ops
}

fn hub_load_orders(stats: &TownStatistics, hub: &[i32; 24], wares: &Vec<WareInfo>, convoy: u16) -> (ops: Vec<RouteOperation>)
    requires
        forall|k: int| 0 <= k < wares@.len() ==> hub_load_fits(*stats, *hub, #[trigger] wares@[k]),
    ensures
        ops@ == hub_load_ops(*stats, *hub, wares@, convoy),
{
    let mut ops: Vec<RouteOperation> = vec![];
    let mut k: usize = 0;
    while k < wares.len()
        invariant
            k <= wares@.len(),
            forall|k: int| 0 <= k < wares@.len() ==> hub_load_fits(*stats, *hub, #[trigger] wares@[k]),
            ops@ == hub_load_ops(*stats, *hub, wares@.take(k as int), convoy),
        decreases wares@.len() - k,
    {
        let w = wares[k];
        assert(hub_load_fits(*stats, *hub, w));
        let ghost before = ops@;
        let weekly_consumption = stats.get_weekly_consumption_rounded(w.ware, w.scaling);
        let weekly_production = stats.get_weekly_production_rounded(w.ware, w.scaling);
        if weekly_consumption > weekly_production {
            let desired_amount = weekly_consumption - weekly_production;
            let locked_amount = 2 * desired_amount;
            let office_ware = hub[w.ware] / w.scaling;
            let available_amount = if office_ware > locked_amount { office_ware - locked_amount } else { 0 };
            let amount = if desired_amount > available_amount { available_amount } else { desired_amount };
            if amount != 0 {
                ops.push(RouteOperation::MoveWaresConvoy {
                    raw_amount: amount * w.scaling,
                    convoy_index: convoy,
                    ware: w.ware,
                    merchant_index: AGENT_MERCHANT_INDEX,
                    to_ship: true,
                });
            }
        }
        assert(wares@.take(k + 1).drop_last() =~= wares@.take(k as int));
        assert(ops@ =~= before + opt_seq(hub_load_op(*stats, *hub, w, convoy)));
        k += 1;
    }
    assert(wares@.take(wares@.len() as int) =~= wares@);
    ops
}

fn satellite_fill_orders(stats: &TownStatistics, office: &[i32; 24], wares: &Vec<WareInfo>, convoy: u16) -> (ops: Vec<RouteOperation>)
    requires
        forall|k: int| 0 <= k < wares@.len() ==> satellite_fill_fits(*stats, *office, #[trigger] wares@[k]),
    ensures
        ops@ == satellite_fill_ops(*stats, *office, wares@, convoy),
{
    let mut ops: Vec<RouteOperation> = vec![];
    let mut k: usize = 0;
    while k < wares.len()
        invariant
            k <= wares@.len(),
            forall|k: int| 0 <= k < wares@.len() ==> satellite_fill_fits(*stats, *office, #[trigger] wares@[k]),
            ops@ == satellite_fill_ops(*stats, *office, wares@.take(k as int), convoy),
        decreases wares@.len() - k,
    {
        let w = wares[k];
        assert(satellite_fill_fits(*stats, *office, w));
        let ghost before = ops@;
        let weekly_consumption = stats.get_weekly_consumption_rounded(w.ware, w.scaling);
        let weekly_production = stats.get_weekly_production_rounded(w.ware, w.scaling);
        if weekly_consumption > weekly_production {
            let weekly_demand = weekly_consumption - weekly_production;
            let desired_level = 2 * weekly_demand;
            let office_ware = office[w.ware] / w.scaling;
            if desired_level > office_ware {
                let diff = desired_level - office_ware;
                ops.push(RouteOperation::MoveWaresConvoy {
                    raw_amount: diff * w.scaling,
                    convoy_index: convoy,
                    ware: w.ware,
                    merchant_index: AGENT_MERCHANT_INDEX,
                    to_ship: false,
                });
            }
        }
        assert(wares@.take(k + 1).drop_last() =~= wares@.take(k as int));
        assert(ops@ =~= before + opt_seq(satellite_fill_op(*stats, *office, w, convoy)));
        k += 1;
    }
    assert(wares@.take(wares@.len() as int) =~= wares@);
    ops
}

fn satellite_load_orders(stats: &TownStatistics, wares: &Vec<WareInfo>, convoy: u16) -> (ops: Vec<RouteOperation>)
    requires
        forall|k: int|
            0 <= k < wares@.len() ==> ware_ok(*stats, #[trigger] wares@[k]) && in_i32(999999 * wares@[k].scaling),
    ensures
        ops@ == satellite_load_ops(*stats, wares@, convoy),
{
    let mut ops: Vec<RouteOperation> = vec![];
    let mut k: usize = 0;
    while k < wares.len()
        invariant
            k <= wares@.len(),
            forall|k: int|
                0 <= k < wares@.len() ==> ware_ok(*stats, #[trigger] wares@[k]) && in_i32(999999 * wares@[k].scaling),
            ops@ == satellite_load_ops(*stats, wares@.take(k as int), convoy),
        decreases wares@.len() - k,
    {
        let w = wares[k];
        assert(ware_ok(*stats, w) && in_i32(999999 * w.scaling));
        let ghost before = ops@;
        let weekly_consumption = stats.get_weekly_consumption_rounded(w.ware, w.scaling);
        let weekly_production = stats.get_weekly_production_rounded(w.ware, w.scaling);
        if weekly_production >= weekly_consumption {
            ops.push(RouteOperation::MoveWaresConvoy {
                raw_amount: 999999 * w.scaling,
                convoy_index: convoy,
                ware: w.ware,
                merchant_index: AGENT_MERCHANT_INDEX,
                to_ship: true,
            });
        }
        assert(wares@.take(k + 1).drop_last() =~= wares@.take(k as int));
        assert(ops@ =~= before + opt_seq(satellite_load_op(*stats, w, convoy)));
        k += 1;
    }
    assert(wares@.take(wares@.len() as int) =~= wares@);
    ops
}

} // verus!

verus! {

/// Whether the flagship and its convoy lie in port.
pub open spec fn docked(obs: RouteObservation) -> bool {
    obs.convoy_status == 0 && obs.ship_status == 0
}

/// The next action and the orders of one tick of the route from `hub` to
/// `satellite` whose flagship is about to do `action`.
pub open spec fn route_tick(hub: u8, satellite: u8, action: NextAction, obs: RouteObservation) -> (NextAction, Seq<RouteOperation>) {
    let convoy = obs.convoy_index;
    if !docked(obs) {
        (action, Seq::empty())
    } else {
        match action {
            NextAction::HubUnload => {
                if obs.last_town_index.unwrap() != hub {
                    (action, Seq::empty())
                } else {
                    let repair = if obs.current_health != obs.max_health {
                        seq![RouteOperation::RepairConvoy { convoy_index: convoy as u32 }]
                    } else {
                        Seq::empty()
                    };
                    (NextAction::HubLoad, hub_unload_ops(obs.wares@, convoy) + repair)
                }
            },
            NextAction::HubLoad => {
                if obs.last_town_index.unwrap() != hub {
                    (action, Seq::empty())
                } else {
                    (
                        NextAction::Satellite,
                        hub_load_ops(obs.satellite_statistics.unwrap(), obs.hub_office_wares.unwrap(), obs.wares@, convoy).push(
                            RouteOperation::MoveShipToTown { ship_index: obs.ship_index as u32, town_index: satellite },
                        ),
                    )
                }
            },
            NextAction::Satellite => {
                if obs.last_town_index != obs.destination_town_index || obs.last_town_index.unwrap() != satellite {
                    (action, Seq::empty())
                } else {
                    let stats = obs.satellite_statistics.unwrap();
                    (
                        NextAction::HubUnload,
                        (satellite_fill_ops(stats, obs.satellite_office_wares.unwrap(), obs.wares@, convoy)
                            + satellite_load_ops(stats, obs.wares@, convoy)).push(
                            RouteOperation::MoveShipToTown { ship_index: obs.ship_index as u32, town_index: hub },
                        ),
                    )
                }
            },
        }
    }
}

/// Whether one tick of the route reads only what the game has (a last town, the
/// offices and statistics it needs) and keeps its arithmetic within `i32`.
pub open spec fn route_tick_ok(hub: u8, satellite: u8, action: NextAction, obs: RouteObservation) -> bool {
    docked(obs) ==> match action {
        NextAction::HubUnload => {
            &&& obs.last_town_index is Some
            &&& obs.last_town_index == Some(hub) ==> forall|k: int|
                0 <= k < obs.wares@.len() ==> (#[trigger] obs.wares@[k]).scaling > 0
        },
        NextAction::HubLoad => {
            &&& obs.last_town_index is Some
            &&& obs.hub_office_wares is Some
            &&& obs.satellite_statistics is Some
            &&& obs.last_town_index == Some(hub) ==> forall|k: int|
                0 <= k < obs.wares@.len() ==> hub_load_fits(
                    obs.satellite_statistics.unwrap(),
                    obs.hub_office_wares.unwrap(),
                    #[trigger] obs.wares@[k],
                )
        },
        NextAction::Satellite => {
            &&& obs.satellite_office_wares is Some
            &&& obs.satellite_statistics is Some
            &&& obs.last_town_index == obs.destination_town_index ==> obs.last_town_index is Some
            &&& (obs.last_town_index == obs.destination_town_index && obs.last_town_index == Some(satellite))
                ==> forall|k: int|
                0 <= k < obs.wares@.len() ==> {
                    &&& satellite_fill_fits(
                        obs.satellite_statistics.unwrap(),
                        obs.satellite_office_wares.unwrap(),
                        #[trigger] obs.wares@[k],
                    )
                    &&& in_i32(999999 * obs.wares@[k].scaling)
                }
        },
    }
}

impl HubRoute {
    /// One tick of the route: once the flagship and its convoy lie in port, the
    /// orders for the stop it has reached, and the action for the next stop.
    pub fn tick(&mut self, obs: &RouteObservation) -> (ops: Vec<RouteOperation>)
        requires
            route_tick_ok(old(self).hub_index, old(self).satellite_index, old(self).next_action, *obs),
        ensures
            final(self).hub_index == old(self).hub_index,
            final(self).satellite_index == old(self).satellite_index,
            (final(self).next_action, ops@) == route_tick(
                old(self).hub_index,
                old(self).satellite_index,
                old(self).next_action,
                *obs,
            ),
    {
        if obs.convoy_status != 0 {
            return vec![];
        }
        if obs.ship_status != 0 {
            return vec![];
        }
        match self.next_action {
            NextAction::HubUnload => self.handle_hub_unload(obs),
            NextAction::HubLoad => self.handle_hub_load(obs),
            NextAction::Satellite => self.handle_satellite(obs),
        }
    }

    fn handle_hub_unload(&mut self, obs: &RouteObservation) -> (ops: Vec<RouteOperation>)
        requires
            old(self).next_action == NextAction::HubUnload,
            docked(*obs),
            route_tick_ok(old(self).hub_index, old(self).satellite_index, old(self).next_action, *obs),
        ensures
            final(self).hub_index == old(self).hub_index,
            final(self).satellite_index == old(self).satellite_index,
            (final(self).next_action, ops@) == route_tick(
                old(self).hub_index,
                old(self).satellite_index,
                old(self).next_action,
                *obs,
            ),
    {
        let last_town = match obs.last_town_index {
            Some(t) => t,
            None => {
                return vec![];
            },
        };
        if last_town != self.hub_index {
            return vec![];
        }
        let mut ops = hub_unload_orders(&obs.wares, obs.convoy_index);
        if obs.current_health != obs.max_health {
            ops.push(RouteOperation::RepairConvoy { convoy_index: obs.convoy_index as u32 });
        }
        self.next_action = NextAction::HubLoad;
        assert(ops@ =~= route_tick(self.hub_index, self.satellite_index, NextAction::HubUnload, *obs).1);
        ops
    }

    fn handle_hub_load(&mut self, obs: &RouteObservation) -> (ops: Vec<RouteOperation>)
        requires
            old(self).next_action == NextAction::HubLoad,
            docked(*obs),
            route_tick_ok(old(self).hub_index, old(self).satellite_index, old(self).next_action, *obs),
        ensures
            final(self).hub_index == old(self).hub_index,
            final(self).satellite_index == old(self).satellite_index,
            (final(self).next_action, ops@) == route_tick(
                old(self).hub_index,
                old(self).satellite_index,
                old(self).next_action,
                *obs,
            ),
    {
        let current_town = match obs.last_town_index {
            Some(t) => t,
            None => {
                return vec![];
            },
        };
        let hub_office = match &obs.hub_office_wares {
            Some(o) => o,
            None => {
                return vec![];
            },
        };
        let satellite_statistics = match &obs.satellite_statistics {
            Some(s) => s,
            None => {
                return vec![];
            },
        };
        if current_town != self.hub_index {
            return vec![];
        }
        let mut ops = hub_load_orders(satellite_statistics, hub_office, &obs.wares, obs.convoy_index);
        ops.push(RouteOperation::MoveShipToTown { ship_index: obs.ship_index as u32, town_index: self.satellite_index });
        self.next_action = NextAction::Satellite;
        ops
    }

    fn handle_satellite(&mut self, obs: &RouteObservation) -> (ops: Vec<RouteOperation>)
        requires
            old(self).next_action == NextAction::Satellite,
            docked(*obs),
            route_tick_ok(old(self).hub_index, old(self).satellite_index, old(self).next_action, *obs),
        ensures
            final(self).hub_index == old(self).hub_index,
            final(self).satellite_index == old(self).satellite_index,
            (final(self).next_action, ops@) == route_tick(
                old(self).hub_index,
                old(self).satellite_index,
                old(self).next_action,
                *obs,
            ),
    {
        let satellite_office = match &obs.satellite_office_wares {
            Some(o) => o,
            None => {
                return vec![];
            },
        };
        let satellite_statistics = match &obs.satellite_statistics {
            Some(s) => s,
            None => {
                return vec![];
            },
        };
        if obs.last_town_index != obs.destination_town_index {
            return vec![];
        }
        let last_town = match obs.last_town_index {
            Some(t) => t,
            None => {
                return vec![];
            },
        };
        if last_town != self.satellite_index {
            return vec![];
        }
        let mut ops = satellite_fill_orders(satellite_statistics, satellite_office, &obs.wares, obs.convoy_index);
        let mut load = satellite_load_orders(satellite_statistics, &obs.wares, obs.convoy_index);
        ops.append(&mut load);
        ops.push(RouteOperation::MoveShipToTown { ship_index: obs.ship_index as u32, town_index: self.hub_index });
        self.next_action = NextAction::HubUnload;
        ops
    }
}

} // verus!

verus! {

/// The action that follows `action` on a route.
pub open spec fn successor(action: NextAction) -> NextAction {
    match action {
        NextAction::HubUnload => NextAction::HubLoad,
        NextAction::HubLoad => NextAction::Satellite,
        NextAction::Satellite => NextAction::HubUnload,
    }
}

/// The first action of a new route and the town its flagship is sent to: the
/// satellite if it is already heading there, the hub otherwise.
pub open spec fn route_start(hub: u8, satellite: u8, destination: Option<u8>) -> (NextAction, u8) {
    match destination {
        Some(d) => if d == hub {
            (NextAction::HubUnload, hub)
        } else if d == satellite {
            (NextAction::Satellite, satellite)
        } else {
            (NextAction::HubUnload, hub)
        },
        None => (NextAction::HubUnload, hub),
    }
}

impl HubRoute {
    /// Starts a route whose flagship is `ship_index`, given where the ship is
    /// heading: the route takes over the ship's current voyage if it leads to the
    /// hub or the satellite, and sends it to the hub otherwise.
    pub fn start(hub_index: u8, satellite_index: u8, ship_index: u16, destination_town: Option<u8>) -> (res: (
        HubRoute,
        RouteOperation,
    ))
        ensures
            res.0.hub_index == hub_index,
            res.0.satellite_index == satellite_index,
            (res.0.next_action, res.1) == ({
                let (a, t) = route_start(hub_index, satellite_index, destination_town);
                (a, RouteOperation::MoveShipToTown { ship_index: ship_index as u32, town_index: t })
            }),
    {
        let (next_action, town_index) = match destination_town {
            Some(destination) => {
                if destination == hub_index {
                    (NextAction::HubUnload, hub_index)
                } else if destination == satellite_index {
                    (NextAction::Satellite, satellite_index)
                } else {
                    (NextAction::HubUnload, hub_index)
                }
            },
            None => (NextAction::HubUnload, hub_index),
        };
        (
            HubRoute { hub_index, satellite_index, next_action },
            RouteOperation::MoveShipToTown { ship_index: ship_index as u32, town_index },
        )
    }
}

/// Sets up the route that `config` describes from what the game knows of it:
/// the indices of its hub and satellite towns (`None` where the configured name
/// is not a town), the name of its flagship, and the flagship's index and
/// destination (`None` if the agent has no ship of that name). The route then
/// takes the flagship over as `HubRoute::start` does; the order returned is the
/// one that sends the flagship on its way.
pub fn create_route(
    config: &HubRouteConfiguration,
    hub_index: Option<u8>,
    satellite_index: Option<u8>,
    flagship_name: &String,
    flagship: Option<(u16, Option<u8>)>,
) -> (res: Result<(HubRoute, RouteOperation), LoadRouteError>)
    ensures
        hub_index is None ==> (res matches Err(LoadRouteError::InvalidTown(t)) && t@ == config.hub@),
        (hub_index is Some && satellite_index is None) ==> (res matches Err(LoadRouteError::InvalidTown(t))
            && t@ == config.satellite@),
        (hub_index is Some && satellite_index is Some && flagship is None) ==> (res matches Err(
            LoadRouteError::UnknownShip(n),
        ) && n@ == flagship_name@),
        (hub_index is Some && satellite_index is Some && flagship is Some) ==> (res matches Ok((route, op))
            && route.hub_index == hub_index.unwrap() && route.satellite_index == satellite_index.unwrap() && (
            route.next_action,
            op,
        ) == ({
            let (a, t) = route_start(hub_index.unwrap(), satellite_index.unwrap(), flagship.unwrap().1);
            (a, RouteOperation::MoveShipToTown { ship_index: flagship.unwrap().0 as u32, town_index: t })
        })),
{
    let hub = match hub_index {
        Some(h) => h,
        None => {
            return Err(LoadRouteError::InvalidTown(config.hub.clone()));
        },
    };
    let satellite = match satellite_index {
        Some(s) => s,
        None => {
            return Err(LoadRouteError::InvalidTown(config.satellite.clone()));
        },
    };
    match flagship {
        Some((ship_index, destination)) => Ok(HubRoute::start(hub, satellite, ship_index, destination)),
        None => Err(LoadRouteError::UnknownShip(flagship_name.clone())),
    }
}

/// A tick either leaves the route's action as it is, giving no orders, or moves
/// it on to its successor, the last order then sending the flagship to the
/// town of the next stop (the satellite after loading at the hub, the hub after
/// the satellite); a convoy that is not in port gets no orders.
pub proof fn lemma_route_cycle(hub: u8, satellite: u8, action: NextAction, obs: RouteObservation)
    ensures
        ({
            let (next, ops) = route_tick(hub, satellite, action, obs);
            &&& next == action ==> ops.len() == 0
            &&& next != action ==> next == successor(action)
            &&& !docked(obs) ==> next == action && ops.len() == 0
            &&& (next != action && action == NextAction::HubLoad) ==> ops.last()
                == RouteOperation::MoveShipToTown { ship_index: obs.ship_index as u32, town_index: satellite }
            &&& (next != action && action == NextAction::Satellite) ==> ops.last()
                == RouteOperation::MoveShipToTown { ship_index: obs.ship_index as u32, town_index: hub }
        }),
{
}

} // verus!

verus! {

/// Whether `v` fits in an `i32`.
fn fits_i32(v: i64) -> (r: bool)
    ensures
        r == in_i32(v as int),
{
    -2147483648 <= v && v <= 2147483647
}

/// Whether the weekly figures of `ware` can be computed within `i32`.
fn weekly_fits_check(stats: &TownStatistics, ware: usize) -> (r: bool)
    requires
        ware < 24,
    ensures
        r == stats.weekly_fits(ware as int),
{
    let a = stats.daily_consumptions_citizens[ware] as i64 + stats.daily_consumptions_town_businesses[ware] as i64;
    let c = a + stats.daily_consumptions_merchant_businesses[ware] as i64;
    let p = stats.daily_production_town[ware] as i64 + stats.daily_production_merchant[ware] as i64;
    fits_i32(a) && fits_i32(c) && fits_i32(c * 7) && fits_i32(p) && fits_i32(p * 7)
}

/// Whether the per-ware figures of `w` can be computed at all.
fn ware_ok_check(stats: &TownStatistics, w: &WareInfo) -> (r: bool)
    ensures
        r == ware_ok(*stats, *w),
{
    w.ware < 24 && w.scaling > 0 && weekly_fits_check(stats, w.ware)
}

/// Whether loading `w` at the hub stays within `i32`.
fn hub_load_fits_check(stats: &TownStatistics, hub: &[i32; 24], w: &WareInfo) -> (r: bool)
    ensures
        r == hub_load_fits(*stats, *hub, *w),
{
    if !ware_ok_check(stats, w) {
        return false;
    }
    let cons = stats.get_weekly_consumption_rounded(w.ware, w.scaling) as i64;
    let prod = stats.get_weekly_production_rounded(w.ware, w.scaling) as i64;
    if cons <= prod {
        return true;
    }
    let desired = cons - prod;
    if !fits_i32(desired) || !fits_i32(2 * desired) {
        return false;
    }
    let locked = 2 * desired;
    let office = (hub[w.ware] / w.scaling) as i64;
    let available = if office > locked { office - locked } else { 0 };
    let amount = if desired > available { available } else { desired };
    assert(amount == hub_load_amount(*stats, *hub, *w));
    let scaling = w.scaling as i64;
    assert(0 <= amount * scaling <= 0x7fff_ffff * 0x7fff_ffff) by (nonlinear_arith)
        requires
            0 <= amount <= 0x7fff_ffff,
            0 < scaling <= 0x7fff_ffff,
    ;
    fits_i32(amount * scaling)
}

/// Whether filling the satellite's office with `w` stays within `i32`.
fn satellite_fill_fits_check(stats: &TownStatistics, office: &[i32; 24], w: &WareInfo) -> (r: bool)
    ensures
        r == satellite_fill_fits(*stats, *office, *w),
{
    if !ware_ok_check(stats, w) {
        return false;
    }
    let cons = stats.get_weekly_consumption_rounded(w.ware, w.scaling) as i64;
    let prod = stats.get_weekly_production_rounded(w.ware, w.scaling) as i64;
    if cons <= prod {
        return true;
    }
    let demand = cons - prod;
    if !fits_i32(demand) || !fits_i32(2 * demand) {
        return false;
    }
    let desired_level = 2 * demand;
    let office_ware = (office[w.ware] / w.scaling) as i64;
    if desired_level <= office_ware {
        return true;
    }
    let diff = desired_level - office_ware;
    if !fits_i32(diff) {
        return false;
    }
    let scaling = w.scaling as i64;
    assert(0 <= diff * scaling <= 0x7fff_ffff * 0x7fff_ffff) by (nonlinear_arith)
        requires
            0 <= diff <= 0x7fff_ffff,
            0 < scaling <= 0x7fff_ffff,
    ;
    fits_i32(diff * scaling)
}

/// Whether loading all of `w` at the satellite and filling its office stay
/// within `i32`.
fn satellite_ware_fits_check(stats: &TownStatistics, office: &[i32; 24], w: &WareInfo) -> (r: bool)
    ensures
        r == (satellite_fill_fits(*stats, *office, *w) && in_i32(999999 * w.scaling)),
{
    satellite_fill_fits_check(stats, office, w) && fits_i32(999999 * w.scaling as i64)
}

/// Whether one tick of `route` on the observation `obs` reads only what the game
/// has and keeps its arithmetic within `i32` (`route_tick_ok`), so that
/// `HubRoute::tick` may be called.
pub fn route_tick_is_ok(route: &HubRoute, obs: &RouteObservation) -> (r: bool)
    ensures
        r == route_tick_ok(route.hub_index, route.satellite_index, route.next_action, *obs),
{
    if obs.convoy_status != 0 || obs.ship_status != 0 {
        return true;
    }
    let wares = &obs.wares;
    match route.next_action {
        NextAction::HubUnload => {
            let last = match obs.last_town_index {
                None => {
                    return false;
                },
                Some(t) => t,
            };
            if last != route.hub_index {
                return true;
            }
            let mut k: usize = 0;
            while k < wares.len()
                invariant
                    k <= wares@.len(),
                    wares@ == obs.wares@,
                    docked(*obs),
                    route.next_action == NextAction::HubUnload,
                    obs.last_town_index == Some(route.hub_index),
                    forall|j: int| 0 <= j < k ==> (#[trigger] wares@[j]).scaling > 0,
                decreases wares@.len() - k,
            {
                if wares[k].scaling <= 0 {
                    assert(!(wares@[k as int].scaling > 0));
                    return false;
                }
                k += 1;
            }
            true
        },
        NextAction::HubLoad => {
            let last = match obs.last_town_index {
                None => {
                    return false;
                },
                Some(t) => t,
            };
            let hub = match &obs.hub_office_wares {
                None => {
                    return false;
                },
                Some(h) => h,
            };
            let stats = match &obs.satellite_statistics {
                None => {
                    return false;
                },
                Some(s) => s,
            };
            if last != route.hub_index {
                return true;
            }
            let mut k: usize = 0;
            while k < wares.len()
                invariant
                    k <= wares@.len(),
                    wares@ == obs.wares@,
                    docked(*obs),
                    route.next_action == NextAction::HubLoad,
                    obs.last_town_index == Some(route.hub_index),
                    obs.hub_office_wares == Some(*hub),
                    obs.satellite_statistics == Some(*stats),
                    forall|j: int| 0 <= j < k ==> hub_load_fits(*stats, *hub, #[trigger] wares@[j]),
                decreases wares@.len() - k,
            {
                if !hub_load_fits_check(stats, hub, &wares[k]) {
                    assert(!hub_load_fits(*stats, *hub, wares@[k as int]));
                    return false;
                }
                k += 1;
            }
            true
        },
        NextAction::Satellite => {
            let office = match &obs.satellite_office_wares {
                None => {
                    return false;
                },
                Some(o) => o,
            };
            let stats = match &obs.satellite_statistics {
                None => {
                    return false;
                },
                Some(s) => s,
            };
            if obs.last_town_index != obs.destination_town_index {
                return true;
            }
            let last = match obs.last_town_index {
                None => {
                    return false;
                },
                Some(t) => t,
            };
            if last != route.satellite_index {
                return true;
            }
            let mut k: usize = 0;
            while k < wares.len()
                invariant
                    k <= wares@.len(),
                    wares@ == obs.wares@,
                    docked(*obs),
                    route.next_action == NextAction::Satellite,
                    obs.last_town_index == obs.destination_town_index,
                    obs.last_town_index == Some(route.satellite_index),
                    obs.satellite_office_wares == Some(*office),
                    obs.satellite_statistics == Some(*stats),
                    forall|j: int|
                        0 <= j < k ==> {
                            &&& satellite_fill_fits(*stats, *office, #[trigger] wares@[j])
                            &&& in_i32(999999 * wares@[j].scaling)
                        },
                decreases wares@.len() - k,
            {
                if !satellite_ware_fits_check(stats, office, &wares[k]) {
                    assert(!(satellite_fill_fits(*stats, *office, wares@[k as int]) && in_i32(
                        999999 * wares@[k as int].scaling,
                    )));
                    return false;
                }
                k += 1;
            }
            true
        },
    }
}

} // verus!

