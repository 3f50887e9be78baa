//! The town hall's extra pages: the Hanseatic supply overview and the
//! alderman's office details.
use vstd::prelude::*;

use crate::routes::trunc_div;
use vstd::string::StringExecFns;

use crate::offices::{chain_ends, chain_from, lemma_chain_in_range, office_chain, office_chain_spec};

verus! {

/// The number of wares that the supply overview lists.
pub const WARE_COUNT: usize = 20;

/// Stock and daily consumption of one ware, summed over the Hanse.
#[derive(Debug, Clone, Copy)]
pub struct HanseaticWareData {
    pub total_wares: i32,
    pub total_consumption: i32,
    pub ware: usize,
}

impl HanseaticWareData {
    /// How many days of consumption per 1024 units the stock covers; 0 when less
    /// than 1024 units are consumed.
    pub open spec fn ratio(self) -> int {
        if self.total_consumption >= 1024 {
            trunc_div(self.total_wares as int, self.total_consumption / 1024)
        } else {
            0
        }
    }

    /// The ratio of stock to consumption (in units of 1024) that the overview
    /// sorts by.
    pub fn get_ratio(&self) -> (r: i32)
        ensures
            r == self.ratio(),
    {
        if self.total_consumption >= 1024 {
            let c = self.total_consumption;
            assert(c >= 1024 ==> c >> 10 == c / 1024 && c >> 10 >= 1) by (bit_vector);
            self.total_wares / (self.total_consumption >> 10)
        } else {
            0
        }
    }
}

/// The overview's starting point: twenty empty entries.
pub fn new_hanseatic_data() -> (data: Vec<HanseaticWareData>)
    ensures
        data@.len() == WARE_COUNT,
        forall|w: int|
            0 <= w < WARE_COUNT ==> #[trigger] data@[w] == (HanseaticWareData { total_wares: 0, total_consumption: 0, ware: 0 }),
{
    let mut data: Vec<HanseaticWareData> = vec![];
    let mut w: usize = 0;
    while w < WARE_COUNT
        invariant
            w <= WARE_COUNT,
            data@.len() == w,
            forall|v: int|
                0 <= v < w ==> #[trigger] data@[v] == (HanseaticWareData { total_wares: 0, total_consumption: 0, ware: 0 }),
        decreases WARE_COUNT - w,
    {
        data.push(HanseaticWareData { total_wares: 0, total_consumption: 0, ware: 0 });
        w += 1;
    }
    data
}

/// Whether adding a town's figures to the overview stays within `i32`.
pub open spec fn town_fits(
    data: Seq<HanseaticWareData>,
    stock: Seq<i32>,
    unknown_stock: Seq<i32>,
    consumption_citizens: Seq<i32>,
    consumption_businesses: Seq<i32>,
) -> bool {
    forall|w: int|
        0 <= w < WARE_COUNT ==> {
            &&& i32::MIN <= stock[w] + unknown_stock[w] <= i32::MAX
            &&& i32::MIN <= (#[trigger] data[w]).total_wares + (stock[w] + unknown_stock[w]) <= i32::MAX
            &&& i32::MIN <= data[w].total_consumption + consumption_citizens[w] <= i32::MAX
            &&& i32::MIN <= data[w].total_consumption + consumption_citizens[w] + consumption_businesses[w]
                <= i32::MAX
        }
}

/// Adds a town's stock (its store and its unknown stock) and consumption (of
/// its citizens and businesses) to the overview, and labels each entry with its
/// ware.
pub fn add_town(
    data: &mut Vec<HanseaticWareData>,
    stock: &[i32],
    unknown_stock: &[i32],
    consumption_citizens: &[i32],
    consumption_businesses: &[i32],
)
    requires
        old(data)@.len() == WARE_COUNT,
        stock@.len() >= WARE_COUNT,
        unknown_stock@.len() >= WARE_COUNT,
        consumption_citizens@.len() >= WARE_COUNT,
        consumption_businesses@.len() >= WARE_COUNT,
        town_fits(old(data)@, stock@, unknown_stock@, consumption_citizens@, consumption_businesses@),
    ensures
        final(data)@.len() == WARE_COUNT,
        forall|w: int|
            0 <= w < WARE_COUNT ==> #[trigger] final(data)@[w] == (HanseaticWareData {
                total_wares: (old(data)@[w].total_wares + stock@[w] + unknown_stock@[w]) as i32,
                total_consumption: (old(data)@[w].total_consumption + consumption_citizens@[w]
                    + consumption_businesses@[w]) as i32,
                ware: w as usize,
            }),
{
    let mut ware: usize = 0;
    while ware < WARE_COUNT
        invariant
            ware <= WARE_COUNT,
            data@.len() == WARE_COUNT,
            stock@.len() >= WARE_COUNT,
            unknown_stock@.len() >= WARE_COUNT,
            consumption_citizens@.len() >= WARE_COUNT,
            consumption_businesses@.len() >= WARE_COUNT,
            town_fits(old(data)@, stock@, unknown_stock@, consumption_citizens@, consumption_businesses@),
            forall|w: int| ware <= w < WARE_COUNT ==> #[trigger] data@[w] == old(data)@[w],
            forall|w: int|
                0 <= w < ware ==> #[trigger] data@[w] == (HanseaticWareData {
                    total_wares: (old(data)@[w].total_wares + stock@[w] + unknown_stock@[w]) as i32,
                    total_consumption: (old(data)@[w].total_consumption + consumption_citizens@[w]
                        + consumption_businesses@[w]) as i32,
                    ware: w as usize,
                }),
        decreases WARE_COUNT - ware,
    {
        let mut entry = data[ware];
        assert(entry == old(data)@[ware as int]);
        entry.total_wares += stock[ware] + unknown_stock[ware];
        entry.total_consumption += consumption_citizens[ware];
        entry.total_consumption += consumption_businesses[ware];
        entry.ware = ware;
        data.set(ware, entry);
        ware += 1;
    }
}

/// Whether adding an office's figures to the overview stays within `i32`.
pub open spec fn office_fits(data: Seq<HanseaticWareData>, stock: Seq<i32>, consumption: Seq<i32>) -> bool {
    forall|w: int|
        0 <= w < WARE_COUNT ==> {
            &&& i32::MIN <= (#[trigger] data[w]).total_wares + stock[w] <= i32::MAX
            &&& i32::MIN <= data[w].total_consumption + consumption[w] <= i32::MAX
        }
}

/// Adds an office's stock and its businesses' consumption to the overview.
pub fn add_office(data: &mut Vec<HanseaticWareData>, office_stock: &[i32], office_consumption: &[i32])
    requires
        old(data)@.len() == WARE_COUNT,
        office_stock@.len() >= WARE_COUNT,
        office_consumption@.len() >= WARE_COUNT,
        office_fits(old(data)@, office_stock@, office_consumption@),
    ensures
        final(data)@.len() == WARE_COUNT,
        forall|w: int|
            0 <= w < WARE_COUNT ==> #[trigger] final(data)@[w] == (HanseaticWareData {
                total_wares: (old(data)@[w].total_wares + office_stock@[w]) as i32,
                total_consumption: (old(data)@[w].total_consumption + office_consumption@[w]) as i32,
                ware: old(data)@[w].ware,
            }),
{
    let mut ware: usize = 0;
    while ware < WARE_COUNT
        invariant
            ware <= WARE_COUNT,
            data@.len() == WARE_COUNT,
            office_stock@.len() >= WARE_COUNT,
            office_consumption@.len() >= WARE_COUNT,
            office_fits(old(data)@, office_stock@, office_consumption@),
            forall|w: int| ware <= w < WARE_COUNT ==> #[trigger] data@[w] == old(data)@[w],
            forall|w: int|
                0 <= w < ware ==> #[trigger] data@[w] == (HanseaticWareData {
                    total_wares: (old(data)@[w].total_wares + office_stock@[w]) as i32,
                    total_consumption: (old(data)@[w].total_consumption + office_consumption@[w]) as i32,
                    ware: old(data)@[w].ware,
                }),
        decreases WARE_COUNT - ware,
    {
        let mut entry = data[ware];
        assert(entry == old(data)@[ware as int]);
        entry.total_wares += office_stock[ware];
        entry.total_consumption += office_consumption[ware];
        data.set(ware, entry);
        ware += 1;
    }
}

} // verus!

verus! {

/// The entries with ratio `r`.
pub open spec fn with_ratio(r: int) -> spec_fn(HanseaticWareData) -> bool {
    |d: HanseaticWareData| d.ratio() == r
}

/// Whether the entries are in ascending order of ratio.
pub open spec fn sorted_by_ratio(s: Seq<HanseaticWareData>) -> bool {
    forall|i: int, j: int| 0 <= i < j < s.len() ==> (#[trigger] s[i]).ratio() <= (#[trigger] s[j]).ratio()
}

/// Whether `b` is a stable sort of `a` by ratio: sorted, and for every ratio the
/// entries with that ratio appear in `b` exactly as, and in the order, they
/// appear in `a`.
pub open spec fn stable_sort_of(b: Seq<HanseaticWareData>, a: Seq<HanseaticWareData>) -> bool {
    &&& sorted_by_ratio(b)
    &&& forall|r: int| #[trigger] b.filter(with_ratio(r)) == a.filter(with_ratio(r))
}

proof fn lemma_filter_none(s: Seq<HanseaticWareData>, p: spec_fn(HanseaticWareData) -> bool)
    requires
        forall|i: int| 0 <= i < s.len() ==> !p(#[trigger] s[i]),
    ensures
        s.filter(p) == Seq::<HanseaticWareData>::empty(),
    decreases s.len(),
{
    reveal(Seq::filter);
    if s.len() > 0 {
        lemma_filter_none(s.drop_last(), p);
    }
}

proof fn lemma_filter_push(s: Seq<HanseaticWareData>, x: HanseaticWareData, p: spec_fn(HanseaticWareData) -> bool)
    ensures
        s.push(x).filter(p) == if p(x) {
            s.filter(p).push(x)
        } else {
            s.filter(p)
        },
{
    reveal(Seq::filter);
    assert(s.push(x).drop_last() =~= s);
}

proof fn lemma_filter_singleton(x: HanseaticWareData, p: spec_fn(HanseaticWareData) -> bool)
    ensures
        seq![x].filter(p) == if p(x) {
            seq![x]
        } else {
            Seq::<HanseaticWareData>::empty()
        },
{
    lemma_filter_push(Seq::empty(), x, p);
    assert(Seq::<HanseaticWareData>::empty().push(x) =~= seq![x]);
    reveal(Seq::filter);
}

/// Sorts the entries by ratio, keeping entries of equal ratio in their order.
pub fn sort_by_ratio(data: &Vec<HanseaticWareData>) -> (sorted: Vec<HanseaticWareData>)
    ensures
        stable_sort_of(sorted@, data@),
{
    broadcast use vstd::seq::Seq::filter_distributes_over_add;

    let mut out: Vec<HanseaticWareData> = vec![];
    let mut i: usize = 0;
    assert(data@.take(0) =~= out@);
    while i < data.len()
        invariant
            i <= data@.len(),
            stable_sort_of(out@, data@.take(i as int)),
        decreases data@.len() - i,
    {
        let x = data[i];
        let rx = x.get_ratio();
        let mut p: usize = 0;
        while p < out.len() && out[p].get_ratio() <= rx
            invariant
                p <= out@.len(),
                forall|k: int| 0 <= k < p ==> (#[trigger] out@[k]).ratio() <= rx,
            decreases out@.len() - p,
        {
            p += 1;
        }
        let ghost old_out = out@;
        proof {
            assert(forall|k: int| p <= k < old_out.len() ==> (#[trigger] old_out[k]).ratio() > rx) by {
                if p < old_out.len() {
                    assert(old_out[p as int].ratio() > rx);
                }
            }
        }
        out.insert(p, x);
        proof {
            let a = old_out.take(p as int);
            let b = old_out.skip(p as int);
            assert(old_out =~= a + b);
            assert(out@ =~= a + seq![x] + b);
            assert(data@.take(i + 1) =~= data@.take(i as int).push(x));
            assert forall|r: int| #[trigger] out@.filter(with_ratio(r)) == data@.take(i + 1).filter(with_ratio(r)) by {
                lemma_filter_push(data@.take(i as int), x, with_ratio(r));
                lemma_filter_singleton(x, with_ratio(r));
                assert(old_out.filter(with_ratio(r)) == a.filter(with_ratio(r)) + b.filter(with_ratio(r)));
                assert(out@.filter(with_ratio(r)) == (a + seq![x]).filter(with_ratio(r)) + b.filter(with_ratio(r)));
                assert((a + seq![x]).filter(with_ratio(r)) == a.filter(with_ratio(r)) + seq![x].filter(with_ratio(r)));
                if r == rx {
                    assert forall|k: int| 0 <= k < b.len() implies !with_ratio(r)(#[trigger] b[k]) by {
                        assert(b[k] == old_out[p + k]);
                    }
                    lemma_filter_none(b, with_ratio(r));
                    assert(a.filter(with_ratio(r)).push(x) =~= a.filter(with_ratio(r)) + seq![x] + Seq::<HanseaticWareData>::empty());
                } else {
                    assert(a.filter(with_ratio(r)) + Seq::<HanseaticWareData>::empty() + b.filter(with_ratio(r)) =~= old_out.filter(with_ratio(r)));
                }
            }
            assert forall|j: int, k: int| 0 <= j < k < out@.len() implies (#[trigger] out@[j]).ratio() <= (#[trigger] out@[k]).ratio() by {
                if j < p && k < p {
                    assert(out@[j] == old_out[j] && out@[k] == old_out[k]);
                } else if j < p && k == p {
                    assert(out@[j] == old_out[j]);
                } else if j < p {
                    assert(out@[j] == old_out[j] && out@[k] == old_out[k - 1]);
                } else if j == p {
                    assert(out@[k] == old_out[k - 1]);
                } else {
                    assert(out@[j] == old_out[j - 1] && out@[k] == old_out[k - 1]);
                }
            }
        }
        i += 1;
    }
    assert(data@.take(data@.len() as int) =~= data@);
    out
}

} // verus!

verus! {

/// Text colour of wares of which the Hanse consumes less than 1024 units.
pub const COLOR_LOW_CONSUMPTION: u32 = 0xFFD3D3D3;

/// Text colour of the three scarcest consumed wares.
pub const COLOR_SCARCE: u32 = 0xFF7CFC00;

/// Text colour of the other wares.
pub const COLOR_NORMAL: u32 = 0xFF000000;

/// Text colour of spices, whatever their supply.
pub const COLOR_SPICES: u32 = 0xFF660000;

/// The text colours of the rows `rows`, when `greens` rows before them were
/// marked scarce: rows of little consumption are grey, the first three others
/// green, the rest black; the spices row is dark red in any case (but still
/// counts as scarce if it was).
pub open spec fn row_colors_from(rows: Seq<HanseaticWareData>, spices: usize, greens: int) -> Seq<u32>
    decreases rows.len(),
{
    if rows.len() == 0 {
        Seq::empty()
    } else {
        let d = rows[0];
        let (c, next_greens) = if d.total_consumption < 1024 {
            (COLOR_LOW_CONSUMPTION, greens)
        } else if greens < 3 {
            (COLOR_SCARCE, greens + 1)
        } else {
            (COLOR_NORMAL, greens)
        };
        let color = if d.ware == spices {
            COLOR_SPICES
        } else {
            c
        };
        seq![color] + row_colors_from(rows.drop_first(), spices, next_greens)
    }
}

/// The text colour of each row of the supply overview, in order; `spices` is the
/// index of the spices ware.
pub fn row_colors(rows: &Vec<HanseaticWareData>, spices: usize) -> (colors: Vec<u32>)
    ensures
        colors@ == row_colors_from(rows@, spices, 0),
{
    let mut colors: Vec<u32> = vec![];
    let mut effective_prods_count: u32 = 0;
    let mut i: usize = 0;
    assert(rows@.skip(0) =~= rows@);
    assert(colors@ + row_colors_from(rows@, spices, 0) =~= row_colors_from(rows@, spices, 0));
    while i < rows.len()
        invariant
            i <= rows@.len(),
            effective_prods_count <= 3,
            colors@ + row_colors_from(rows@.skip(i as int), spices, effective_prods_count as int)
                == row_colors_from(rows@, spices, 0),
        decreases rows@.len() - i,
    {
        let data = rows[i];
        let ghost before = colors@;
        let ghost g = effective_prods_count as int;
        let mut color: u32;
        if data.total_consumption < 1024 {
            color = COLOR_LOW_CONSUMPTION;
        } else if effective_prods_count < 3 {
            color = COLOR_SCARCE;
            effective_prods_count += 1;
        } else {
            color = COLOR_NORMAL;
        }
        if data.ware == spices {
            color = COLOR_SPICES;
        }
        colors.push(color);
        proof {
            let rest = rows@.skip(i as int);
            assert(rest[0] == data);
            assert(rest.drop_first() =~= rows@.skip(i + 1));
            assert(row_colors_from(rest, spices, g) == seq![color] + row_colors_from(
                rows@.skip(i + 1),
                spices,
                effective_prods_count as int,
            ));
            assert(colors@ + row_colors_from(rows@.skip(i + 1), spices, effective_prods_count as int)
                =~= before + row_colors_from(rest, spices, g));
        }
        i += 1;
    }
    assert(colors@ + row_colors_from(rows@.skip(rows@.len() as int), spices, effective_prods_count as int) =~= colors@);
    colors
}

} // verus!

verus! {

/// The kinds of facility that a town may hold.
#[derive(Debug, Clone, Copy, PartialEq, Eq, Structural)]
pub enum FacilityId {
    Militia,
    Shipyard,
    Construction,
    Weaponsmith,
    HuntingLodge,
    FishermansHouse,
    Brewery,
    Workshop,
    Apiary,
    GrainFarm,
    CattleFarm,
    Sawmill,
    WeavingMill,
    Saltery,
    Ironsmelter,
    SheepFarm,
    Vineyard,
    Pottery,
    Brickworks,
    Pitchmaker,
    HempFarm,
}

/// The flag of the raw production bits that turns fishermen into whalers.
pub const WHALE_OIL_FLAG: u32 = 0x20000;

/// The label, followed by a comma and a space, of what `facility` produces;
/// empty for facilities that produce no ware.
pub open spec fn production_label(facility: FacilityId, effective_raw: u32) -> Seq<char> {
    match facility {
        FacilityId::Militia => Seq::empty(),
        FacilityId::Shipyard => Seq::empty(),
        FacilityId::Construction => Seq::empty(),
        FacilityId::Weaponsmith => Seq::empty(),
        FacilityId::HuntingLodge => "Skins, "@,
        FacilityId::FishermansHouse => if effective_raw & WHALE_OIL_FLAG != 0 {
            "Whale Oil, "@
        } else {
            "Fish, "@
        },
        FacilityId::Brewery => "Beer, "@,
        FacilityId::Workshop => "Iron Goods, "@,
        FacilityId::Apiary => "Honey, "@,
        FacilityId::GrainFarm => "Grain, "@,
        FacilityId::CattleFarm => "Meat, Leather, "@,
        FacilityId::Sawmill => "Timber, "@,
        FacilityId::WeavingMill => "Cloth, "@,
        FacilityId::Saltery => "Salt, "@,
        FacilityId::Ironsmelter => "Pig Iron, "@,
        FacilityId::SheepFarm => "Wool, "@,
        FacilityId::Vineyard => "Wine, "@,
        FacilityId::Pottery => "Pottery, "@,
        FacilityId::Brickworks => "Bricks, "@,
        FacilityId::Pitchmaker => "Pitch, "@,
        FacilityId::HempFarm => "Hemp, "@,
    }
}

/// The labels of all `facilities`, in order.
pub open spec fn production_labels(facilities: Seq<FacilityId>, effective_raw: u32) -> Seq<char>
    decreases facilities.len(),
{
    if facilities.len() == 0 {
        Seq::empty()
    } else {
        production_labels(facilities.drop_last(), effective_raw) + production_label(facilities.last(), effective_raw)
    }
}

/// `s` with its last character removed, if it has one.
pub open spec fn without_last(s: Seq<char>) -> Seq<char> {
    if s.len() > 0 {
        s.drop_last()
    } else {
        s
    }
}

/// std's `String::pop`: removes and returns the last character, if any.
#[verifier::external_body]
fn pop_char(s: &mut String) -> (c: Option<char>)
    ensures
        old(s)@.len() > 0 ==> c == Some(old(s)@.last()) && final(s)@ == old(s)@.drop_last(),
        old(s)@.len() == 0 ==> c is None && final(s)@ == old(s)@,
{
    s.pop()
}

/// The alderman's office line that lists what the facilities of a town
/// founding mission produce, separated by commas.
pub fn effective_production_text(facilities: &[FacilityId], effective_raw: u32) -> (text: String)
    ensures
        text@ == without_last(without_last(production_labels(facilities@, effective_raw))),
{
    let mut effective_string = String::new();
    let mut i: usize = 0;
    while i < facilities.len()
        invariant
            i <= facilities@.len(),
            effective_string@ == production_labels(facilities@.take(i as int), effective_raw),
        decreases facilities@.len() - i,
    {
        let facility = facilities[i];
        match facility {
            FacilityId::Militia => {},
            FacilityId::Shipyard => {},
            FacilityId::Construction => {},
            FacilityId::Weaponsmith => {},
            FacilityId::HuntingLodge => effective_string.append("Skins, "),
            FacilityId::FishermansHouse => {
                if effective_raw & WHALE_OIL_FLAG != 0 {
                    effective_string.append("Whale Oil, ")
                } else {
                    effective_string.append("Fish, ")
                }
            },
            FacilityId::Brewery => effective_string.append("Beer, "),
            FacilityId::Workshop => effective_string.append("Iron Goods, "),
            FacilityId::Apiary => effective_string.append("Honey, "),
            FacilityId::GrainFarm => effective_string.append("Grain, "),
            FacilityId::CattleFarm => effective_string.append("Meat, Leather, "),
            FacilityId::Sawmill => effective_string.append("Timber, "),
            FacilityId::WeavingMill => effective_string.append("Cloth, "),
            FacilityId::Saltery => effective_string.append("Salt, "),
            FacilityId::Ironsmelter => effective_string.append("Pig Iron, "),
            FacilityId::SheepFarm => effective_string.append("Wool, "),
            FacilityId::Vineyard => effective_string.append("Wine, "),
            FacilityId::Pottery => effective_string.append("Pottery, "),
            FacilityId::Brickworks => effective_string.append("Bricks, "),
            FacilityId::Pitchmaker => effective_string.append("Pitch, "),
            FacilityId::HempFarm => effective_string.append("Hemp, "),
        }
        assert(facilities@.take(i + 1).drop_last() =~= facilities@.take(i as int));
        assert(effective_string@ =~= production_labels(facilities@.take(i + 1), effective_raw));
        i += 1;
    }
    assert(facilities@.take(facilities@.len() as int) =~= facilities@);
    pop_char(&mut effective_string);
    pop_char(&mut effective_string);
    effective_string
}

} // verus!

verus! {

/// The wares that a facility of a town founding mission produces, by name;
/// fishermen catch whales instead of fish where `whale_oil` is set.
pub open spec fn produced_wares(facility: FacilityId, whale_oil: bool) -> Seq<Seq<char>> {
    match facility {
        FacilityId::Militia => Seq::empty(),
        FacilityId::Shipyard => Seq::empty(),
        FacilityId::Construction => Seq::empty(),
        FacilityId::Weaponsmith => Seq::empty(),
        FacilityId::HuntingLodge => seq!["Skins"@],
        FacilityId::FishermansHouse => if whale_oil {
            seq!["Whale Oil"@]
        } else {
            seq!["Fish"@]
        },
        FacilityId::Brewery => seq!["Beer"@],
        FacilityId::Workshop => seq!["Iron Goods"@],
        FacilityId::Apiary => seq!["Honey"@],
        FacilityId::GrainFarm => seq!["Grain"@],
        FacilityId::CattleFarm => seq!["Meat"@, "Leather"@],
        FacilityId::Sawmill => seq!["Timber"@],
        FacilityId::WeavingMill => seq!["Cloth"@],
        FacilityId::Saltery => seq!["Salt"@],
        FacilityId::Ironsmelter => seq!["Pig Iron"@],
        FacilityId::SheepFarm => seq!["Wool"@],
        FacilityId::Vineyard => seq!["Wine"@],
        FacilityId::Pottery => seq!["Pottery"@],
        FacilityId::Brickworks => seq!["Bricks"@],
        FacilityId::Pitchmaker => seq!["Pitch"@],
        FacilityId::HempFarm => seq!["Hemp"@],
    }
}

/// The names `names`, each followed by a comma and a space.
pub open spec fn listed(names: Seq<Seq<char>>) -> Seq<char>
    decreases names.len(),
{
    if names.len() == 0 {
        Seq::empty()
    } else {
        names[0] + ", "@ + listed(names.drop_first())
    }
}

proof fn lemma_listed_one(a: Seq<char>)
    ensures
        listed(seq![a]) == a + ", "@,
{
    assert(seq![a].drop_first() =~= Seq::<Seq<char>>::empty());
    assert(listed(Seq::<Seq<char>>::empty()) == Seq::<char>::empty());
    assert(seq![a][0] == a);
    assert(listed(seq![a]) == a + ", "@ + Seq::<char>::empty());
    assert(a + ", "@ + Seq::<char>::empty() =~= a + ", "@);
}

proof fn lemma_listed_two(a: Seq<char>, b: Seq<char>)
    ensures
        listed(seq![a, b]) == a + ", "@ + b + ", "@,
{
    assert(seq![a, b].drop_first() =~= seq![b]);
    lemma_listed_one(b);
    assert(seq![a, b][0] == a);
    assert(listed(seq![a, b]) == a + ", "@ + (b + ", "@));
    assert(a + ", "@ + (b + ", "@) =~= a + ", "@ + b + ", "@);
}

/// The label that the alderman's office shows for a facility names the wares
/// that it produces, each followed by a comma and a space (whale oil for
/// fishermen when the production bits carry the whale oil flag), and nothing
/// for facilities that produce no ware.
pub proof fn lemma_production_label_names_the_wares(facility: FacilityId, effective_raw: u32)
    ensures
        production_label(facility, effective_raw) == listed(
            produced_wares(facility, effective_raw & WHALE_OIL_FLAG != 0),
        ),
{
    reveal_strlit(", ");
    reveal_strlit("Beer");
    reveal_strlit("Beer, ");
    reveal_strlit("Bricks");
    reveal_strlit("Bricks, ");
    reveal_strlit("Cloth");
    reveal_strlit("Cloth, ");
    reveal_strlit("Fish");
    reveal_strlit("Fish, ");
    reveal_strlit("Grain");
    reveal_strlit("Grain, ");
    reveal_strlit("Hemp");
    reveal_strlit("Hemp, ");
    reveal_strlit("Honey");
    reveal_strlit("Honey, ");
    reveal_strlit("Iron Goods");
    reveal_strlit("Iron Goods, ");
    reveal_strlit("Leather");
    reveal_strlit("Meat");
    reveal_strlit("Meat, Leather, ");
    reveal_strlit("Pig Iron");
    reveal_strlit("Pig Iron, ");
    reveal_strlit("Pitch");
    reveal_strlit("Pitch, ");
    reveal_strlit("Pottery");
    reveal_strlit("Pottery, ");
    reveal_strlit("Salt");
    reveal_strlit("Salt, ");
    reveal_strlit("Skins");
    reveal_strlit("Skins, ");
    reveal_strlit("Timber");
    reveal_strlit("Timber, ");
    reveal_strlit("Whale Oil");
    reveal_strlit("Whale Oil, ");
    reveal_strlit("Wine");
    reveal_strlit("Wine, ");
    reveal_strlit("Wool");
    reveal_strlit("Wool, ");
    match facility {
        FacilityId::Militia => {},
        FacilityId::Shipyard => {},
        FacilityId::Construction => {},
        FacilityId::Weaponsmith => {},
        FacilityId::HuntingLodge => {
            lemma_listed_one("Skins"@);
            assert("Skins, "@ =~= "Skins"@ + ", "@);
        },
        FacilityId::Brewery => {
            lemma_listed_one("Beer"@);
            assert("Beer, "@ =~= "Beer"@ + ", "@);
        },
        FacilityId::Workshop => {
            lemma_listed_one("Iron Goods"@);
            assert("Iron Goods, "@ =~= "Iron Goods"@ + ", "@);
        },
        FacilityId::Apiary => {
            lemma_listed_one("Honey"@);
            assert("Honey, "@ =~= "Honey"@ + ", "@);
        },
        FacilityId::GrainFarm => {
            lemma_listed_one("Grain"@);
            assert("Grain, "@ =~= "Grain"@ + ", "@);
        },
        FacilityId::CattleFarm => {
            lemma_listed_two("Meat"@, "Leather"@);
            assert("Meat, Leather, "@ =~= "Meat"@ + ", "@ + "Leather"@ + ", "@);
        },
        FacilityId::Sawmill => {
            lemma_listed_one("Timber"@);
            assert("Timber, "@ =~= "Timber"@ + ", "@);
        },
        FacilityId::WeavingMill => {
            lemma_listed_one("Cloth"@);
            assert("Cloth, "@ =~= "Cloth"@ + ", "@);
        },
        FacilityId::Saltery => {
            lemma_listed_one("Salt"@);
            assert("Salt, "@ =~= "Salt"@ + ", "@);
        },
        FacilityId::Ironsmelter => {
            lemma_listed_one("Pig Iron"@);
            assert("Pig Iron, "@ =~= "Pig Iron"@ + ", "@);
        },
        FacilityId::SheepFarm => {
            lemma_listed_one("Wool"@);
            assert("Wool, "@ =~= "Wool"@ + ", "@);
        },
        FacilityId::Vineyard => {
            lemma_listed_one("Wine"@);
            assert("Wine, "@ =~= "Wine"@ + ", "@);
        },
        FacilityId::Pottery => {
            lemma_listed_one("Pottery"@);
            assert("Pottery, "@ =~= "Pottery"@ + ", "@);
        },
        FacilityId::Brickworks => {
            lemma_listed_one("Bricks"@);
            assert("Bricks, "@ =~= "Bricks"@ + ", "@);
        },
        FacilityId::Pitchmaker => {
            lemma_listed_one("Pitch"@);
            assert("Pitch, "@ =~= "Pitch"@ + ", "@);
        },
        FacilityId::HempFarm => {
            lemma_listed_one("Hemp"@);
            assert("Hemp, "@ =~= "Hemp"@ + ", "@);
        },
        FacilityId::FishermansHouse => {
            lemma_listed_one("Whale Oil"@);
            lemma_listed_one("Fish"@);
            assert("Whale Oil, "@ =~= "Whale Oil"@ + ", "@);
            assert("Fish, "@ =~= "Fish"@ + ", "@);
        },
    }
}

/// The names of the wares that the facilities `facilities` produce, in order,
/// each followed by a comma and a space.
pub open spec fn facilities_listed(facilities: Seq<FacilityId>, whale_oil: bool) -> Seq<char>
    decreases facilities.len(),
{
    if facilities.len() == 0 {
        Seq::empty()
    } else {
        facilities_listed(facilities.drop_last(), whale_oil) + listed(produced_wares(facilities.last(), whale_oil))
    }
}

/// The alderman's office line lists the wares that the facilities produce, in
/// the facilities' order, separated by commas: the text is that list without
/// its final comma and space.
pub proof fn lemma_production_text_lists_the_wares(facilities: Seq<FacilityId>, effective_raw: u32)
    ensures
        without_last(without_last(production_labels(facilities, effective_raw))) == without_last(
            without_last(facilities_listed(facilities, effective_raw & WHALE_OIL_FLAG != 0)),
        ),
        production_labels(facilities, effective_raw) == facilities_listed(
            facilities,
            effective_raw & WHALE_OIL_FLAG != 0,
        ),
    decreases facilities.len(),
{
    if facilities.len() > 0 {
        lemma_production_text_lists_the_wares(facilities.drop_last(), effective_raw);
        lemma_production_label_names_the_wares(facilities.last(), effective_raw);
    }
}

/// How many entries of `s` are `c`.
pub open spec fn count_of(s: Seq<u32>, c: u32) -> int
    decreases s.len(),
{
    if s.len() == 0 {
        0
    } else {
        (if s[0] == c {
            1int
        } else {
            0int
        }) + count_of(s.drop_first(), c)
    }
}

proof fn lemma_scarce_rows_from(rows: Seq<HanseaticWareData>, spices: usize, greens: int)
    requires
        0 <= greens <= 3,
    ensures
        0 <= count_of(row_colors_from(rows, spices, greens), COLOR_SCARCE) <= 3 - greens,
    decreases rows.len(),
{
    if rows.len() > 0 {
        let d = rows[0];
        let next_greens = if d.total_consumption < 1024 {
            greens
        } else if greens < 3 {
            greens + 1
        } else {
            greens
        };
        lemma_scarce_rows_from(rows.drop_first(), spices, next_greens);
        let s = row_colors_from(rows, spices, greens);
        let rest = row_colors_from(rows.drop_first(), spices, next_greens);
        assert(s.drop_first() =~= rest);
    }
}

/// The supply overview marks at most three wares as scarce.
pub proof fn lemma_at_most_three_scarce(rows: Seq<HanseaticWareData>, spices: usize)
    ensures
        count_of(row_colors_from(rows, spices, 0), COLOR_SCARCE) <= 3,
{
    lemma_scarce_rows_from(rows, spices, 0);
}

proof fn lemma_row_colors_rows(rows: Seq<HanseaticWareData>, spices: usize, greens: int)
    ensures
        ({
            let c = row_colors_from(rows, spices, greens);
            &&& c.len() == rows.len()
            &&& forall|i: int| 0 <= i < rows.len() && (#[trigger] rows[i]).ware == spices ==> c[i] == COLOR_SPICES
            &&& forall|i: int|
                0 <= i < rows.len() && (#[trigger] rows[i]).ware != spices && rows[i].total_consumption < 1024
                    ==> c[i] == COLOR_LOW_CONSUMPTION
            &&& forall|i: int|
                0 <= i < rows.len() && (#[trigger] rows[i]).ware != spices && rows[i].total_consumption >= 1024
                    ==> (c[i] == COLOR_SCARCE || c[i] == COLOR_NORMAL)
        }),
    decreases rows.len(),
{
    if rows.len() > 0 {
        let d = rows[0];
        let next_greens = if d.total_consumption < 1024 {
            greens
        } else if greens < 3 {
            greens + 1
        } else {
            greens
        };
        lemma_row_colors_rows(rows.drop_first(), spices, next_greens);
        let c = row_colors_from(rows, spices, greens);
        let rest = row_colors_from(rows.drop_first(), spices, next_greens);
        assert(c.drop_first() =~= rest);
        assert forall|i: int| 0 < i < rows.len() implies #[trigger] rows[i] == rows.drop_first()[i - 1] && c[i]
            == rest[i - 1] by {}
    }
}

/// Each row's colour follows its own figures: the spices row is dark red
/// whatever its supply, any other row of less than 1024 units of consumption is
/// grey, and any other row is green (scarce) or black.
pub proof fn lemma_row_colors_by_row(rows: Seq<HanseaticWareData>, spices: usize)
    ensures
        ({
            let c = row_colors_from(rows, spices, 0);
            &&& c.len() == rows.len()
            &&& forall|i: int| 0 <= i < rows.len() && (#[trigger] rows[i]).ware == spices ==> c[i] == COLOR_SPICES
            &&& forall|i: int|
                0 <= i < rows.len() && (#[trigger] rows[i]).ware != spices && rows[i].total_consumption < 1024
                    ==> c[i] == COLOR_LOW_CONSUMPTION
            &&& forall|i: int|
                0 <= i < rows.len() && (#[trigger] rows[i]).ware != spices && rows[i].total_consumption >= 1024
                    ==> (c[i] == COLOR_SCARCE || c[i] == COLOR_NORMAL)
        }),
{
    lemma_row_colors_rows(rows, spices, 0);
}

/// The pages of the town hall window that the modification draws.
#[derive(Debug, Clone, Copy, PartialEq, Eq, Structural)]
pub enum TownHallPage {
    Details,
    AldermansOffice,
}

/// The page number of the alderman's office.
pub const ALDERMANS_OFFICE_PAGE: i32 = 7;

/// The page number of the added details page.
pub const DETAILS_PAGE: i32 = -1;

/// Which added page the town hall window shows for its selected page, if any.
pub fn town_hall_page(selected_page: i32) -> (page: Option<TownHallPage>)
    ensures
        page == if selected_page == DETAILS_PAGE {
            Some(TownHallPage::Details)
        } else if selected_page == ALDERMANS_OFFICE_PAGE {
            Some(TownHallPage::AldermansOffice)
        } else {
            None::<TownHallPage>
        },
{
    if selected_page == DETAILS_PAGE {
        Some(TownHallPage::Details)
    } else if selected_page == ALDERMANS_OFFICE_PAGE {
        Some(TownHallPage::AldermansOffice)
    } else {
        None
    }
}

/// Whether selecting `page` in the side panel opens the alderman's office, whose
/// background gradient the modification removes.
pub fn opens_aldermans_office(page: u32) -> (r: bool)
    ensures
        r == (page == 7),
{
    page == 7
}

} // verus!

verus! {

/// A town's figures for the supply overview: its store's stock, its unknown
/// stock, the consumption of its citizens and businesses, per ware, and the
/// first office of its chain of offices.
#[derive(Debug, Clone)]
pub struct TownFigures {
    pub stock: Vec<i32>,
    pub unknown_stock: Vec<i32>,
    pub consumption_citizens: Vec<i32>,
    pub consumption_businesses: Vec<i32>,
    pub first_office: u32,
}

/// An office's figures for the supply overview: its stock and its businesses'
/// consumption, per ware.
#[derive(Debug, Clone)]
pub struct OfficeFigures {
    pub stock: Vec<i32>,
    pub consumption: Vec<i32>,
}

/// The overview before any town is added.
pub open spec fn empty_overview() -> Seq<HanseaticWareData> {
    Seq::new(WARE_COUNT as nat, |w: int| HanseaticWareData { total_wares: 0, total_consumption: 0, ware: 0 })
}

/// The overview `data` with the town `t` added (as `add_town` adds it).
pub open spec fn town_added(data: Seq<HanseaticWareData>, t: TownFigures) -> Seq<HanseaticWareData> {
    Seq::new(
        WARE_COUNT as nat,
        |w: int|
            HanseaticWareData {
                total_wares: (data[w].total_wares + t.stock@[w] + t.unknown_stock@[w]) as i32,
                total_consumption: (data[w].total_consumption + t.consumption_citizens@[w]
                    + t.consumption_businesses@[w]) as i32,
                ware: w as usize,
            },
    )
}

/// The overview `data` with the office `o` added (as `add_office` adds it).
pub open spec fn office_added(data: Seq<HanseaticWareData>, o: OfficeFigures) -> Seq<HanseaticWareData> {
    Seq::new(
        WARE_COUNT as nat,
        |w: int|
            HanseaticWareData {
                total_wares: (data[w].total_wares + o.stock@[w]) as i32,
                total_consumption: (data[w].total_consumption + o.consumption@[w]) as i32,
                ware: data[w].ware,
            },
    )
}

/// The overview `data` with the offices `chain` added, in order.
pub open spec fn offices_added(data: Seq<HanseaticWareData>, chain: Seq<u32>, offices: Seq<OfficeFigures>) -> Seq<
    HanseaticWareData,
>
    decreases chain.len(),
{
    if chain.len() == 0 {
        data
    } else {
        office_added(offices_added(data, chain.drop_last(), offices), offices[chain.last() as int])
    }
}

/// Whether adding the offices `chain` to `data`, in order, stays within `i32`.
pub open spec fn offices_fit(data: Seq<HanseaticWareData>, chain: Seq<u32>, offices: Seq<OfficeFigures>) -> bool
    decreases chain.len(),
{
    chain.len() > 0 ==> {
        let o = offices[chain.last() as int];
        &&& offices_fit(data, chain.drop_last(), offices)
        &&& o.stock@.len() >= WARE_COUNT
        &&& o.consumption@.len() >= WARE_COUNT
        &&& office_fits(offices_added(data, chain.drop_last(), offices), o.stock@, o.consumption@)
    }
}

/// The supply overview of the towns `towns`, in order, each followed by the
/// offices of its chain (linked by `next_in_town`), before it is sorted.
pub open spec fn overview_of(towns: Seq<TownFigures>, next_in_town: Seq<u32>, offices: Seq<OfficeFigures>) -> Seq<
    HanseaticWareData,
>
    decreases towns.len(),
{
    if towns.len() == 0 {
        empty_overview()
    } else {
        let t = towns.last();
        offices_added(
            town_added(overview_of(towns.drop_last(), next_in_town, offices), t),
            office_chain_spec(next_in_town, t.first_office as int),
            offices,
        )
    }
}

/// Whether building the overview of `towns` reads only what is there, follows
/// office chains that end, and stays within `i32`.
pub open spec fn overview_fits(towns: Seq<TownFigures>, next_in_town: Seq<u32>, offices: Seq<OfficeFigures>) -> bool
    decreases towns.len(),
{
    towns.len() > 0 ==> {
        let t = towns.last();
        let before = overview_of(towns.drop_last(), next_in_town, offices);
        &&& overview_fits(towns.drop_last(), next_in_town, offices)
        &&& t.stock@.len() >= WARE_COUNT
        &&& t.unknown_stock@.len() >= WARE_COUNT
        &&& t.consumption_citizens@.len() >= WARE_COUNT
        &&& t.consumption_businesses@.len() >= WARE_COUNT
        &&& town_fits(before, t.stock@, t.unknown_stock@, t.consumption_citizens@, t.consumption_businesses@)
        &&& chain_ends(next_in_town, t.first_office as int)
        &&& offices_fit(town_added(before, t), office_chain_spec(next_in_town, t.first_office as int), offices)
    }
}

proof fn lemma_offices_fit_prefix(data: Seq<HanseaticWareData>, chain: Seq<u32>, offices: Seq<OfficeFigures>, j: int)
    requires
        offices_fit(data, chain, offices),
        0 <= j <= chain.len(),
    ensures
        offices_fit(data, chain.take(j), offices),
    decreases chain.len(),
{
    if j < chain.len() {
        lemma_offices_fit_prefix(data, chain.drop_last(), offices, j);
        assert(chain.drop_last().take(j) =~= chain.take(j));
    } else {
        assert(chain.take(j) =~= chain);
    }
}

proof fn lemma_overview_fits_prefix(towns: Seq<TownFigures>, next_in_town: Seq<u32>, offices: Seq<OfficeFigures>, k: int)
    requires
        overview_fits(towns, next_in_town, offices),
        0 <= k <= towns.len(),
    ensures
        overview_fits(towns.take(k), next_in_town, offices),
    decreases towns.len(),
{
    if k < towns.len() {
        lemma_overview_fits_prefix(towns.drop_last(), next_in_town, offices, k);
        assert(towns.drop_last().take(k) =~= towns.take(k));
    } else {
        assert(towns.take(k) =~= towns);
    }
}

/// Adds the offices of the chain `chain` to the overview.
fn add_offices(data: &mut Vec<HanseaticWareData>, chain: &Vec<u32>, offices: &Vec<OfficeFigures>)
    requires
        old(data)@.len() == WARE_COUNT,
        forall|j: int| 0 <= j < chain@.len() ==> (#[trigger] chain@[j]) < offices@.len(),
        offices_fit(old(data)@, chain@, offices@),
    ensures
        final(data)@ == offices_added(old(data)@, chain@, offices@),
{
    let ghost start = data@;
    let mut j: usize = 0;
    assert(chain@.take(0) =~= Seq::<u32>::empty());
    while j < chain.len()
        invariant
            j <= chain@.len(),
            data@.len() == WARE_COUNT,
            forall|i: int| 0 <= i < chain@.len() ==> (#[trigger] chain@[i]) < offices@.len(),
            offices_fit(start, chain@, offices@),
            data@ == offices_added(start, chain@.take(j as int), offices@),
        decreases chain@.len() - j,
    {
        let o = chain[j];
        proof {
            lemma_offices_fit_prefix(start, chain@, offices@, j + 1);
            assert(chain@.take(j + 1).drop_last() =~= chain@.take(j as int));
            assert(chain@.take(j + 1).last() == o);
        }
        let office = &offices[o as usize];
        let ghost before = data@;
        add_office(data, office.stock.as_slice(), office.consumption.as_slice());
        assert(data@ =~= office_added(before, offices@[o as int]));
        j += 1;
    }
    assert(chain@.take(chain@.len() as int) =~= chain@);
}

/// The supply overview of the towns, before it is sorted: for each town, in
/// order, its store and citizens, then the offices of its chain (linked by
/// `next_in_town`), each ware's stock and consumption summed up.
pub fn hanseatic_overview(towns: &Vec<TownFigures>, next_in_town: &Vec<u32>, offices: &Vec<OfficeFigures>) -> (data:
    Vec<HanseaticWareData>)
    requires
        offices@.len() == next_in_town@.len(),
        overview_fits(towns@, next_in_town@, offices@),
    ensures
        data@ == overview_of(towns@, next_in_town@, offices@),
{
    let mut data = new_hanseatic_data();
    assert(data@ =~= empty_overview());
    assert(towns@.take(0) =~= Seq::<TownFigures>::empty());
    let mut k: usize = 0;
    while k < towns.len()
        invariant
            k <= towns@.len(),
            offices@.len() == next_in_town@.len(),
            overview_fits(towns@, next_in_town@, offices@),
            data@.len() == WARE_COUNT,
            data@ == overview_of(towns@.take(k as int), next_in_town@, offices@),
        decreases towns@.len() - k,
    {
        let t = &towns[k];
        proof {
            lemma_overview_fits_prefix(towns@, next_in_town@, offices@, k + 1);
            assert(towns@.take(k + 1).drop_last() =~= towns@.take(k as int));
            assert(towns@.take(k + 1).last() == *t);
        }
        let ghost before = data@;
        add_town(
            &mut data,
            t.stock.as_slice(),
            t.unknown_stock.as_slice(),
            t.consumption_citizens.as_slice(),
            t.consumption_businesses.as_slice(),
        );
        assert(data@ =~= town_added(before, *t));
        let chain = office_chain(next_in_town, t.first_office);
        proof {
            lemma_chain_in_range(
                next_in_town@,
                t.first_office as int,
                choose|fuel: nat| #[trigger] chain_from(next_in_town@, t.first_office as int, fuel) is Some,
            );
        }
        add_offices(&mut data, &chain, offices);
        k += 1;
    }
    assert(towns@.take(towns@.len() as int) =~= towns@);
    data
}

} // verus!
