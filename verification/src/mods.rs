//! The decisions and computations of the game modifications, apart from the
//! patching and drawing that they do in the game's process.
use vstd::prelude::*;
use vstd::string::StringSliceAdditionalSpecFns;

use crate::routes::{in_i32, trunc_div};

verus! {

/// Converts a navigation-vector coordinate to a game (screen map) coordinate.
pub fn nav_vec_coord_to_game_coord(i: i32) -> (r: i32)
    requires
        in_i32(26 * i),
        in_i32(26 * i + 487),
        in_i32((26 * i + 487) * 17),
    ensures
        r == trunc_div((26 * i + 487) * 17, 125),
{
    (26 * i + 487) * 17 / 125
}

/// Half the length of a marker's strokes.
pub const STROKE_LENGTH: i32 = 4;

/// The two strokes of the cross that marks a navigation point at `(x, y)`, each
/// as `(x0, y0, x1, y1)`.
pub fn marker_strokes(x: i32, y: i32) -> (strokes: [(i32, i32, i32, i32); 2])
    requires
        in_i32(x - STROKE_LENGTH) && in_i32(x + STROKE_LENGTH),
        in_i32(y - STROKE_LENGTH) && in_i32(y + STROKE_LENGTH),
    ensures
        strokes@[0] == ((x - 4) as i32, (y - 4) as i32, (x + 4) as i32, (y + 4) as i32),
        strokes@[1] == ((x - 4) as i32, (y + 4) as i32, (x + 4) as i32, (y - 4) as i32),
{
    [
        (x - STROKE_LENGTH, y - STROKE_LENGTH, x + STROKE_LENGTH, y + STROKE_LENGTH),
        (x - STROKE_LENGTH, y + STROKE_LENGTH, x + STROKE_LENGTH, y - STROKE_LENGTH),
    ]
}

/// How many entries of `bribers` name `merchant`.
pub open spec fn bribes_by(bribers: Seq<u8>, merchant: u8) -> int
    decreases bribers.len(),
{
    if bribers.len() == 0 {
        0
    } else {
        bribes_by(bribers.drop_last(), merchant) + if bribers.last() == merchant {
            1int
        } else {
            0int
        }
    }
}

/// The number of a town's councillors that `merchant_index` has bribed, given who
/// bribed each councillor.
pub fn count_bribed_councillors(bribers: &[u8], merchant_index: u8) -> (bribed: i32)
    requires
        bribers@.len() <= i32::MAX,
    ensures
        bribed == bribes_by(bribers@, merchant_index),
{
    let mut bribed: i32 = 0;
    let mut k: usize = 0;
    while k < bribers.len()
        invariant
            k <= bribers@.len(),
            bribers@.len() <= i32::MAX,
            bribed == bribes_by(bribers@.take(k as int), merchant_index),
            0 <= bribed <= k,
        decreases bribers@.len() - k,
    {
        if bribers[k] == merchant_index {
            bribed += 1;
        }
        assert(bribers@.take(k + 1).drop_last() =~= bribers@.take(k as int));
        k += 1;
    }
    assert(bribers@.take(bribers@.len() as int) =~= bribers@);
    bribed
}

/// The artillery slot index that the game should use for the slot it computed
/// as `index`: slot pair 2 maps to 0, every other to 2.
pub fn get_correct_index(index: u32) -> (correct: u32)
    requires
        index * 2 <= u32::MAX,
    ensures
        correct == if index * 2 == 4 {
            0u32
        } else {
            2u32
        },
{
    let multiplied_index = index * 2;
    match multiplied_index {
        4 => 0,
        _ => 2,
    }
}

/// The absolute value, which the siege fix returns for the beggars'
/// satisfaction bonus.
pub fn abs(input: i32) -> (r: i32)
    requires
        input != i32::MIN,
    ensures
        r == if input < 0 {
            -input
        } else {
            input as int
        },
{
    if input < 0 {
        -input
    } else {
        input
    }
}

/// The resolution that the high resolution modification enforces.
pub const HIGH_RES_WIDTH: u32 = 1920;

/// The resolution that the high resolution modification enforces.
pub const HIGH_RES_HEIGHT: u32 = 1080;

/// Overwrites the resolution that the game computed with 1920 x 1080.
pub fn overwrite_resolution(width: &mut u32, height: &mut u32)
    ensures
        *final(width) == HIGH_RES_WIDTH,
        *final(height) == HIGH_RES_HEIGHT,
{
    *width = HIGH_RES_WIDTH;
    *height = HIGH_RES_HEIGHT;
}

/// The widest resolution that the game lays its user interface out for.
pub const VANILLA_MAX_WIDTH: u32 = 1280;

/// The width of the side panel on the right of the screen.
pub const SIDE_PANEL_WIDTH: u32 = 284;

/// How the user interface is laid out for a screen `real_width` pixels wide: the
/// width the game's layout switch should use and, above 1280 pixels, the new
/// width of the map frame (animation 42) and the new x position of the side
/// panel (animation 44).
#[derive(Debug, Clone, Copy)]
pub struct UiRepositioning {
    pub layout_width: u32,
    pub anim42_width: Option<u32>,
    pub anim44_x: Option<i32>,
}

/// Lays the user interface out for a screen `real_resolution_width` pixels wide:
/// up to 1280 pixels the game's own layout applies; above it the layout for 1280
/// is used with the map frame widened and the side panel moved to the right edge.
pub fn reposition_ui_elements(real_resolution_width: u32) -> (r: UiRepositioning)
    requires
        real_resolution_width > VANILLA_MAX_WIDTH ==> in_i32((real_resolution_width as i32) - 284),
    ensures
        real_resolution_width <= VANILLA_MAX_WIDTH ==> r.layout_width == real_resolution_width
            && r.anim42_width is None && r.anim44_x is None,
        real_resolution_width > VANILLA_MAX_WIDTH ==> r.layout_width == VANILLA_MAX_WIDTH
            && r.anim42_width == Some((real_resolution_width - 284) as u32)
            && r.anim44_x == Some(((real_resolution_width as i32) - 284) as i32),
{
    if real_resolution_width <= VANILLA_MAX_WIDTH {
        return UiRepositioning { layout_width: real_resolution_width, anim42_width: None, anim44_x: None };
    }
    let new_width = real_resolution_width - SIDE_PANEL_WIDTH;
    let new_x = real_resolution_width as i32 - 284;
    UiRepositioning { layout_width: VANILLA_MAX_WIDTH, anim42_width: Some(new_width), anim44_x: Some(new_x) }
}

/// The width that the game's top bar layout switch should use: the real width up
/// to 1280 pixels, 1280 above.
pub fn top_bar_layout_width(real_resolution_width: u32) -> (w: u32)
    ensures
        w == if real_resolution_width <= VANILLA_MAX_WIDTH {
            real_resolution_width
        } else {
            VANILLA_MAX_WIDTH
        },
{
    if real_resolution_width <= VANILLA_MAX_WIDTH {
        real_resolution_width
    } else {
        VANILLA_MAX_WIDTH
    }
}

/// The rectangle `(left, top, right, bottom)` below the side panel that the
/// high resolution modification paints black.
pub fn side_panel_fill_rect(resolution_width: u32, resolution_height: u32) -> (rect: (i32, i32, i32, i32))
    requires
        in_i32((resolution_width as i32) - 284),
    ensures
        rect == (((resolution_width as i32) - 284) as i32, 1024i32, resolution_width as i32, resolution_height as i32),
{
    let res_width = resolution_width as i32;
    let res_height = resolution_height as i32;
    (res_width - 284, 1024, res_width, res_height)
}

/// std's `str::ends_with` with a string pattern: whether the bytes of `s` end
/// with the bytes of `suffix`.
#[verifier::external_body]
fn str_ends_with(s: &str, suffix: &str) -> (r: bool)
    ensures
        r == (suffix.spec_bytes().len() <= s.spec_bytes().len() && s.spec_bytes().subrange(
            s.spec_bytes().len() - suffix.spec_bytes().len(),
            s.spec_bytes().len() as int,
        ) == suffix.spec_bytes()),
{
    s.ends_with(suffix)
}

/// Whether the game is loading the 1280-pixel overview map, which the high
/// resolution modification replaces by its 1920-pixel one.
pub fn replaces_overview_map(file_path: &str) -> (r: bool)
    ensures
        r == ("Vollansichtskarte1280.bmp".spec_bytes().len() <= file_path.spec_bytes().len()
            && file_path.spec_bytes().subrange(
            file_path.spec_bytes().len() - "Vollansichtskarte1280.bmp".spec_bytes().len(),
            file_path.spec_bytes().len() as int,
        ) == "Vollansichtskarte1280.bmp".spec_bytes()),
{
    str_ends_with(file_path, "Vollansichtskarte1280.bmp")
}

} // verus!

verus! {

/// A ship as the scroll map sees it: its status and its y position (16.16 fixed
/// point).
#[derive(Debug, Clone, Copy)]
pub struct ShipSighting {
    pub status: u32,
    pub y: i32,
}

/// Whether the scroll map draws a ship of this status: sailing ships (0x0f) and
/// ships at sea (0x12).
pub open spec fn drawn_on_scroll_map(status: u32) -> bool {
    status == 0x12 || status == 0x0f
}

/// The drawn ships among the first `k`, as `(y in pixels, ship index)`.
pub open spec fn spotted_from(ships: Seq<ShipSighting>, k: int) -> Seq<(i32, u32)>
    decreases k,
{
    if k <= 0 {
        Seq::empty()
    } else {
        let prev = spotted_from(ships, k - 1);
        let ship = ships[k - 1];
        if drawn_on_scroll_map(ship.status) {
            prev.push((ship.y >> 16, (k - 1) as u32))
        } else {
            prev
        }
    }
}

/// The ships that the scroll map draws: every ship at sea, not only the spotted
/// ones, with its y position in pixels and its index.
pub fn spotted_ships(ships: &[ShipSighting]) -> (spotted: Vec<(i32, u32)>)
    requires
        ships@.len() <= u32::MAX,
    ensures
        spotted@ == spotted_from(ships@, ships@.len() as int),
{
    let mut spotted: Vec<(i32, u32)> = vec![];
    let mut i: usize = 0;
    while i < ships.len()
        invariant
            i <= ships@.len(),
            ships@.len() <= u32::MAX,
            spotted@ == spotted_from(ships@, i as int),
        decreases ships@.len() - i,
    {
        let ship = ships[i];
        if ship.status != 0x12 && ship.status != 0x0f {
            i += 1;
            continue;
        }
        spotted.push((ship.y >> 16, i as u32));
        i += 1;
    }
    spotted
}

/// The experience that the shipyard needs for the next quality level of a ship
/// type at quality `level`, with `requirements` indexed by level; none at the
/// top level 3.
pub fn next_quality_requirement(level: u8, requirements: &[u32]) -> (r: Option<u32>)
    requires
        level < 255,
        level < 3 ==> level + 1 < requirements@.len(),
    ensures
        r == if level < 3 {
            Some(requirements@[level + 1])
        } else {
            None::<u32>
        },
{
    let next_level = (level + 1) as usize;
    if level < 3 {
        Some(requirements[next_level])
    } else {
        None
    }
}

/// An order to copy the trading settings of one ware to another office.
#[derive(Debug, Clone, Copy, PartialEq, Eq, Structural)]
pub struct AutotradeSettingChange {
    pub stock: i32,
    pub price: i32,
    pub office_index: u32,
    pub ware: usize,
}

/// The number of wares in the trading office's settings.
pub const AUTOTRADE_WARE_COUNT: usize = 20;

/// Whether the setting office trades ware `w`: the low bit of its stock
/// setting, in units of the ware's scaling, is set.
pub open spec fn autotrade_enabled(setting_stock: Seq<i32>, scalings: Seq<i32>, w: int) -> bool {
    trunc_div(setting_stock[w] as int, scalings[w] as int) % 2 != 0
}

/// The orders for the first `k` wares.
pub open spec fn autotrade_changes_from(
    setting_stock: Seq<i32>,
    setting_prices: Seq<i32>,
    scalings: Seq<i32>,
    office_index: u32,
    stock: Seq<i32>,
    k: int,
) -> Seq<AutotradeSettingChange>
    decreases k,
{
    if k <= 0 {
        Seq::empty()
    } else {
        let prev = autotrade_changes_from(setting_stock, setting_prices, scalings, office_index, stock, k - 1);
        let w = k - 1;
        if autotrade_enabled(setting_stock, scalings, w) {
            prev.push(
                AutotradeSettingChange {
                    stock: stock[w],
                    price: setting_prices[w],
                    office_index,
                    ware: w as usize,
                },
            )
        } else {
            prev
        }
    }
}

/// The orders that give the office `office_index` the prices of the office whose
/// trading window was closed, for every ware that the latter trades; the stock
/// limit of each ware stays the office's own.
pub fn autotrade_setting_changes(
    setting_stock: &[i32],
    setting_prices: &[i32],
    scalings: &[i32],
    office_index: u32,
    stock: &[i32],
) -> (changes: Vec<AutotradeSettingChange>)
    requires
        setting_stock@.len() >= AUTOTRADE_WARE_COUNT,
        setting_prices@.len() >= AUTOTRADE_WARE_COUNT,
        scalings@.len() >= AUTOTRADE_WARE_COUNT,
        stock@.len() >= AUTOTRADE_WARE_COUNT,
        forall|w: int| 0 <= w < AUTOTRADE_WARE_COUNT ==> #[trigger] scalings@[w] > 0,
    ensures
        changes@ == autotrade_changes_from(
            setting_stock@,
            setting_prices@,
            scalings@,
            office_index,
            stock@,
            AUTOTRADE_WARE_COUNT as int,
        ),
{
    let mut changes: Vec<AutotradeSettingChange> = vec![];
    let mut i: usize = 0;
    while i < AUTOTRADE_WARE_COUNT
        invariant
            i <= AUTOTRADE_WARE_COUNT,
            setting_stock@.len() >= AUTOTRADE_WARE_COUNT,
            setting_prices@.len() >= AUTOTRADE_WARE_COUNT,
            scalings@.len() >= AUTOTRADE_WARE_COUNT,
            stock@.len() >= AUTOTRADE_WARE_COUNT,
            forall|w: int| 0 <= w < AUTOTRADE_WARE_COUNT ==> #[trigger] scalings@[w] > 0,
            changes@ == autotrade_changes_from(setting_stock@, setting_prices@, scalings@, office_index, stock@, i as int),
        decreases AUTOTRADE_WARE_COUNT - i,
    {
        let scaling = scalings[i];
        assert(scaling > 0);
        if setting_stock[i] / scaling % 2 == 0 {
            i += 1;
            continue;
        }
        changes.push(AutotradeSettingChange { stock: stock[i], price: setting_prices[i], office_index, ware: i });
        i += 1;
    }
    changes
}

/// The five bytes of a relative jump (`E9` and a little-endian displacement)
/// placed at `patch_address` that lands at `target_address`.
pub open spec fn jump_patch_bytes(target_address: u32, patch_address: u32) -> Seq<u8> {
    let rel = ((target_address - patch_address) % 0x1_0000_0000) - 5;
    seq![0xe9u8, (rel % 256) as u8, ((rel / 256) % 256) as u8, ((rel / 65536) % 256) as u8, (rel / 16777216) as u8]
}

/// The relative jump to `target_address` that the modifications write at
/// `patch_address`.
pub fn jump_patch(target_address: u32, patch_address: u32) -> (patch: [u8; 5])
    requires
        (target_address - patch_address) % 0x1_0000_0000 >= 5,
    ensures
        patch@ == jump_patch_bytes(target_address, patch_address),
{
    let relative_address: u32 = target_address.wrapping_sub(patch_address) - 5;
    let r = relative_address;
    assert((r & 0xff) as u8 == (r % 256) as u8 && ((r >> 8) & 0xff) as u8 == ((r / 256) % 256) as u8
        && ((r >> 16) & 0xff) as u8 == ((r / 65536) % 256) as u8 && ((r >> 24) & 0xff) as u8 == (r / 16777216) as u8)
        by (bit_vector);
    [
        0xe9,
        (relative_address & 0xff) as u8,
        ((relative_address >> 8) & 0xff) as u8,
        ((relative_address >> 16) & 0xff) as u8,
        ((relative_address >> 24) & 0xff) as u8,
    ]
}

/// The displacement operand of a relative call whose operand lies at
/// `operand_address` (just after the `E8` opcode) and that calls
/// `target_address`.
pub fn call_displacement(target_address: u32, operand_address: u32) -> (displacement: u32)
    requires
        1 <= operand_address,
        operand_address + 4 <= u32::MAX,
    ensures
        displacement == (target_address - (operand_address + 4)) % 0x1_0000_0000,
{
    target_address.wrapping_sub(operand_address - 1 + 5)
}

} // verus!

verus! {

/// The jump that `jump_patch` writes lands at its target: the instruction's end
/// (`patch_address + 5`) plus the little-endian displacement that follows the
/// opcode is `target_address`, modulo 2^32.
pub proof fn lemma_jump_patch_lands_at_target(target_address: u32, patch_address: u32)
    requires
        (target_address - patch_address) % 0x1_0000_0000 >= 5,
    ensures
        ({
            let p = jump_patch_bytes(target_address, patch_address);
            &&& p[0] == 0xe9
            &&& (patch_address + 5 + crate::bytes::u32_le(p[1], p[2], p[3], p[4])) % 0x1_0000_0000
                == target_address
        }),
{
    let rel = ((target_address - patch_address) % 0x1_0000_0000) - 5;
    let p = jump_patch_bytes(target_address, patch_address);
    assert(0 <= rel < 0x1_0000_0000);
    assert(crate::bytes::u32_le(p[1], p[2], p[3], p[4]) == rel);
    assert((patch_address + (target_address - patch_address) % 0x1_0000_0000) % 0x1_0000_0000 == target_address);
}

/// The call that `call_displacement` encodes lands at its target: the end of the
/// call instruction (its operand address plus 4) plus the displacement is
/// `target_address`, modulo 2^32.
pub proof fn lemma_call_lands_at_target(target_address: u32, operand_address: u32)
    ensures
        (operand_address + 4 + (target_address - (operand_address + 4)) % 0x1_0000_0000) % 0x1_0000_0000
            == target_address,
{
}

/// The bribers that are `merchant`.
pub open spec fn is_briber(merchant: u8) -> spec_fn(u8) -> bool {
    |b: u8| b == merchant
}

/// The bribed councillors that are counted for a merchant are exactly the
/// entries that name it, however many there are: the count is the number of
/// those entries, and one more such entry raises it by one.
pub proof fn lemma_bribes_count_every_match(bribers: Seq<u8>, merchant: u8)
    ensures
        bribes_by(bribers, merchant) == bribers.filter(is_briber(merchant)).len(),
        bribes_by(bribers.push(merchant), merchant) == bribes_by(bribers, merchant) + 1,
    decreases bribers.len(),
{
    reveal(Seq::filter);
    assert(bribers.push(merchant).drop_last() =~= bribers);
    if bribers.len() > 0 {
        lemma_bribes_count_every_match(bribers.drop_last(), merchant);
    }
}

proof fn lemma_spotted_from(ships: Seq<ShipSighting>, k: int)
    requires
        0 <= k <= ships.len(),
        ships.len() <= u32::MAX,
    ensures
        ({
            let s = spotted_from(ships, k);
            &&& forall|j: int|
                0 <= j < s.len() ==> {
                    let i = (#[trigger] s[j]).1 as int;
                    &&& i < k
                    &&& (ships[i].status == 0x12 || ships[i].status == 0x0f)
                    &&& s[j].0 == ships[i].y >> 16
                }
            &&& forall|j: int, l: int| 0 <= j < l < s.len() ==> (#[trigger] s[j]).1 < (#[trigger] s[l]).1
            &&& forall|i: int|
                0 <= i < k && ((#[trigger] ships[i]).status == 0x12 || ships[i].status == 0x0f) ==> exists|j: int|
                    0 <= j < s.len() && s[j].1 == i
        }),
    decreases k,
{
    if k > 0 {
        lemma_spotted_from(ships, k - 1);
        let prev = spotted_from(ships, k - 1);
        let s = spotted_from(ships, k);
        let ship = ships[k - 1];
        if ship.status == 0x12 || ship.status == 0x0f {
            assert(s == prev.push((ship.y >> 16, (k - 1) as u32)));
            assert(s[prev.len() as int].1 == k - 1);
            assert forall|i: int|
                0 <= i < k && ((#[trigger] ships[i]).status == 0x12 || ships[i].status == 0x0f) implies exists|j: int|
                0 <= j < s.len() && s[j].1 == i by {
                if i < k - 1 {
                    let j = choose|j: int| 0 <= j < prev.len() && prev[j].1 == i;
                    assert(s[j] == prev[j]);
                } else {
                    assert(s[prev.len() as int].1 == i);
                }
            }
            assert forall|j: int, l: int| 0 <= j < l < s.len() implies (#[trigger] s[j]).1 < (#[trigger] s[l]).1 by {
                assert(s[j] == prev[j]);
                if l < prev.len() {
                    assert(s[l] == prev[l]);
                }
            }
            assert forall|j: int| 0 <= j < s.len() implies {
                let i = (#[trigger] s[j]).1 as int;
                &&& i < k
                &&& (ships[i].status == 0x12 || ships[i].status == 0x0f)
                &&& s[j].0 == ships[i].y >> 16
            } by {
                if j < prev.len() {
                    assert(s[j] == prev[j]);
                }
            }
        } else {
            assert forall|i: int|
                0 <= i < k && ((#[trigger] ships[i]).status == 0x12 || ships[i].status == 0x0f) implies exists|j: int|
                0 <= j < s.len() && s[j].1 == i by {
                assert(i < k - 1);
            }
        }
    }
}

/// The scroll map draws exactly the sailing ships (status 0x0f) and the ships
/// at sea (status 0x12): every entry `(y, i)` names such a ship `i`, with `y`
/// its row in pixels (its 16.16 fixed point position shifted down), the
/// entries follow the ships' order, and every such ship has an entry.
pub proof fn lemma_spotted_ships_are_the_ships_at_sea(ships: Seq<ShipSighting>)
    requires
        ships.len() <= u32::MAX,
    ensures
        ({
            let s = spotted_from(ships, ships.len() as int);
            &&& forall|j: int|
                0 <= j < s.len() ==> {
                    let i = (#[trigger] s[j]).1 as int;
                    &&& i < ships.len()
                    &&& (ships[i].status == 0x12 || ships[i].status == 0x0f)
                    &&& s[j].0 == ships[i].y >> 16
                }
            &&& forall|j: int, l: int| 0 <= j < l < s.len() ==> (#[trigger] s[j]).1 < (#[trigger] s[l]).1
            &&& forall|i: int|
                0 <= i < ships.len() && ((#[trigger] ships[i]).status == 0x12 || ships[i].status == 0x0f)
                    ==> exists|j: int| 0 <= j < s.len() && s[j].1 == i
        }),
{
    lemma_spotted_from(ships, ships.len() as int);
}

} // verus!
