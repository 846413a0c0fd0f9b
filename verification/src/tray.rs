use vstd::prelude::*;

use crate::config::{all_caps_in_range, spec_default_cap_presets, strictly_descending};
use crate::updater::decimal;

verus! {

/// The side of the tray icon, in pixels.
pub const ICON_SIZE: u32 = 32;

/// The height of the volume bar at the bottom of the tray icon, in pixels.
pub const BAR_HEIGHT: u32 = 4;

/// The caps offered in the "Max volume" menu: percentage and label.
pub const VOLCAP_PRESETS: [(u32, &'static str); 4] = [(100, "100%"), (80, "80%"), (60, "60%"), (40, "40%")];

/// The color of the volume bar while sound is on: white, nearly opaque.
pub const BAR_COLOR: [u8; 4] = [255, 255, 255, 230];

/// The color of the volume bar while muted: red.
pub const MUTED_BAR_COLOR: [u8; 4] = [210, 60, 60, 255];

/// The color of the bar's track, right of the filled part: translucent black.
pub const TRACK_COLOR: [u8; 4] = [0, 0, 0, 120];

/// The number of bytes of the icon's RGBA pixels.
pub open spec fn icon_bytes() -> int {
    ICON_SIZE * ICON_SIZE * 4
}

/// The index of the first byte of the volume bar: the bar covers the last
/// `BAR_HEIGHT` rows of the icon.
pub open spec fn bar_start() -> int {
    (ICON_SIZE - BAR_HEIGHT) * ICON_SIZE * 4
}

/// Byte `c` of the color of the bar's pixel in column `x`, when `filled`
/// columns are filled.
pub open spec fn bar_pixel_byte(x: int, filled: int, muted: bool, c: int) -> u8 {
    if x < filled {
        if muted {
            MUTED_BAR_COLOR@[c]
        } else {
            BAR_COLOR@[c]
        }
    } else {
        TRACK_COLOR@[c]
    }
}

/// Which columns of the bar are filled does not depend on the mute state:
/// a column left of `filled` is in the bar color, red when muted and white
/// otherwise, and every other column is in the track color.
pub proof fn lemma_bar_fill_from_left(x: int, filled: int, c: int)
    requires
        0 <= x < ICON_SIZE,
        0 <= c < 4,
    ensures
        x < filled ==> bar_pixel_byte(x, filled, true, c) == MUTED_BAR_COLOR@[c],
        x < filled ==> bar_pixel_byte(x, filled, false, c) == BAR_COLOR@[c],
        x >= filled ==> bar_pixel_byte(x, filled, true, c) == TRACK_COLOR@[c],
        x >= filled ==> bar_pixel_byte(x, filled, false, c) == TRACK_COLOR@[c],
{
}

/// Paints the volume bar over the bottom rows of the icon's RGBA pixels
/// `rgba`: the first `filled` columns in the bar color (red when `muted`),
/// the rest in the track color. The rows above are left as they are.
pub fn paint_volume_bar(rgba: &mut Vec<u8>, filled: u32, muted: bool)
    requires
        old(rgba)@.len() == icon_bytes(),
    ensures
        final(rgba)@.len() == old(rgba)@.len(),
        forall|i: int| 0 <= i < bar_start() ==> #[trigger] final(rgba)@[i] == old(rgba)@[i],
        forall|p: int, c: int|
            0 <= p < BAR_HEIGHT * ICON_SIZE && 0 <= c < 4 ==> #[trigger] final(rgba)@[bar_start() + p * 4 + c]
                == bar_pixel_byte(p % (ICON_SIZE as int), filled as int, muted, c),
        forall|row: int, x: int, c: int|
            0 <= row < BAR_HEIGHT && 0 <= x < ICON_SIZE && 0 <= c < 4 ==> #[trigger] final(rgba)@[bar_start() + (row
                * ICON_SIZE + x) * 4 + c] == (if x < filled {
                if muted {
                    MUTED_BAR_COLOR@[c]
                } else {
                    BAR_COLOR@[c]
                }
            } else {
                TRACK_COLOR@[c]
            }),
{
    let color: [u8; 4] = if muted {
        MUTED_BAR_COLOR
    } else {
        BAR_COLOR
    };
    let track: [u8; 4] = TRACK_COLOR;
    let start: usize = ((ICON_SIZE - BAR_HEIGHT) * ICON_SIZE * 4) as usize;
    let pixels: usize = (BAR_HEIGHT * ICON_SIZE) as usize;
    let ghost before = rgba@;
    for p in 0..pixels
        invariant
            pixels == BAR_HEIGHT * ICON_SIZE,
            start == bar_start(),
            rgba@.len() == icon_bytes(),
            before.len() == icon_bytes(),
            color@ == (if muted {
                MUTED_BAR_COLOR@
            } else {
                BAR_COLOR@
            }),
            track@ == TRACK_COLOR@,
            forall|i: int| 0 <= i < bar_start() ==> #[trigger] rgba@[i] == before[i],
            forall|q: int, c: int|
                0 <= q < p && 0 <= c < 4 ==> #[trigger] rgba@[bar_start() + q * 4 + c] == bar_pixel_byte(
                    q % (ICON_SIZE as int),
                    filled as int,
                    muted,
                    c,
                ),
    {
        let x = (p as u32) % ICON_SIZE;
        let paint: [u8; 4] = if x < filled {
            color
        } else {
            track
        };
        let base = start + p * 4;
        let ghost prev = rgba@;
        rgba.set(base, paint[0]);
        rgba.set(base + 1, paint[1]);
        rgba.set(base + 2, paint[2]);
        rgba.set(base + 3, paint[3]);
        assert forall|q: int, c: int|
            0 <= q < p + 1 && 0 <= c < 4 implies #[trigger] rgba@[bar_start() + q * 4 + c] == bar_pixel_byte(
                q % (ICON_SIZE as int),
                filled as int,
                muted,
                c,
            ) by {
            if q < p {
                assert(prev[bar_start() + q * 4 + c] == bar_pixel_byte(q % (ICON_SIZE as int), filled as int, muted, c));
            } else {
                assert(x == q % (ICON_SIZE as int));
                if c == 0 {
                    assert(rgba@[base as int] == paint@[0]);
                } else if c == 1 {
                    assert(rgba@[base + 1] == paint@[1]);
                } else if c == 2 {
                    assert(rgba@[base + 2] == paint@[2]);
                } else {
                    assert(rgba@[base + 3] == paint@[3]);
                }
            }
        }
    }
    assert forall|row: int, x: int, c: int|
        0 <= row < BAR_HEIGHT && 0 <= x < ICON_SIZE && 0 <= c < 4 implies #[trigger] rgba@[bar_start() + (row
            * ICON_SIZE + x) * 4 + c] == (if x < filled {
            if muted {
                MUTED_BAR_COLOR@[c]
            } else {
                BAR_COLOR@[c]
            }
        } else {
            TRACK_COLOR@[c]
        }) by {
        let p = row * ICON_SIZE + x;
        assert(0 <= p < BAR_HEIGHT * ICON_SIZE && p % (ICON_SIZE as int) == x) by (nonlinear_arith)
            requires
                0 <= row < 4,
                0 <= x < 32,
                p == row * 32 + x,
                ICON_SIZE == 32,
                BAR_HEIGHT == 4,
        ;
        assert(rgba@[bar_start() + p * 4 + c] == bar_pixel_byte(x, filled as int, muted, c));
        lemma_bar_fill_from_left(x, filled as int, c);
    }
}

/// The cap percentages of the "Max volume" menu, in menu order.
pub open spec fn spec_volcap_percents() -> Seq<u32> {
    seq![100u32, 80u32, 60u32, 40u32]
}

/// For each entry of the "Max volume" menu, whether it is the one checked
/// when the cap is `pct`.
pub fn volcap_checks(pct: u32) -> (r: Vec<bool>)
    ensures
        r@.len() == spec_volcap_percents().len(),
        forall|i: int| 0 <= i < r@.len() ==> r@[i] == (spec_volcap_percents()[i] == pct),
{
    let presets = VOLCAP_PRESETS;
    assert(presets@.len() == 4);
    assert(presets@[0].0 == 100 && presets@[1].0 == 80 && presets@[2].0 == 60 && presets@[3].0 == 40);
    let mut r: Vec<bool> = Vec::new();
    let n = presets.len();
    for i in 0..n
        invariant
            n == presets@.len(),
            r@.len() == i,
            forall|j: int| 0 <= j < n ==> presets@[j].0 == spec_volcap_percents()[j],
            forall|j: int| 0 <= j < i ==> r@[j] == (spec_volcap_percents()[j] == pct),
    {
        r.push(presets[i].0 == pct);
    }
    r
}

/// The "Max volume" menu offers the default cap presets, from largest to
/// smallest, each an accepted cap, each labelled with its percentage in
/// decimal followed by `%`.
pub proof fn lemma_volcap_presets()
    ensures
        VOLCAP_PRESETS@.len() == spec_volcap_percents().len(),
        forall|i: int| 0 <= i < VOLCAP_PRESETS@.len() ==> #[trigger] VOLCAP_PRESETS@[i].0 == spec_volcap_percents()[i],
        forall|i: int| 0 <= i < VOLCAP_PRESETS@.len() ==> #[trigger] VOLCAP_PRESETS@[i].1@ == decimal(
            VOLCAP_PRESETS@[i].0 as nat,
        ) + seq!['%'],
        spec_volcap_percents() == spec_default_cap_presets(),
        strictly_descending(spec_volcap_percents()),
        all_caps_in_range(spec_volcap_percents()),
{
    reveal_strlit("100%");
    reveal_strlit("80%");
    reveal_strlit("60%");
    reveal_strlit("40%");
    assert(decimal(1) == seq!['1']);
    assert(decimal(10) == decimal(1).push('0'));
    assert(decimal(100) == decimal(10).push('0'));
    assert(decimal(100) =~= seq!['1', '0', '0']);
    assert(decimal(8) == seq!['8']);
    assert(decimal(80) == decimal(8).push('0'));
    assert(decimal(80) =~= seq!['8', '0']);
    assert(decimal(6) == seq!['6']);
    assert(decimal(60) == decimal(6).push('0'));
    assert(decimal(60) =~= seq!['6', '0']);
    assert(decimal(4) == seq!['4']);
    assert(decimal(40) == decimal(4).push('0'));
    assert(decimal(40) =~= seq!['4', '0']);
    assert(VOLCAP_PRESETS@[0].1@ =~= decimal(100) + seq!['%']);
    assert(VOLCAP_PRESETS@[1].1@ =~= decimal(80) + seq!['%']);
    assert(VOLCAP_PRESETS@[2].1@ =~= decimal(60) + seq!['%']);
    assert(VOLCAP_PRESETS@[3].1@ =~= decimal(40) + seq!['%']);
}

/// At most one entry of the "Max volume" menu is checked.
pub proof fn lemma_volcap_single_check(pct: u32, i: int, j: int)
    requires
        0 <= i < spec_volcap_percents().len(),
        0 <= j < spec_volcap_percents().len(),
        spec_volcap_percents()[i] == pct,
        spec_volcap_percents()[j] == pct,
    ensures
        i == j,
{
}

} // verus!
