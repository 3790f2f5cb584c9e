//! The map of the sprite sheet: where on it each picture of the game is.

use vstd::prelude::*;
use crate::spatial::{Position, Region, Size};

verus! {

/// The pictures that a cell of the board is drawn with, as regions of the
/// sprite sheet.
#[derive(Debug, Clone, Copy)]
pub struct CellSprites {
    /// A cell that sees more hidden mines than placed ones.
    pub over: Region,
    /// The mark of a cell that sees more placed mines than hidden ones.
    pub warning: Region,
    /// The same mark, small, for a cell with a mine on it.
    pub mini_warning: Region,
    /// A cell that sees no more hidden mines than placed ones.
    pub just: Region,
    /// A mine of the player.
    pub mine: Region,
    pub mine_alpha: Region,
    pub focus: Region,
    /// The numbers 1 to 9.
    pub numbers: [Region; 9],
    /// The numbers 1 to 8, small, for a cell with a mine on it.
    pub mini_numbers: [Region; 8],
}

/// The region of `width` by `height` pixels at `(x, y)` of the sheet.
pub open spec fn sheet(x: int, y: int, width: int, height: int) -> Region {
    Region {
        position: Position { x: x as i32, y: y as i32 },
        size: Size { width: width as u32, height: height as u32 },
    }
}

/// The sprite sheet of the game.
pub struct Assets {}

impl Assets {
    /// Where the number `n`, from 1 to 9, is on the sheet: in two rows of
    /// cells, the first of which begins with the warning mark.
    pub open spec fn number(n: int) -> Region {
        if n <= 4 {
            sheet(16 * n, 16, 16, 16)
        } else {
            sheet(16 * (n - 5), 32, 16, 16)
        }
    }

    /// Where the small number `n`, from 1 to 8, is on the sheet.
    pub open spec fn mini_number(n: int) -> Region {
        sheet(8 * n, 48, 8, 8)
    }

    /// Where the digit `d` of the header is on the sheet: the digits stand in
    /// two rows of five, in every other column of eight pixels.
    pub open spec fn digit(d: int) -> Region {
        sheet(80 + 8 * (2 * (d % 5) + 1), 16 * (d / 5), 8, 16)
    }

    /// Where the small digit `d` is on the sheet: in two rows of five, four
    /// pixels apart.
    pub open spec fn small_digit(d: int) -> Region {
        sheet(192 + 4 * (d % 5), 8 * (d / 5), 4, 4)
    }

    pub open spec fn header(custom_mode: bool) -> Region {
        sheet(0, if custom_mode { 96int } else { 64int }, 256, 24)
    }

    /// Where the start buttons of the three presets and the help button are
    /// on the sheet, in this order.
    pub open spec fn button(i: int) -> Region {
        if i == 0 {
            sheet(80, 32, 24, 24)
        } else if i == 1 {
            sheet(104, 32, 24, 24)
        } else if i == 2 {
            sheet(152, 32, 24, 24)
        } else {
            sheet(128, 32, 24, 24)
        }
    }

    pub open spec fn custom_button() -> Region {
        sheet(192, 32, 24, 24)
    }

    /// The ground of a cell that sees no more hidden mines than placed ones.
    pub open spec fn just() -> Region {
        sheet(0, 0, 16, 16)
    }

    /// The ground of a cell that sees more hidden mines than placed ones.
    pub open spec fn over() -> Region {
        sheet(16, 0, 16, 16)
    }

    /// A mine of the player.
    pub open spec fn mine() -> Region {
        sheet(32, 0, 16, 16)
    }

    /// The mark of a cell that sees more placed mines than hidden ones.
    pub open spec fn warning() -> Region {
        sheet(0, 16, 16, 16)
    }

    /// The same mark, small.
    pub open spec fn mini_warning() -> Region {
        sheet(0, 48, 8, 8)
    }

    /// Whether `sprites` are the pictures of a cell, each from its place on
    /// the sheet.
    pub open spec fn cells(sprites: CellSprites) -> bool {
        &&& sprites.just == Assets::just()
        &&& sprites.over == Assets::over()
        &&& sprites.mine == Assets::mine()
        &&& sprites.focus == sheet(48, 0, 16, 16)
        &&& sprites.mine_alpha == sheet(64, 0, 16, 16)
        &&& sprites.warning == Assets::warning()
        &&& sprites.mini_warning == Assets::mini_warning()
        &&& forall|n: int| 1 <= n <= 9 ==> #[trigger] sprites.numbers@[n - 1] == Assets::number(n)
        &&& forall|n: int|
            1 <= n <= 8 ==> #[trigger] sprites.mini_numbers@[n - 1] == Assets::mini_number(n)
    }

    /// The pictures of a cell.
    pub fn cell_sprites() -> (sprites: CellSprites)
        ensures
            Assets::cells(sprites),
    {
        let region: Region = Size::square(16).to_region();
        let mini_region: Region = Size::square(8).to_region().move_y(48);
        let sprites = CellSprites {
            just: region,
            over: region.shift_x(1),
            mine: region.shift_x(2),
            mine_alpha: region.shift_x(4),
            focus: region.shift_x(3),
            warning: region.shift_y(1).shift_x(0),
            numbers: [
                region.shift_y(1).shift_x(1),
                region.shift_y(1).shift_x(2),
                region.shift_y(1).shift_x(3),
                region.shift_y(1).shift_x(4),
                region.shift_y(2).shift_x(0),
                region.shift_y(2).shift_x(1),
                region.shift_y(2).shift_x(2),
                region.shift_y(2).shift_x(3),
                region.shift_y(2).shift_x(4),
            ],
            mini_warning: mini_region,
            mini_numbers: [
                mini_region.shift_x(1),
                mini_region.shift_x(2),
                mini_region.shift_x(3),
                mini_region.shift_x(4),
                mini_region.shift_x(5),
                mini_region.shift_x(6),
                mini_region.shift_x(7),
                mini_region.shift_x(8),
            ],
        };
        assert forall|n: int| 1 <= n <= 9 implies #[trigger] sprites.numbers@[n - 1]
            == Assets::number(n) by {
            assert(n == 1 || n == 2 || n == 3 || n == 4 || n == 5 || n == 6 || n == 7 || n == 8
                || n == 9);
        }
        assert forall|n: int| 1 <= n <= 8 implies #[trigger] sprites.mini_numbers@[n - 1]
            == Assets::mini_number(n) by {
            assert(n == 1 || n == 2 || n == 3 || n == 4 || n == 5 || n == 6 || n == 7 || n == 8);
        }
        sprites
    }

    /// The background of the header; the custom level has one of its own.
    pub fn header_sprite(custom_mode: bool) -> (region: Region)
        ensures
            region == Assets::header(custom_mode),
    {
        let offset: i32 = if custom_mode {
            96
        } else {
            64
        };
        Size::from_wh(16 * 16, 24).to_region().move_y(offset)
    }

    /// The digits 0 to 9 of the header.
    pub fn digit_sprites() -> (digits: [Region; 10])
        ensures
            forall|d: int| 0 <= d <= 9 ==> #[trigger] digits@[d] == Assets::digit(d),
    {
        let region: Region = Size::from_wh(8, 16).to_region().move_x(80);
        let digits = [
            region.shift_x(1),
            region.shift_x(3),
            region.shift_x(5),
            region.shift_x(7),
            region.shift_x(9),
            region.shift_x(1).shift_y(1),
            region.shift_x(3).shift_y(1),
            region.shift_x(5).shift_y(1),
            region.shift_x(7).shift_y(1),
            region.shift_x(9).shift_y(1),
        ];
        assert forall|d: int| 0 <= d <= 9 implies #[trigger] digits@[d] == Assets::digit(d) by {
            assert(d == 0 || d == 1 || d == 2 || d == 3 || d == 4 || d == 5 || d == 6 || d == 7
                || d == 8 || d == 9);
        }
        digits
    }

    /// The small digits 0 to 9.
    pub fn small_digit_sprites() -> (digits: [Region; 10])
        ensures
            forall|d: int| 0 <= d <= 9 ==> #[trigger] digits@[d] == Assets::small_digit(d),
    {
        let region: Region = Size::from_wh(4, 4).to_region().move_x(192);
        let digits = [
            region.shift_x(0),
            region.shift_x(1),
            region.shift_x(2),
            region.shift_x(3),
            region.shift_x(4),
            region.shift_x(0).shift_y(2),
            region.shift_x(1).shift_y(2),
            region.shift_x(2).shift_y(2),
            region.shift_x(3).shift_y(2),
            region.shift_x(4).shift_y(2),
        ];
        assert forall|d: int| 0 <= d <= 9 implies #[trigger] digits@[d] == Assets::small_digit(
            d,
        ) by {
            assert(d == 0 || d == 1 || d == 2 || d == 3 || d == 4 || d == 5 || d == 6 || d == 7
                || d == 8 || d == 9);
        }
        digits
    }

    /// The start buttons of the three presets and the help button.
    pub fn button_sprites() -> (buttons: [Region; 4])
        ensures
            forall|i: int| 0 <= i <= 3 ==> #[trigger] buttons@[i] == Assets::button(i),
    {
        let region: Region = Size::from_wh(24, 24).to_region().move_y(32).move_x(80);
        let buttons = [region, region.shift_x(1), region.shift_x(3), region.shift_x(2)];
        assert forall|i: int| 0 <= i <= 3 implies #[trigger] buttons@[i] == Assets::button(i) by {
            assert(i == 0 || i == 1 || i == 2 || i == 3);
        }
        buttons
    }

    /// The start button of the custom level.
    pub fn custom_button_sprite() -> (region: Region)
        ensures
            region == Assets::custom_button(),
    {
        Size::from_wh(24, 24).to_region().move_y(32).move_x(192)
    }
}

/// Whether each of the `indices` names a colour of `palette`, which holds
/// three bytes for each colour.
pub open spec fn in_palette(indices: Seq<u8>, palette: Seq<u8>) -> bool {
    forall|i: int| 0 <= i < indices.len() ==> 3 * (#[trigger] indices[i]) + 2 < palette.len()
}

/// The pixels of a picture that names its colours by their place in a
/// palette: for each index the red, green and blue of its colour.
pub fn palette_to_rgb(indices: &[u8], palette: &[u8]) -> (rgb: Vec<u8>)
    requires
        in_palette(indices@, palette@),
        3 * indices@.len() <= usize::MAX,
    ensures
        rgb@.len() == 3 * indices@.len(),
        forall|i: int, c: int|
            0 <= i < indices@.len() && 0 <= c < 3 ==> #[trigger] rgb@[3 * i + c] == palette@[3
                * indices@[i] + c],
{
    let mut rgb: Vec<u8> = Vec::new();
    let mut k: usize = 0;
    while k < indices.len()
        invariant
            in_palette(indices@, palette@),
            3 * indices@.len() <= usize::MAX,
            k <= indices@.len(),
            rgb@.len() == 3 * k,
            forall|i: int, c: int|
                0 <= i < k && 0 <= c < 3 ==> #[trigger] rgb@[3 * i + c] == palette@[3
                    * indices@[i] + c],
        decreases indices.len() - k,
    {
        let i: usize = indices[k] as usize;
        let ghost before = rgb@;
        rgb.push(palette[i * 3]);
        rgb.push(palette[i * 3 + 1]);
        rgb.push(palette[i * 3 + 2]);
        assert forall|j: int, c: int| 0 <= j < k + 1 && 0 <= c < 3 implies #[trigger] rgb@[3 * j
            + c] == palette@[3 * indices@[j] + c] by {
            if j < k {
                assert(rgb@[3 * j + c] == before[3 * j + c]);
            }
        }
        k += 1;
    }
    rgb
}

} // verus!
