//! Sprites: regions of the atlas cut into a grid of animation frames.
use vstd::prelude::*;

use crate::scalar::{Rect, Scalar, Vec2};

verus! {

/// A rectangle of the atlas holding `frames` equally sized cells, read
/// left-to-right then top-to-bottom.
#[derive(Clone, Copy, PartialEq, Eq, Structural, Debug)]
pub struct SpriteAnim {
    /// Atlas region in UVs (0..1 over the whole atlas).
    pub rect: Rect,
    pub frames: u32,
    /// Cells per row; 0 means a single row.
    pub columns: u32,
    /// Playback speed; 0 locks frame 0.
    pub fps: Scalar,
}

/// One cell of a sprite's grid, with the size of the grid it belongs to.
#[derive(Clone, Copy, PartialEq, Eq, Structural, Debug)]
pub struct FrameCell {
    pub column: u32,
    pub row: u32,
    pub columns: u32,
    pub rows: u32,
}

impl SpriteAnim {
    /// The whole atlas as one static frame, the default sprite.
    #[verifier::allow_in_spec]
    pub fn full() -> SpriteAnim
        returns
            (SpriteAnim {
                rect: Rect {
                    min: Vec2 { x: Scalar::zero(), y: Scalar::zero() },
                    max: Vec2 { x: Scalar::one(), y: Scalar::one() },
                },
                frames: 1,
                columns: 0,
                fps: Scalar::zero(),
            }),
    {
        SpriteAnim::single(
            Rect {
                min: Vec2 { x: Scalar::zero(), y: Scalar::zero() },
                max: Vec2 { x: Scalar::one(), y: Scalar::one() },
            },
        )
    }

    /// A region shown as one static frame.
    pub fn single(rect: Rect) -> (sprite: SpriteAnim)
        ensures
            sprite.rect == rect,
            sprite.frames == 1,
            sprite.columns == 0,
            sprite.fps == Scalar::zero(),
    {
        SpriteAnim { rect, frames: 1, columns: 0, fps: Scalar::zero() }
    }

    /// Whether the sprite moves through its frames at all.
    pub open spec fn plays(self) -> bool {
        Scalar::zero().below(self.fps)
    }

    pub fn is_playing(&self) -> (r: bool)
        ensures
            r == self.plays(),
            r == Scalar::zero().below(self.fps),
    {
        Scalar::zero().lt(self.fps)
    }

    /// Length of one playthrough; infinite for static sprites.
    pub open spec fn playthrough(self, frames_over_fps: Scalar) -> Scalar {
        if self.plays() {
            frames_over_fps
        } else {
            Scalar::infinity()
        }
    }

    /// Length of one playthrough; infinite for static sprites.
    /// `frames_over_fps` is the quotient of the two fields.
    pub fn duration(&self, frames_over_fps: Scalar) -> (seconds: Scalar)
        ensures
            seconds == self.playthrough(frames_over_fps),
            Scalar::zero().below(self.fps) ==> seconds == frames_over_fps,
            !Scalar::zero().below(self.fps) ==> seconds.bits == 0x7f80_0000,
    {
        if self.is_playing() {
            frames_over_fps
        } else {
            Scalar::infinity()
        }
    }

    /// Number of frames in the grid: at least one.
    pub open spec fn grid_frames(self) -> int {
        if self.frames == 0 {
            1
        } else {
            self.frames as int
        }
    }

    /// Cells per row of the grid.
    pub open spec fn grid_columns(self) -> int {
        if self.columns == 0 {
            self.grid_frames()
        } else {
            self.columns as int
        }
    }

    /// Rows of the grid: as many as the frames need, the last one possibly
    /// partly empty.
    pub open spec fn grid_rows(self) -> int {
        (self.grid_frames() + self.grid_columns() - 1) / self.grid_columns()
    }

    /// The frame that plays after `ticks` whole frames of time (looping).
    pub open spec fn frame_at(self, ticks: int) -> int {
        if self.plays() {
            ticks % self.grid_frames()
        } else {
            0
        }
    }

    /// The grid cell of the frame that plays after `ticks` whole frames of time.
    pub open spec fn cell_at(self, ticks: int) -> FrameCell {
        FrameCell {
            column: (self.frame_at(ticks) % self.grid_columns()) as u32,
            row: (self.frame_at(ticks) / self.grid_columns()) as u32,
            columns: self.grid_columns() as u32,
            rows: self.grid_rows() as u32,
        }
    }

    /// The grid cell of the frame playing after `ticks` whole frames of time,
    /// that is the integer part of `age * fps` (looping).
    pub fn frame_cell(&self, ticks: u32) -> (cell: FrameCell)
        ensures
            cell.columns == self.grid_columns(),
            cell.rows == self.grid_rows(),
            cell.column == self.frame_at(ticks as int) % self.grid_columns(),
            cell.row == self.frame_at(ticks as int) / self.grid_columns(),
            cell.column < cell.columns,
            cell.row < cell.rows,
            cell == self.cell_at(ticks as int),
    {
        let frames: u32 = if self.frames == 0 {
            1
        } else {
            self.frames
        };
        let columns: u32 = if self.columns == 0 {
            frames
        } else {
            self.columns
        };
        let frame: u32 = if self.is_playing() {
            ticks % frames
        } else {
            0
        };
        proof {
            lemma_rows(frames as int, columns as int, frame as int);
        }
        let rows: u32 = (frames - 1) / columns + 1;
        FrameCell { column: frame % columns, row: frame / columns, columns, rows }
    }
}

/// Rounding up counts the row of the last frame and every row before it.
proof fn lemma_rows(frames: int, columns: int, frame: int)
    requires
        0 <= frame < frames,
        0 < columns,
    ensures
        (frames + columns - 1) / columns == (frames - 1) / columns + 1,
        frame / columns <= (frames - 1) / columns,
        (frames - 1) / columns < frames,
{
    vstd::arithmetic::div_mod::lemma_fundamental_div_mod(frames - 1, columns);
    let q = (frames - 1) / columns;
    let r = (frames - 1) % columns;
    assert(frames + columns - 1 == (q + 1) * columns + r) by (nonlinear_arith)
        requires
            frames - 1 == columns * q + r,
    ;
    vstd::arithmetic::div_mod::lemma_fundamental_div_mod_converse(frames + columns - 1, columns, q + 1, r);
    vstd::arithmetic::div_mod::lemma_div_is_ordered(frame, frames - 1, columns);
    assert(q <= frames - 1) by (nonlinear_arith)
        requires
            frames - 1 == columns * q + r,
            r >= 0,
            columns >= 1,
            q >= 0,
            frames >= 1,
    ;
}

/// Frames are read left-to-right then top-to-bottom: the cells before a cell
/// in that order are exactly as many as the frames before its frame.
pub proof fn law_frames_read_in_order(sprite: SpriteAnim, ticks: int)
    requires
        0 <= ticks,
    ensures
        ({
            let frame = sprite.frame_at(ticks);
            let columns = sprite.grid_columns();
            &&& 0 <= frame < sprite.grid_frames()
            &&& (frame / columns) * columns + frame % columns == frame
        }),
{
    let frame = sprite.frame_at(ticks);
    let columns = sprite.grid_columns();
    vstd::arithmetic::div_mod::lemma_fundamental_div_mod(frame, columns);
    assert(columns * (frame / columns) == (frame / columns) * columns) by (nonlinear_arith);
}

/// Playback loops: after one whole playthrough every frame comes up again.
pub proof fn law_playback_loops(sprite: SpriteAnim, ticks: int, rounds: int)
    requires
        0 <= ticks,
        0 <= rounds,
    ensures
        sprite.frame_at(ticks + rounds * sprite.grid_frames()) == sprite.frame_at(ticks),
{
    let frames = sprite.grid_frames();
    vstd::arithmetic::div_mod::lemma_mod_multiples_vanish(rounds, ticks, frames);
    assert(rounds * frames + ticks == frames * rounds + ticks) by (nonlinear_arith);
}

/// During the first playthrough, the frames play one after the other, from the
/// first to the last.
pub proof fn law_first_playthrough(sprite: SpriteAnim, ticks: int)
    requires
        sprite.plays(),
        0 <= ticks < sprite.grid_frames(),
    ensures
        sprite.frame_at(ticks) == ticks,
{
    vstd::arithmetic::div_mod::lemma_small_mod(ticks as nat, sprite.grid_frames() as nat);
}

/// No column count means a single row: every frame's cell is in row 0, at the
/// frame's own column.
pub proof fn law_no_columns_mean_one_row(sprite: SpriteAnim, ticks: int)
    requires
        sprite.columns == 0,
        0 <= ticks,
    ensures
        sprite.grid_rows() == 1,
        sprite.frame_at(ticks) / sprite.grid_columns() == 0,
        sprite.frame_at(ticks) % sprite.grid_columns() == sprite.frame_at(ticks),
{
    let frames = sprite.grid_frames();
    lemma_rows(frames, frames, 0);
    vstd::arithmetic::div_mod::lemma_basic_div(frames - 1, frames);
    law_frames_read_in_order(sprite, ticks);
    vstd::arithmetic::div_mod::lemma_basic_div(sprite.frame_at(ticks), frames);
    vstd::arithmetic::div_mod::lemma_small_mod(sprite.frame_at(ticks) as nat, frames as nat);
}

/// A sprite whose `fps` is not positive stays on its first frame forever.
pub proof fn law_static_sprites_stay(sprite: SpriteAnim, ticks: int)
    requires
        !Scalar::zero().below(sprite.fps),
    ensures
        sprite.frame_at(ticks) == 0,
{
}

/// The grid and the cell in numbers. A sprite has as many cells to a row as it
/// says, or all its frames in one row; no more rows than its frames need; and
/// shows, counting cells row by row, the first frame while it is static and the
/// frame that the time leaves after whole playthroughs while it plays.
pub proof fn law_cells_in_numbers(sprite: SpriteAnim, ticks: int)
    requires
        0 <= ticks,
    ensures
        ({
            let frames: int = if sprite.frames >= 1 {
                sprite.frames as int
            } else {
                1
            };
            let cell = sprite.cell_at(ticks);
            let shown = cell.row * cell.columns + cell.column;
            &&& cell.columns == if sprite.columns == 0 {
                frames
            } else {
                sprite.columns as int
            }
            &&& (cell.rows - 1) * cell.columns < frames <= cell.rows * cell.columns
            &&& 0 <= cell.column < cell.columns
            &&& 0 <= shown < frames
            &&& Scalar::zero().below(sprite.fps) ==> shown == ticks % frames
            &&& !Scalar::zero().below(sprite.fps) ==> shown == 0
        }),
{
    let frames = sprite.grid_frames();
    let columns = sprite.grid_columns();
    let frame = sprite.frame_at(ticks);
    law_frames_read_in_order(sprite, ticks);
    lemma_rows(frames, columns, frame);
    let q = (frames - 1) / columns;
    let r = (frames - 1) % columns;
    vstd::arithmetic::div_mod::lemma_fundamental_div_mod(frames - 1, columns);
    vstd::arithmetic::div_mod::lemma_fundamental_div_mod(frame, columns);
    assert(q * columns < frames <= (q + 1) * columns) by (nonlinear_arith)
        requires
            frames - 1 == columns * q + r,
            0 <= r < columns,
    ;
    assert(0 <= frame / columns) by (nonlinear_arith)
        requires
            0 <= frame,
            0 < columns,
    ;
    let cell = sprite.cell_at(ticks);
    assert(cell.row == frame / columns && cell.column == frame % columns);
    assert(cell.rows == q + 1 && cell.columns == columns);
}

/// One playthrough lasts `frames / fps` for a sprite that plays, whatever else
/// it is, and forever for one that does not.
pub proof fn law_only_speed_decides_how_long_a_sprite_plays(
    sprite: SpriteAnim,
    frames_over_fps: Scalar,
)
    ensures
        Scalar::zero().below(sprite.fps) ==> sprite.playthrough(frames_over_fps) == frames_over_fps,
        !Scalar::zero().below(sprite.fps) ==> sprite.playthrough(frames_over_fps).bits
            == 0x7f80_0000,
{
}

/// A region shown whole is one static frame of one cell.
pub proof fn law_full_is_the_whole_atlas()
    ensures
        SpriteAnim::full().rect.min.x.bits == 0,
        SpriteAnim::full().rect.min.y.bits == 0,
        SpriteAnim::full().rect.max.x.bits == 0x3f80_0000,
        SpriteAnim::full().rect.max.y.bits == 0x3f80_0000,
        SpriteAnim::full().frames == 1,
        SpriteAnim::full().columns == 0,
        SpriteAnim::full().fps.bits == 0,
{
}

} // verus!
