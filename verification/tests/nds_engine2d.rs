//! The two 2D engines.

use handheld::color::bgr555_to_rgba;
use handheld::nds::engine2d::background::map_offset;
use handheld::nds::engine2d::background::BackgroundKind::{
    self, Absent, Affine, ExtendedBitmap, ExtendedDirectBitmap, ExtendedRotscale, LargeBitmap, Text,
    ThreeD,
};
use handheld::nds::engine2d::{dispcnt, reg, Engine, Engine2d};
use handheld::nds::video::SCREEN_WIDTH;
use handheld::nds::vram::{Vram, VramSpace};
use handheld::state::{StateError, StateReader, StateWriter};

/// Both engines' palettes, and both engines' sprites.
const PALETTE_SIZE: usize = 0x800;
const OAM_SIZE: usize = 0x800;

struct Gfx {
    vram: Vram,
    palette: Vec<u8>,
    oam: Vec<u8>,
    out: Vec<u8>,
}

impl Gfx {
    fn new() -> Self {
        Self {
            vram: Vram::new(),
            palette: vec![0; PALETTE_SIZE],
            oam: vec![0; OAM_SIZE],
            out: vec![0; SCREEN_WIDTH as usize * 4],
        }
    }

    fn map(&mut self, bank: usize, mst: u8, ofs: u8) {
        self.vram.set_control(bank, 0x80 | (ofs << 3) | mst);
    }

    fn set_palette(&mut self, engine: Engine, index: usize, color: u16) {
        let base = engine.block_offset() + index * 2;
        self.palette[base] = color as u8;
        self.palette[base + 1] = (color >> 8) as u8;
    }

    fn set_sprite_palette(&mut self, engine: Engine, index: usize, color: u16) {
        self.set_palette(engine, 0x100 + index, color);
    }

    fn write_oam(&mut self, engine: Engine, entry: usize, attrs: [u16; 3]) {
        let base = engine.block_offset() + entry * 8;
        for (i, attr) in attrs.iter().enumerate() {
            self.oam[base + i * 2] = *attr as u8;
            self.oam[base + i * 2 + 1] = (*attr >> 8) as u8;
        }
    }

    fn pixel(&self, x: usize) -> [u8; 4] {
        self.out[x * 4..x * 4 + 4].try_into().unwrap()
    }
}

/// Register accesses by offset.
trait ByOffset {
    fn w16(&mut self, offset: u32, value: u16);
    fn w32(&mut self, offset: u32, value: u32);
    fn r16(&self, offset: u32) -> Option<u16>;
    fn r32(&self, offset: u32) -> Option<u32>;
}

impl ByOffset for Engine2d {
    fn w16(&mut self, offset: u32, value: u16) {
        let base = self.engine().base();
        assert!(self.write16(base + offset, value));
    }

    fn w32(&mut self, offset: u32, value: u32) {
        let base = self.engine().base();
        assert!(self.write32(base + offset, value));
    }

    fn r16(&self, offset: u32) -> Option<u16> {
        self.read16(self.engine().base() + offset)
    }

    fn r32(&self, offset: u32) -> Option<u32> {
        self.read32(self.engine().base() + offset)
    }
}

fn rgba(color: u16) -> [u8; 4] {
    let c = bgr555_to_rgba(color);
    [c.r, c.g, c.b, c.a]
}

const WHITE15: u16 = 0x7FFF;
const RED15: u16 = 0x001F;
const GREEN15: u16 = 0x03E0;
const BLUE15: u16 = 0x7C00;

fn text_engine(engine: Engine) -> Engine2d {
    let mut e = Engine2d::new(engine);
    e.write32(engine.base() + reg::DISPCNT, (1 << 16) | (1 << 8));
    e
}

fn fill_tile_4bpp(gfx: &mut Gfx, space: VramSpace, offset: u32, index: u8) {
    let byte = index | (index << 4);
    for i in 0..32 {
        gfx.vram.write8(space, offset + i, byte);
    }
}

#[test]
fn the_two_engines_differ_only_where_the_hardware_does() {
    assert_eq!(Engine::A.base(), 0x0400_0000);
    assert_eq!(Engine::B.base(), 0x0400_1000);
    assert_eq!(Engine::A.block_offset(), 0);
    assert_eq!(Engine::B.block_offset(), 0x400);
    assert_eq!(Engine::A.bg_space(), VramSpace::BgA);
    assert_eq!(Engine::B.bg_space(), VramSpace::BgB);
    assert_eq!(Engine::A.obj_ext_pal_space(), VramSpace::ObjExtPalA);
    assert_eq!(Engine::B.obj_ext_pal_space(), VramSpace::ObjExtPalB);

    let mut b = Engine2d::new(Engine::B);
    b.write32(Engine::B.base() + reg::DISPCNT, 0xFFFF_FFFF);
    assert_eq!(b.dispcnt() & dispcnt::CHAR_BASE, 0);
    assert_eq!(b.dispcnt() & dispcnt::SCREEN_BASE, 0);
    assert_eq!(b.dispcnt() & dispcnt::BG0_IS_3D, 0);

    let mut a = Engine2d::new(Engine::A);
    a.write32(Engine::A.base() + reg::DISPCNT, 0xFFFF_FFFF);
    assert_ne!(a.dispcnt() & dispcnt::CHAR_BASE, 0);
    assert_ne!(a.dispcnt() & dispcnt::BG0_IS_3D, 0);
}

#[test]
fn the_background_mode_table_matches_the_hardwares() {
    let kind = |mode, layer, bgcnt| BackgroundKind::of(Engine::A, mode, layer, 1 << 16, bgcnt);

    assert_eq!(
        [0, 1, 2, 3].map(|l| kind(0, l, 0)),
        [Text, Text, Text, Text]
    );
    assert_eq!(
        [0, 1, 2, 3].map(|l| kind(1, l, 0)),
        [Text, Text, Text, Affine]
    );
    assert_eq!(
        [0, 1, 2, 3].map(|l| kind(2, l, 0)),
        [Text, Text, Affine, Affine]
    );
    assert_eq!(
        [0, 1, 2, 3].map(|l| kind(3, l, 0)),
        [Text, Text, Text, ExtendedRotscale]
    );
    assert_eq!(
        [0, 1, 2, 3].map(|l| kind(4, l, 0)),
        [Text, Text, Affine, ExtendedRotscale]
    );
    assert_eq!(
        [0, 1, 2, 3].map(|l| kind(5, l, 0)),
        [Text, Text, ExtendedRotscale, ExtendedRotscale]
    );

    assert_eq!(kind(5, 2, 0x80), ExtendedBitmap);
    assert_eq!(kind(5, 2, 0x84), ExtendedDirectBitmap);

    assert_eq!(
        [0, 1, 2, 3].map(|l| kind(6, l, 0)),
        [ThreeD, Absent, LargeBitmap, Absent]
    );
    assert_eq!(
        BackgroundKind::of(Engine::B, 6, 2, 1 << 16, 0),
        Absent,
        "engine B has no mode 6"
    );

    let three_d = (1 << 16) | dispcnt::BG0_IS_3D;
    assert_eq!(BackgroundKind::of(Engine::A, 0, 0, three_d, 0), ThreeD);
    assert_eq!(BackgroundKind::of(Engine::B, 0, 0, three_d, 0), Text);
}

#[test]
fn display_mode_zero_is_white_rather_than_black() {
    let mut gfx = Gfx::new();
    let mut e = Engine2d::new(Engine::A);
    e.render_line(0, &gfx.vram, &gfx.palette, &gfx.oam, &mut gfx.out);
    assert_eq!(gfx.pixel(0), [255, 255, 255, 255]);

    let mut e2 = text_engine(Engine::A);
    e2.w32(reg::DISPCNT, (1 << 16) | dispcnt::FORCED_BLANK);
    e2.render_line(0, &gfx.vram, &gfx.palette, &gfx.oam, &mut gfx.out);
    assert_eq!(gfx.pixel(0), [255, 255, 255, 255]);
    let _ = &mut e;
}

#[test]
fn nothing_drawn_shows_the_backdrop() {
    let mut gfx = Gfx::new();
    gfx.set_palette(Engine::A, 0, BLUE15);
    let mut e = text_engine(Engine::A);
    e.render_line(0, &gfx.vram, &gfx.palette, &gfx.oam, &mut gfx.out);
    assert_eq!(gfx.pixel(0), rgba(BLUE15));
    assert_eq!(gfx.pixel(255), rgba(BLUE15));
}

#[test]
fn a_text_background_draws_from_the_bank_currently_mapped_to_it() {
    let mut gfx = Gfx::new();
    gfx.map(0, 1, 0);
    gfx.set_palette(Engine::A, 0, BLUE15);
    gfx.set_palette(Engine::A, 1, RED15);

    let mut e = text_engine(Engine::A);
    e.w16(reg::BGCNT, 1 << 8);
    gfx.vram.write16(VramSpace::BgA, 0x800, 1);
    fill_tile_4bpp(&mut gfx, VramSpace::BgA, 0x20, 1);

    e.render_line(0, &gfx.vram, &gfx.palette, &gfx.oam, &mut gfx.out);
    assert_eq!(gfx.pixel(0), rgba(RED15), "the tile");
    assert_eq!(gfx.pixel(8), rgba(BLUE15), "and the backdrop beside it");

    gfx.vram.set_control(0, 0);
    e.render_line(0, &gfx.vram, &gfx.palette, &gfx.oam, &mut gfx.out);
    assert_eq!(gfx.pixel(0), rgba(BLUE15));
}

#[test]
fn scroll_registers_move_the_map_under_the_screen() {
    let mut gfx = Gfx::new();
    gfx.map(0, 1, 0);
    gfx.set_palette(Engine::A, 0, BLUE15);
    gfx.set_palette(Engine::A, 1, RED15);
    let mut e = text_engine(Engine::A);
    e.w16(reg::BGCNT, 1 << 8);
    gfx.vram.write16(VramSpace::BgA, 0x800, 1);
    fill_tile_4bpp(&mut gfx, VramSpace::BgA, 0x20, 1);

    e.w16(reg::BGOFS, 4);
    e.render_line(0, &gfx.vram, &gfx.palette, &gfx.oam, &mut gfx.out);
    assert_eq!(gfx.pixel(3), rgba(RED15));
    assert_eq!(gfx.pixel(4), rgba(BLUE15));

    e.w16(reg::BGOFS, 0);
    e.w16(reg::BGOFS + 2, 8);
    e.render_line(0, &gfx.vram, &gfx.palette, &gfx.oam, &mut gfx.out);
    assert_eq!(gfx.pixel(0), rgba(BLUE15));
}

#[test]
fn a_wide_tilemap_is_blocks_side_by_side_not_one_flat_grid() {
    let mut gfx = Gfx::new();
    gfx.map(0, 1, 0);
    gfx.set_palette(Engine::A, 0, BLUE15);
    gfx.set_palette(Engine::A, 1, RED15);
    fill_tile_4bpp(&mut gfx, VramSpace::BgA, 0x40, 1);

    let mut e = text_engine(Engine::A);
    e.w16(reg::BGCNT, (1 << 8) | (1 << 14));
    gfx.vram.write16(VramSpace::BgA, 0x800 + 0x800, 2);
    e.w16(reg::BGOFS, 32 * 8);

    e.render_line(0, &gfx.vram, &gfx.palette, &gfx.oam, &mut gfx.out);
    assert_eq!(gfx.pixel(0), rgba(RED15));
}

#[test]
fn an_eight_bit_background_uses_the_extended_palette_when_it_is_switched_on() {
    let mut gfx = Gfx::new();
    gfx.map(0, 1, 0);
    gfx.map(4, 4, 0);
    gfx.set_palette(Engine::A, 0, BLUE15);
    gfx.set_palette(Engine::A, 5, RED15);
    gfx.vram
        .write16(VramSpace::BgExtPalA, (3 * 256 + 5) * 2, GREEN15);

    let mut e = text_engine(Engine::A);
    e.w16(reg::BGCNT, (1 << 8) | 0x80);
    gfx.vram.write16(VramSpace::BgA, 0x800, 3 << 12);
    for i in 0..64 {
        gfx.vram.write8(VramSpace::BgA, i, 5);
    }

    e.render_line(0, &gfx.vram, &gfx.palette, &gfx.oam, &mut gfx.out);
    assert_eq!(gfx.pixel(0), rgba(RED15));

    e.w32(reg::DISPCNT, e.dispcnt() | dispcnt::BG_EXT_PALETTE);
    e.render_line(0, &gfx.vram, &gfx.palette, &gfx.oam, &mut gfx.out);
    assert_eq!(
        gfx.pixel(0),
        rgba(GREEN15),
        "now the entry's palette counts"
    );
}

#[test]
fn an_affine_background_transforms_the_map() {
    let mut gfx = Gfx::new();
    gfx.map(0, 1, 0);
    gfx.set_palette(Engine::A, 0, BLUE15);
    gfx.set_palette(Engine::A, 7, RED15);

    let mut e = Engine2d::new(Engine::A);
    e.w32(reg::DISPCNT, (1 << 16) | (1 << 10) | 2);
    e.w16(reg::BGCNT + 4, 1 << 8);
    gfx.vram.write8(VramSpace::BgA, 0x800, 1);
    for i in 64..128 {
        gfx.vram.write8(VramSpace::BgA, i, 7);
    }
    e.w16(reg::BG2PA, 0x100);
    e.w16(reg::BG2PA + 6, 0x100);
    e.on_frame_start();

    e.render_line(0, &gfx.vram, &gfx.palette, &gfx.oam, &mut gfx.out);
    assert_eq!(gfx.pixel(0), rgba(RED15));
    assert_eq!(gfx.pixel(7), rgba(RED15));
    assert_eq!(gfx.pixel(8), rgba(BLUE15), "past the one tile");

    e.w16(reg::BG2PA, 0x80);
    e.render_line(0, &gfx.vram, &gfx.palette, &gfx.oam, &mut gfx.out);
    assert_eq!(gfx.pixel(15), rgba(RED15));
    assert_eq!(gfx.pixel(16), rgba(BLUE15));
}

#[test]
fn an_affine_background_outside_its_map_is_transparent_unless_it_wraps() {
    let mut gfx = Gfx::new();
    gfx.map(0, 1, 0);
    gfx.set_palette(Engine::A, 0, BLUE15);
    gfx.set_palette(Engine::A, 7, RED15);

    let mut e = Engine2d::new(Engine::A);
    e.w32(reg::DISPCNT, (1 << 16) | (1 << 10) | 2);
    e.w16(reg::BGCNT + 4, 1 << 8);
    gfx.vram.write8(VramSpace::BgA, 0x800, 1);
    for i in 64..128 {
        gfx.vram.write8(VramSpace::BgA, i, 7);
    }
    e.w16(reg::BG2PA, 0x100);
    e.w16(reg::BG2PA + 6, 0x100);
    e.w32(reg::BG2PA + 8, 128 << 8);
    e.on_frame_start();

    e.render_line(0, &gfx.vram, &gfx.palette, &gfx.oam, &mut gfx.out);
    assert_eq!(gfx.pixel(0), rgba(BLUE15), "off the map, transparent");

    e.w16(reg::BGCNT + 4, (1 << 8) | (1 << 13));
    e.render_line(0, &gfx.vram, &gfx.palette, &gfx.oam, &mut gfx.out);
    assert_eq!(gfx.pixel(0), rgba(RED15), "wrapped back onto tile 0");
}

#[test]
fn a_direct_colour_bitmap_background_uses_bit_fifteen_as_alpha() {
    let mut gfx = Gfx::new();
    gfx.map(0, 1, 0);
    gfx.set_palette(Engine::A, 0, BLUE15);

    let mut e = Engine2d::new(Engine::A);
    e.w32(reg::DISPCNT, (1 << 16) | (1 << 10) | 5);
    e.w16(reg::BGCNT + 4, 0x84);
    e.w16(reg::BG2PA, 0x100);
    e.w16(reg::BG2PA + 6, 0x100);
    e.on_frame_start();

    gfx.vram.write16(VramSpace::BgA, 0, 0x8000 | GREEN15);
    gfx.vram.write16(VramSpace::BgA, 2, GREEN15);

    e.render_line(0, &gfx.vram, &gfx.palette, &gfx.oam, &mut gfx.out);
    assert_eq!(gfx.pixel(0), rgba(GREEN15));
    assert_eq!(gfx.pixel(1), rgba(BLUE15), "not black — transparent");
}

#[test]
fn the_three_d_layer_leaves_a_gap_rather_than_a_plausible_wrong_picture() {
    let mut gfx = Gfx::new();
    gfx.map(0, 1, 0);
    gfx.set_palette(Engine::A, 0, BLUE15);
    gfx.set_palette(Engine::A, 1, RED15);
    fill_tile_4bpp(&mut gfx, VramSpace::BgA, 0, 1);
    gfx.vram.write16(VramSpace::BgA, 0x800, 0);

    let mut e = text_engine(Engine::A);
    e.w16(reg::BGCNT, 1 << 8);
    e.render_line(0, &gfx.vram, &gfx.palette, &gfx.oam, &mut gfx.out);
    assert_eq!(gfx.pixel(0), rgba(RED15), "as a text layer it draws");

    e.w32(reg::DISPCNT, e.dispcnt() | dispcnt::BG0_IS_3D);
    e.render_line(0, &gfx.vram, &gfx.palette, &gfx.oam, &mut gfx.out);
    assert_eq!(
        gfx.pixel(0),
        rgba(BLUE15),
        "as the 3D layer it draws nothing"
    );
}

#[test]
fn a_sprite_draws_over_the_backdrop() {
    let mut gfx = Gfx::new();
    gfx.map(0, 2, 0);
    gfx.set_palette(Engine::A, 0, BLUE15);
    gfx.set_sprite_palette(Engine::A, 1, RED15);
    fill_tile_4bpp(&mut gfx, VramSpace::ObjA, 0, 1);

    let mut e = Engine2d::new(Engine::A);
    e.w32(reg::DISPCNT, (1 << 16) | dispcnt::OBJ_ENABLE);
    gfx.write_oam(Engine::A, 0, [0, 16, 0]);

    e.render_line(0, &gfx.vram, &gfx.palette, &gfx.oam, &mut gfx.out);
    assert_eq!(gfx.pixel(16), rgba(RED15));
    assert_eq!(gfx.pixel(23), rgba(RED15));
    assert_eq!(gfx.pixel(24), rgba(BLUE15));
    assert_eq!(gfx.pixel(15), rgba(BLUE15));
}

#[test]
fn bit_nine_disables_a_plain_sprite_and_doubles_an_affine_one() {
    let mut gfx = Gfx::new();
    gfx.map(0, 2, 0);
    gfx.set_palette(Engine::A, 0, BLUE15);
    gfx.set_sprite_palette(Engine::A, 1, RED15);
    fill_tile_4bpp(&mut gfx, VramSpace::ObjA, 0, 1);

    let mut e = Engine2d::new(Engine::A);
    e.w32(reg::DISPCNT, (1 << 16) | dispcnt::OBJ_ENABLE);

    gfx.write_oam(Engine::A, 0, [0x200, 16, 0]);
    e.render_line(0, &gfx.vram, &gfx.palette, &gfx.oam, &mut gfx.out);
    assert_eq!(gfx.pixel(16), rgba(BLUE15));

    for (i, value) in [0x100i16, 0, 0, 0x100].iter().enumerate() {
        let entry = Engine::A.block_offset() + i * 8 + 6;
        gfx.oam[entry] = *value as u8;
        gfx.oam[entry + 1] = (*value >> 8) as u8;
    }
    gfx.write_oam(Engine::A, 0, [0x300, 16, 0]);
    e.render_line(4, &gfx.vram, &gfx.palette, &gfx.oam, &mut gfx.out);
    assert_eq!(gfx.pixel(16), rgba(BLUE15), "the padding");
    assert_eq!(gfx.pixel(20), rgba(RED15));
}

#[test]
fn a_lower_oam_index_wins_at_the_same_priority() {
    let mut gfx = Gfx::new();
    gfx.map(0, 2, 0);
    gfx.set_palette(Engine::A, 0, BLUE15);
    gfx.set_sprite_palette(Engine::A, 1, RED15);
    gfx.set_sprite_palette(Engine::A, 17, GREEN15);
    fill_tile_4bpp(&mut gfx, VramSpace::ObjA, 0, 1);

    let mut e = Engine2d::new(Engine::A);
    e.w32(reg::DISPCNT, (1 << 16) | dispcnt::OBJ_ENABLE);
    gfx.write_oam(Engine::A, 0, [0, 0, 0]);
    gfx.write_oam(Engine::A, 1, [0, 0, 1 << 12]);

    e.render_line(0, &gfx.vram, &gfx.palette, &gfx.oam, &mut gfx.out);
    assert_eq!(gfx.pixel(0), rgba(RED15));
}

#[test]
fn sprite_priority_puts_a_background_between_two_sprites() {
    let mut gfx = Gfx::new();
    gfx.map(0, 1, 0);
    gfx.map(1, 2, 0);
    gfx.set_palette(Engine::A, 0, WHITE15);
    gfx.set_palette(Engine::A, 1, BLUE15);
    gfx.set_sprite_palette(Engine::A, 1, RED15);
    fill_tile_4bpp(&mut gfx, VramSpace::BgA, 0, 1);
    fill_tile_4bpp(&mut gfx, VramSpace::ObjA, 0, 1);
    gfx.vram.write16(VramSpace::BgA, 0x800, 0);

    let mut e = Engine2d::new(Engine::A);
    e.w32(reg::DISPCNT, (1 << 16) | (1 << 8) | dispcnt::OBJ_ENABLE);
    e.w16(reg::BGCNT, (1 << 8) | 1);

    gfx.write_oam(Engine::A, 0, [0, 0, 0]);
    e.render_line(0, &gfx.vram, &gfx.palette, &gfx.oam, &mut gfx.out);
    assert_eq!(gfx.pixel(0), rgba(RED15), "sprite in front");

    gfx.write_oam(Engine::A, 0, [0, 0, 2 << 10]);
    e.render_line(0, &gfx.vram, &gfx.palette, &gfx.oam, &mut gfx.out);
    assert_eq!(gfx.pixel(0), rgba(BLUE15), "background in front");
}

#[test]
fn a_sprite_beats_a_background_of_equal_priority() {
    let mut gfx = Gfx::new();
    gfx.map(0, 1, 0);
    gfx.map(1, 2, 0);
    gfx.set_palette(Engine::A, 1, BLUE15);
    gfx.set_sprite_palette(Engine::A, 1, RED15);
    fill_tile_4bpp(&mut gfx, VramSpace::BgA, 0, 1);
    fill_tile_4bpp(&mut gfx, VramSpace::ObjA, 0, 1);
    gfx.vram.write16(VramSpace::BgA, 0x800, 0);

    let mut e = Engine2d::new(Engine::A);
    e.w32(reg::DISPCNT, (1 << 16) | (1 << 8) | dispcnt::OBJ_ENABLE);
    e.w16(reg::BGCNT, (1 << 8) | 2);
    gfx.write_oam(Engine::A, 0, [0, 0, 2 << 10]);

    e.render_line(0, &gfx.vram, &gfx.palette, &gfx.oam, &mut gfx.out);
    assert_eq!(gfx.pixel(0), rgba(RED15));
}

#[test]
fn a_lower_numbered_background_wins_at_equal_priority() {
    let mut gfx = Gfx::new();
    gfx.map(0, 1, 0);
    gfx.set_palette(Engine::A, 1, RED15);
    gfx.set_palette(Engine::A, 2, GREEN15);
    fill_tile_4bpp(&mut gfx, VramSpace::BgA, 0, 1);
    fill_tile_4bpp(&mut gfx, VramSpace::BgA, 0x20, 2);
    gfx.vram.write16(VramSpace::BgA, 0x800, 0);
    gfx.vram.write16(VramSpace::BgA, 0x1000, 1);

    let mut e = Engine2d::new(Engine::A);
    e.w32(reg::DISPCNT, (1 << 16) | (1 << 8) | (1 << 9));
    e.w16(reg::BGCNT, 1 << 8);
    e.w16(reg::BGCNT + 2, 2 << 8);

    e.render_line(0, &gfx.vram, &gfx.palette, &gfx.oam, &mut gfx.out);
    assert_eq!(gfx.pixel(0), rgba(RED15));
}

#[test]
fn master_brightness_fades_the_finished_picture() {
    let mut gfx = Gfx::new();
    gfx.set_palette(Engine::A, 0, WHITE15);
    let mut e = text_engine(Engine::A);

    e.w16(reg::MASTER_BRIGHT, (2 << 14) | 16);
    e.render_line(0, &gfx.vram, &gfx.palette, &gfx.oam, &mut gfx.out);
    assert_eq!(gfx.pixel(0), [0, 0, 0, 255]);

    gfx.set_palette(Engine::A, 0, 0);
    e.w16(reg::MASTER_BRIGHT, (1 << 14) | 16);
    e.render_line(0, &gfx.vram, &gfx.palette, &gfx.oam, &mut gfx.out);
    assert_eq!(gfx.pixel(0), [255, 255, 255, 255]);

    e.w16(reg::MASTER_BRIGHT, 16);
    e.render_line(0, &gfx.vram, &gfx.palette, &gfx.oam, &mut gfx.out);
    assert_eq!(gfx.pixel(0), [0, 0, 0, 255]);
}

#[test]
fn alpha_blending_mixes_the_top_two_layers() {
    let mut gfx = Gfx::new();
    gfx.map(0, 1, 0);
    gfx.set_palette(Engine::A, 0, 0);
    gfx.set_palette(Engine::A, 1, WHITE15);
    fill_tile_4bpp(&mut gfx, VramSpace::BgA, 0, 1);
    gfx.vram.write16(VramSpace::BgA, 0x800, 0);

    let mut e = text_engine(Engine::A);
    e.w16(reg::BGCNT, 1 << 8);
    e.w16(reg::BLDCNT, (1 << 0) | (1 << 6) | (1 << 13));
    e.w16(reg::BLDALPHA, 8 | (8 << 8));

    e.render_line(0, &gfx.vram, &gfx.palette, &gfx.oam, &mut gfx.out);
    assert_eq!(gfx.pixel(0), rgba(15 | (15 << 5) | (15 << 10)));
}

#[test]
fn a_semi_transparent_sprite_blends_whatever_bldcnt_selects_as_first_target() {
    let mut gfx = Gfx::new();
    gfx.map(0, 2, 0);
    gfx.set_palette(Engine::A, 0, 0);
    gfx.set_sprite_palette(Engine::A, 1, WHITE15);
    fill_tile_4bpp(&mut gfx, VramSpace::ObjA, 0, 1);

    let mut e = Engine2d::new(Engine::A);
    e.w32(reg::DISPCNT, (1 << 16) | dispcnt::OBJ_ENABLE);
    e.w16(reg::BLDCNT, 1 << 13);
    e.w16(reg::BLDALPHA, 8 | (8 << 8));
    gfx.write_oam(Engine::A, 0, [1 << 10, 0, 0]);

    e.render_line(0, &gfx.vram, &gfx.palette, &gfx.oam, &mut gfx.out);
    assert_eq!(gfx.pixel(0), rgba(15 | (15 << 5) | (15 << 10)));
}

#[test]
fn a_window_hides_a_layer_outside_it() {
    let mut gfx = Gfx::new();
    gfx.map(0, 1, 0);
    gfx.set_palette(Engine::A, 0, BLUE15);
    gfx.set_palette(Engine::A, 1, RED15);
    fill_tile_4bpp(&mut gfx, VramSpace::BgA, 0, 1);
    for tx in 0..32u32 {
        gfx.vram.write16(VramSpace::BgA, 0x800 + tx * 2, 0);
    }

    let mut e = text_engine(Engine::A);
    e.w16(reg::BGCNT, 1 << 8);
    e.w32(reg::DISPCNT, e.dispcnt() | dispcnt::WIN0_ENABLE);
    e.w16(reg::WIN0H, (64 << 8) | 128);
    e.w16(reg::WIN0H + 4, 192);
    e.w16(reg::WININ, 0x0001);
    e.w16(reg::WININ + 2, 0x0000);

    e.render_line(0, &gfx.vram, &gfx.palette, &gfx.oam, &mut gfx.out);
    assert_eq!(gfx.pixel(63), rgba(BLUE15), "outside");
    assert_eq!(gfx.pixel(64), rgba(RED15), "inside");
    assert_eq!(gfx.pixel(127), rgba(RED15));
    assert_eq!(gfx.pixel(128), rgba(BLUE15));
}

#[test]
fn a_window_whose_edges_are_inverted_wraps_around_the_screen() {
    let mut gfx = Gfx::new();
    gfx.map(0, 1, 0);
    gfx.set_palette(Engine::A, 0, BLUE15);
    gfx.set_palette(Engine::A, 1, RED15);
    fill_tile_4bpp(&mut gfx, VramSpace::BgA, 0, 1);
    for tx in 0..32u32 {
        gfx.vram.write16(VramSpace::BgA, 0x800 + tx * 2, 0);
    }

    let mut e = text_engine(Engine::A);
    e.w16(reg::BGCNT, 1 << 8);
    e.w32(reg::DISPCNT, e.dispcnt() | dispcnt::WIN0_ENABLE);
    e.w16(reg::WIN0H, (200 << 8) | 50);
    e.w16(reg::WIN0H + 4, 192);
    e.w16(reg::WININ, 0x0001);
    e.w16(reg::WININ + 2, 0x0000);

    e.render_line(0, &gfx.vram, &gfx.palette, &gfx.oam, &mut gfx.out);
    assert_eq!(gfx.pixel(0), rgba(RED15), "the wrapped part");
    assert_eq!(gfx.pixel(49), rgba(RED15));
    assert_eq!(gfx.pixel(50), rgba(BLUE15));
    assert_eq!(gfx.pixel(200), rgba(RED15));
}

#[test]
fn display_mode_two_reads_a_bank_straight_out_of_the_lcdc_window() {
    let mut gfx = Gfx::new();
    gfx.map(0, 0, 0);
    gfx.vram.write16(VramSpace::Lcdc, 0, GREEN15);
    gfx.vram.write16(VramSpace::Lcdc, 2, RED15);

    let mut e = Engine2d::new(Engine::A);
    e.w32(reg::DISPCNT, 2 << 16);
    e.render_line(0, &gfx.vram, &gfx.palette, &gfx.oam, &mut gfx.out);
    assert_eq!(gfx.pixel(0), rgba(GREEN15));
    assert_eq!(gfx.pixel(1), rgba(RED15));

    gfx.vram.write16(VramSpace::Lcdc, 256 * 2, BLUE15);
    e.render_line(1, &gfx.vram, &gfx.palette, &gfx.oam, &mut gfx.out);
    assert_eq!(gfx.pixel(0), rgba(BLUE15));
}

#[test]
fn the_affine_reference_points_advance_one_line_at_a_time() {
    let mut e = Engine2d::new(Engine::A);
    e.w32(reg::BG2PA + 8, 0);
    e.w32(reg::BG2PA + 12, 0);
    e.w16(reg::BG2PA + 2, 0x40);
    e.w16(reg::BG2PA + 6, 0x100);
    e.on_frame_start();
    assert_eq!(e.regs.bgx_internal[0], 0);

    e.on_line_end();
    assert_eq!(e.regs.bgx_internal[0], 0x40, "one row of PB");
    assert_eq!(e.regs.bgy_internal[0], 0x100, "one row of PD");

    e.on_frame_start();
    assert_eq!(e.regs.bgx_internal[0], 0);
}

#[test]
fn writing_a_reference_point_takes_effect_without_waiting_for_the_next_frame() {
    let mut e = Engine2d::new(Engine::A);
    e.on_frame_start();
    e.on_line_end();
    e.w32(reg::BG2PA + 8, 0x1234);
    assert_eq!(e.regs.bgx_internal[0], 0x1234);
}

#[test]
fn the_reference_points_are_twenty_eight_bit_signed() {
    let mut e = Engine2d::new(Engine::A);
    e.w32(reg::BG2PA + 8, 0x0FFF_FFFF);
    assert_eq!(e.regs.bgx[0], -1, "the top bit of 28 is the sign");
    e.w32(reg::BG2PA + 8, 0x0800_0000);
    assert_eq!(e.regs.bgx[0], -0x0800_0000);
}

#[test]
fn write_only_registers_read_as_zero() {
    let mut e = text_engine(Engine::A);
    e.w16(reg::BGOFS, 0x1FF);
    e.w32(reg::BG2PA + 8, 0x1234);
    assert_eq!(e.r16(reg::BGOFS), Some(0));
    assert_eq!(e.r32(reg::BG2PA + 8), Some(0));
    e.w16(reg::BGCNT, 0x1234);
    assert_eq!(e.r16(reg::BGCNT), Some(0x1234));
    assert_eq!(e.read16(Engine::B.base()), None, "not this engine's");
}

#[test]
fn an_engine_round_trips_through_a_save_state() {

    let mut e = text_engine(Engine::A);
    e.w16(reg::BGCNT, 0x0155);
    e.w16(reg::BGOFS, 0x1AB);
    e.w32(reg::BG2PA + 8, 0x0012_3456);
    e.on_frame_start();
    e.on_line_end();
    e.w16(reg::BLDCNT, 0x1234);
    e.w16(reg::MASTER_BRIGHT, (1 << 14) | 7);

    let mut w = StateWriter::new();
    e.save(&mut w);
    let blob = w.into_bytes();
    let mut restored = Engine2d::new(Engine::A);
    restored.load(&mut StateReader::new(blob.clone())).unwrap();

    assert_eq!(restored.dispcnt(), e.dispcnt());
    assert_eq!(restored.r16(reg::BGCNT), Some(0x0155));
    assert_eq!(restored.regs.bghofs[0], 0x1AB);
    assert_eq!(restored.regs.bgx_internal[0], e.regs.bgx_internal[0]);
    assert_eq!(restored.r16(reg::BLDCNT), Some(0x1234));
}

#[test]
fn a_cut_off_engine_stream_is_reported() {
    let mut e = Engine2d::new(Engine::B);
    assert_eq!(e.load(&mut StateReader::new(vec![0; 7])), Err(StateError::UnexpectedEnd));
}

#[test]
fn the_three_d_line_is_drawn_where_background_zero_is_three_d() {
    let mut gfx = Gfx::new();
    gfx.set_palette(Engine::A, 0, BLUE15);
    let mut e = text_engine(Engine::A);
    e.w32(reg::DISPCNT, e.dispcnt() | dispcnt::BG0_IS_3D);
    let mut gpu = handheld::nds::gpu3d::Gpu3d::new();
    gpu.write32(handheld::nds::gpu3d::reg::DISP3DCNT, 1);
    gpu.write32(handheld::nds::gpu3d::reg::CLEAR_COLOR, GREEN15 as u32 | (31 << 16));
    gpu.geometry.execute(0x50, &[0]);
    gpu.on_vblank(&gfx.vram);
    e.render_line_with_3d(
        0,
        &gfx.vram,
        &gfx.palette,
        &gfx.oam,
        Some(&gpu.framebuffer),
        &mut gfx.out,
    );
    assert_eq!(gfx.pixel(0), rgba(GREEN15));
}

/// The first pixel of line 0 with a 3D layer of one red colour at `alpha` over a blue backdrop.
fn red_3d_over_blue(alpha: u32, bldcnt: u16, bldalpha: u16) -> [u8; 4] {
    let mut gfx = Gfx::new();
    gfx.set_palette(Engine::A, 0, BLUE15);
    let mut e = text_engine(Engine::A);
    e.w32(reg::DISPCNT, e.dispcnt() | dispcnt::BG0_IS_3D);
    e.w16(reg::BLDCNT, bldcnt);
    e.w16(reg::BLDALPHA, bldalpha);
    let mut gpu = handheld::nds::gpu3d::Gpu3d::new();
    gpu.write32(handheld::nds::gpu3d::reg::DISP3DCNT, 1);
    gpu.write32(handheld::nds::gpu3d::reg::CLEAR_COLOR, RED15 as u32 | (alpha << 16));
    gpu.geometry.execute(0x50, &[0]);
    gpu.on_vblank(&gfx.vram);
    e.render_line_with_3d(
        0,
        &gfx.vram,
        &gfx.palette,
        &gfx.oam,
        Some(&gpu.framebuffer),
        &mut gfx.out,
    );
    gfx.pixel(0)
}

#[test]
fn a_translucent_three_d_pixel_blends_by_its_own_opacity() {
    // The backdrop is a second target and no effect is selected. Opacity 15 is sixteen parts of
    // red and sixteen of blue, opacity 7 is eight and twenty-four.
    for bldalpha in [0x0000, 0x0010, 0x1000, 0x0808, 0x1010] {
        assert_eq!(red_3d_over_blue(15, 1 << 13, bldalpha), rgba(15 | (15 << 10)));
        assert_eq!(red_3d_over_blue(7, 1 << 13, bldalpha), rgba(7 | (23 << 10)));
    }
}

#[test]
fn a_three_d_pixel_with_nothing_to_blend_with_is_drawn_as_it_is() {
    assert_eq!(red_3d_over_blue(15, 0, 0x0808), rgba(RED15), "no second target");
    assert_eq!(red_3d_over_blue(0, 1 << 13, 0x0808), rgba(BLUE15), "nothing drawn");
    // Alpha blending selected for BG0: full opacity leaves nothing of the backdrop.
    assert_eq!(red_3d_over_blue(31, (1 << 13) | (1 << 6) | 1, 0x0808), rgba(RED15));
}

#[test]
fn every_line_moves_the_reference_points_by_one_row() {
    let mut e = Engine2d::new(Engine::A);
    e.w16(reg::BG2PA + 2, 0xFFF0);
    e.w16(reg::BG2PA + 6, 0x0123);
    e.on_frame_start();
    for _ in 0..100 {
        e.on_line_end();
    }
    assert_eq!(e.regs.bgx_internal[0], -1600);
    assert_eq!(e.regs.bgy_internal[0], 0x0123 * 100);
}

#[test]
fn a_window_whose_edges_meet_goes_all_the_way_round() {
    let mut gfx = Gfx::new();
    gfx.map(0, 1, 0);
    gfx.set_palette(Engine::A, 0, BLUE15);
    gfx.set_palette(Engine::A, 1, RED15);
    fill_tile_4bpp(&mut gfx, VramSpace::BgA, 0, 1);
    for tx in 0..32u32 {
        gfx.vram.write16(VramSpace::BgA, 0x800 + tx * 2, 0);
    }

    let mut e = text_engine(Engine::A);
    e.w16(reg::BGCNT, 1 << 8);
    e.w32(reg::DISPCNT, e.dispcnt() | dispcnt::WIN0_ENABLE);
    e.w16(reg::WIN0H, (100 << 8) | 100);
    e.w16(reg::WIN0H + 4, 192);
    e.w16(reg::WININ, 0x0001);
    e.w16(reg::WININ + 2, 0x0000);

    e.render_line(0, &gfx.vram, &gfx.palette, &gfx.oam, &mut gfx.out);
    for x in [0, 99, 100, 101, 255] {
        assert_eq!(gfx.pixel(x), rgba(RED15), "column {x}");
    }

    e.w16(reg::WIN0H + 4, (50 << 8) | 50);
    e.render_line(0, &gfx.vram, &gfx.palette, &gfx.oam, &mut gfx.out);
    assert_eq!(gfx.pixel(0), rgba(BLUE15), "no line is in a range of none");
}

#[test]
fn a_map_is_made_of_blocks_and_every_cell_has_its_own_place() {
    assert_eq!(map_offset(64, 32, 0), 0x800);
    assert_eq!(map_offset(64, 0, 32), 0x1000);
    assert_eq!(map_offset(32, 0, 32), 0x800);
    assert_eq!(map_offset(64, 63, 63), 0x1FFE);
    for (width, height) in [(32u32, 32u32), (64, 32), (32, 64), (64, 64)] {
        let mut taken = vec![false; (width * height) as usize];
        for y in 0..height {
            for x in 0..width {
                let offset = map_offset(width, x, y);
                assert_eq!(offset % 2, 0);
                assert!(!taken[offset as usize / 2]);
                taken[offset as usize / 2] = true;
            }
        }
        assert!(taken.iter().all(|t| *t));
    }
}

#[test]
fn a_wide_map_puts_its_right_half_in_the_second_block() {
    let mut gfx = Gfx::new();
    gfx.map(0, 1, 0);
    gfx.set_palette(Engine::A, 1, RED15);
    gfx.set_palette(Engine::A, 2, GREEN15);
    fill_tile_4bpp(&mut gfx, VramSpace::BgA, 32, 1);
    fill_tile_4bpp(&mut gfx, VramSpace::BgA, 64, 2);
    // Cell (0, 0), and cell (32, 0), which begins the next 2 KiB.
    gfx.vram.write16(VramSpace::BgA, 0x800, 1);
    gfx.vram.write16(VramSpace::BgA, 0x1000, 2);

    let mut e = text_engine(Engine::A);
    e.w16(reg::BGCNT, (1 << 8) | (1 << 14));
    e.render_line(0, &gfx.vram, &gfx.palette, &gfx.oam, &mut gfx.out);
    assert_eq!(gfx.pixel(0), rgba(RED15));
    e.w16(reg::BGOFS, 256);
    e.render_line(0, &gfx.vram, &gfx.palette, &gfx.oam, &mut gfx.out);
    assert_eq!(gfx.pixel(0), rgba(GREEN15));
}
