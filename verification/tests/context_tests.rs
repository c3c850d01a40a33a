//! Printer-state behavior: defaults, reset, page-mode geometry and the
//! rotation arithmetic.
use thermal_decoder::context::{
    Context, Font, PageModeContext, PrintDirection, RenderArea, Rotation,
};

fn fresh_page_mode() -> PageModeContext {
    PageModeContext {
        enabled: false,
        logical_area: RenderArea { x: 0, y: 0, w: 0, h: 0 },
        render_area: RenderArea { x: 0, y: 0, w: 0, h: 0 },
        page_area: RenderArea { x: 0, y: 0, w: 0, h: 0 },
        direction: PrintDirection::TopLeft2Right,
        previous_direction: PrintDirection::TopLeft2Right,
    }
}

#[test]
fn defaults_match_power_on_state() {
    let ctx = Context::new();
    assert_eq!(ctx.text.character_width, 12);
    assert_eq!(ctx.text.character_height, 24);
    assert_eq!(ctx.text.line_spacing, 24);
    assert_eq!(ctx.barcode.width, 3);
    assert_eq!(ctx.barcode.height, 40);
    assert_eq!(ctx.graphics.dots_per_inch, 203);
    assert_eq!(ctx.graphics.render_area.w, 609);
    assert_eq!(ctx.text.tabs.len(), 32);
    assert!(ctx.text.tabs.iter().all(|t| *t == 8));
    assert!(ctx.default.is_some());
}

#[test]
fn reset_restores_defaults_and_is_idempotent() {
    let mut ctx = Context::new();
    ctx.text.bold = true;
    ctx.text.line_spacing = 99;
    ctx.barcode.width = 7;
    ctx.page_mode.enabled = true;
    ctx.reset();
    assert!(!ctx.text.bold);
    assert_eq!(ctx.text.line_spacing, 24);
    assert_eq!(ctx.barcode.width, 3);
    // the page-mode state is not part of the snapshot
    assert!(ctx.page_mode.enabled);
    let bold_once = ctx.text.bold;
    let spacing_once = ctx.text.line_spacing;
    let barcode_once = ctx.barcode;
    ctx.reset();
    assert_eq!(ctx.text.bold, bold_once);
    assert_eq!(ctx.text.line_spacing, spacing_once);
    assert_eq!(ctx.barcode, barcode_once);
}

#[test]
fn rotation_group_sums_to_full_turn() {
    let pm = fresh_page_mode();
    let cycle = [
        PrintDirection::TopLeft2Right,
        PrintDirection::BottomLeft2Top,
        PrintDirection::BottomRight2Left,
        PrintDirection::TopRight2Bottom,
        PrintDirection::TopLeft2Right,
    ];
    let mut degrees = 0u32;
    for pair in cycle.windows(2) {
        let r = pm.calculate_directional_rotation(&pair[0], &pair[1]);
        degrees += match r {
            Rotation::R0 => 0,
            Rotation::R90 => 90,
            Rotation::R180 => 180,
            Rotation::R270 => 270,
        };
    }
    assert_eq!(degrees, 360);
    assert_eq!(degrees % 360, 0);
}

#[test]
fn dimension_swap_follows_parity() {
    let dirs = [
        PrintDirection::BottomLeft2Top,
        PrintDirection::BottomRight2Left,
        PrintDirection::TopRight2Bottom,
        PrintDirection::TopLeft2Right,
        PrintDirection::TopRight2Bottom,
    ];
    let mut pm = fresh_page_mode();
    pm.page_area = RenderArea { x: 0, y: 0, w: 100, h: 40 };
    let mut swapped = false;
    for d in dirs {
        let needs = |d: &PrintDirection| {
            matches!(
                d,
                PrintDirection::TopRight2Bottom | PrintDirection::BottomLeft2Top
            )
        };
        let before = pm.direction;
        pm.previous_direction = before;
        pm.direction = d;
        let w_before = pm.page_area.w;
        let h_before = pm.page_area.h;
        pm.apply_logical_area();
        let flipped = needs(&before) != needs(&d);
        swapped ^= flipped;
        if flipped {
            // the swap happened before the envelope grew
            assert!(pm.page_area.w >= h_before.min(w_before));
        }
    }
    // after the walk: first direction TL2R (no swap), last TR2B (swap):
    // net parity is one swap
    assert!(swapped);
}

#[test]
fn page_mode_rotation_scenario() {
    // Begin page mode, direction top-right-to-bottom, logical area
    // 100 wide by 200 tall: the render area comes back swapped and the
    // rotation is three quarter turns.
    let mut pm = fresh_page_mode();
    pm.enabled = true;
    pm.previous_direction = PrintDirection::TopLeft2Right;
    pm.direction = PrintDirection::TopRight2Bottom;
    pm.logical_area = RenderArea { x: 0, y: 0, w: 100, h: 200 };
    let (rotation, _, _) = pm.apply_logical_area();
    assert_eq!(rotation, Rotation::R270);
    assert_eq!(pm.render_area.w, 200);
    assert_eq!(pm.render_area.h, 100);
}

#[test]
fn font_raw_values_and_sizes() {
    assert_eq!(Font::from_raw(0), Font::A);
    assert_eq!(Font::from_raw(48), Font::A);
    assert_eq!(Font::from_raw(1), Font::B);
    assert_eq!(Font::from_raw(97), Font::SpecialA);
    assert_eq!(Font::from_raw(200), Font::A);
    assert_eq!(Font::A.to_size(), (12, 24));
    assert_eq!(Font::B.to_size(), (9, 17));
}

#[test]
fn justification_offsets() {
    let mut ctx = Context::new();
    ctx.graphics.render_area.w = 100;
    ctx.text.justify = thermal_decoder::context::TextJustify::Right;
    assert_eq!(ctx.calculate_justification(40), 60);
    ctx.text.justify = thermal_decoder::context::TextJustify::Center;
    assert_eq!(ctx.calculate_justification(40), 30);
    ctx.text.justify = thermal_decoder::context::TextJustify::Left;
    assert_eq!(ctx.calculate_justification(40), 0);
    ctx.text.justify = thermal_decoder::context::TextJustify::Right;
    assert_eq!(ctx.calculate_justification(140), 0);
}

#[test]
fn relative_offsets_saturate_at_zero() {
    let mut ctx = Context::new();
    ctx.graphics.render_area.x = 10;
    ctx.offset_x_relative(-25);
    assert_eq!(ctx.graphics.render_area.x, 0);
    ctx.offset_x_relative(7);
    assert_eq!(ctx.graphics.render_area.x, 7);
    ctx.graphics.h_motion_unit = 2;
    ctx.offset_x_relative(5);
    assert_eq!(ctx.graphics.render_area.x, 9);
}

#[test]
fn available_width_accounts_for_cursor() {
    let mut ctx = Context::new();
    ctx.graphics.render_area.w = 100;
    ctx.graphics.render_area.x = 30;
    assert_eq!(ctx.get_available_width(), 70);
    ctx.graphics.render_area.x = 130;
    assert_eq!(ctx.get_available_width(), 0);
}

#[test]
fn set_tab_len_updates_in_range_only() {
    let mut ctx = Context::new();
    ctx.set_tab_len(4, 2);
    assert_eq!(ctx.text.tabs[2], 4);
    ctx.set_tab_len(9, 200);
    assert_eq!(ctx.text.tabs.len(), 32);
    assert!(ctx.text.tabs.iter().enumerate().all(|(i, t)| if i == 2 {
        *t == 4
    } else {
        *t == 8
    }));
}
