use rogue_mayor::constants::{UNIT, UNREACHED};
use rogue_mayor::dijkstra_map::{MapTag, Maps};
use rogue_mayor::grid::Point;
use rogue_mayor::mobiles::Mobile;
use rogue_mayor::statics::{Static, StaticTag};
use rogue_mayor::templates::Templates;
use rogue_mayor::types::{Command, World};
use rogue_mayor::ui::{
    cell_visual, glyph, heat_color, heat_range, initial_cursor, next_heatmap, Controls, Input,
    Key, Menu, PixelRect, Screen, ScreenPos, ScreenRect, Style, SCROLL_OVERSHOOT,
};

fn at(x: usize, y: usize) -> Point {
    Point { x: x, y: y }
}

#[test]
fn a_screen_position_is_a_rect_of_one_cell() {
    let pos = ScreenPos { x: 3, y: 4 };
    assert_eq!(pos.rect(), ScreenRect { top_left: pos, width: 1, height: 1 });
    assert_eq!(
        ScreenRect::new(1, 2, 3, 4),
        ScreenRect { top_left: ScreenPos { x: 1, y: 2 }, width: 3, height: 4 }
    );
}

#[test]
fn a_rect_in_pixels_is_scaled_by_the_cell_size() {
    let rect = ScreenRect::new(1, 2, 3, 4);
    assert_eq!(rect.pixels(8, 12), Some(PixelRect { x: 8, y: 24, width: 24, height: 48 }));
    assert_eq!(rect.pixels(0, 1), Some(PixelRect { x: 0, y: 2, width: 0, height: 4 }));
    // The corner must fit a signed number, the size an unsigned one.
    assert_eq!(ScreenRect::new(0x4000_0000, 0, 1, 1).pixels(2, 1), None);
    assert_eq!(ScreenRect::new(0, 0x4000_0000, 1, 1).pixels(1, 2), None);
    assert_eq!(
        ScreenRect::new(0x3fff_ffff, 0, 0x7fff_ffff, 1).pixels(2, 1),
        Some(PixelRect { x: 0x7fff_fffe, y: 0, width: 0xffff_fffe, height: 1 })
    );
    assert_eq!(ScreenRect::new(0, 0, 0x8000_0000, 1).pixels(2, 1), None);
    assert_eq!(ScreenRect::new(0, 0, 1, 0x8000_0000).pixels(1, 2), None);
}

#[test]
fn glyphs_stand_in_rows_of_sixteen() {
    assert_eq!(glyph(35), PixelRect { x: 3 * 12 + 2, y: 2 * 12, width: 8, height: 12 });
    assert_eq!(glyph(0), PixelRect { x: 2, y: 0, width: 8, height: 12 });
    assert_eq!(glyph(255), PixelRect { x: 15 * 12 + 2, y: 15 * 12, width: 8, height: 12 });
}

#[test]
fn the_screen_holds_viewport_sidebar_log_and_borders() {
    let screen = Screen::new();
    assert_eq!(screen.cell_width(), 100 + 25 + 3);
    assert_eq!(screen.cell_height(), 50 + 7 + 3);
    assert_eq!(screen.pixel_width(), 128 * 8);
    assert_eq!(screen.pixel_height(), 60 * 12);
    assert_eq!(initial_cursor(), at(50, 25));
}

#[test]
fn points_in_the_viewport_have_a_place_on_the_screen() {
    let mut screen = Screen::new();
    assert_eq!(screen.to_screenpos(at(0, 0)), Some(ScreenPos { x: 1, y: 9 }));
    assert_eq!(screen.to_screenpos(at(99, 49)), Some(ScreenPos { x: 100, y: 58 }));
    assert_eq!(screen.to_screenpos(at(100, 0)), None);
    assert_eq!(screen.to_screenpos(at(0, 50)), None);
    screen.viewport_top_left = at(30, 20);
    assert_eq!(screen.to_screenpos(at(29, 20)), None);
    assert_eq!(screen.to_screenpos(at(30, 19)), None);
    assert_eq!(screen.to_screenpos(at(30, 20)), Some(ScreenPos { x: 1, y: 9 }));
    assert_eq!(screen.to_screenpos(at(129, 69)), Some(ScreenPos { x: 100, y: 58 }));
    assert_eq!(screen.to_screenpos(at(130, 69)), None);
}

#[test]
fn the_mouse_finds_the_cell_under_it() {
    let mut screen = Screen::new();
    assert_eq!(screen.cursor_from_mouse(8, 108), at(0, 0));
    assert_eq!(screen.cursor_from_mouse(15, 119), at(0, 0));
    assert_eq!(screen.cursor_from_mouse(16, 120), at(1, 1));
    assert_eq!(screen.cursor_from_mouse(0, 0), at(0, 0));
    assert_eq!(screen.cursor_from_mouse(807, 707), at(99, 49));
    screen.viewport_top_left = at(30, 20);
    assert_eq!(screen.cursor_from_mouse(3, 3), at(30, 20));
    assert_eq!(screen.cursor_from_mouse(16, 120), at(31, 21));
    // And back: every pixel of the cell of a point gives the point.
    let pos = screen.to_screenpos(at(77, 33)).unwrap();
    for dx in 0..8 {
        for dy in 0..12 {
            assert_eq!(screen.cursor_from_mouse(pos.x * 8 + dx, pos.y * 12 + dy), at(77, 33));
        }
    }
}

#[test]
fn the_viewport_follows_the_cursor() {
    let mut screen = Screen::new();
    screen.scroll_viewport(at(50, 25), SCROLL_OVERSHOOT);
    assert_eq!(screen.viewport_top_left, at(0, 0));
    screen.scroll_viewport(at(150, 20), SCROLL_OVERSHOOT);
    assert_eq!(screen.viewport_top_left, at(75, 0));
    screen.scroll_viewport(at(199, 99), SCROLL_OVERSHOOT);
    assert_eq!(screen.viewport_top_left, at(100, 50));
    screen.scroll_viewport(at(110, 55), SCROLL_OVERSHOOT);
    assert_eq!(screen.viewport_top_left, at(100, 50));
    screen.scroll_viewport(at(10, 45), SCROLL_OVERSHOOT);
    assert_eq!(screen.viewport_top_left, at(0, 20));
    // Without overshoot the cursor comes to lie just past the far edge.
    screen.scroll_viewport(at(100, 70), 0);
    assert_eq!(screen.viewport_top_left, at(0, 20));
    screen.scroll_viewport(at(120, 20), 0);
    assert_eq!(screen.viewport_top_left, at(20, 20));
    assert_eq!(screen.viewport_width, 100);
    assert_eq!(screen.cell_pixel_height, 12);
}

#[test]
fn the_window_ends_where_the_map_ends() {
    let mut screen = Screen::new();
    assert_eq!(screen.window(), (at(0, 0), at(100, 50)));
    screen.viewport_top_left = at(150, 80);
    assert_eq!(screen.window(), (at(150, 80), at(200, 100)));
    screen.viewport_top_left = at(200, 100);
    assert_eq!(screen.window(), (at(200, 100), at(200, 100)));
}

#[test]
fn the_heatmaps_come_round_after_twelve() {
    let first = (Style::Approach, MapTag::Adventure);
    assert_eq!(next_heatmap(first), (Style::FleeCowardly, MapTag::Adventure));
    assert_eq!(
        next_heatmap((Style::FleeCowardly, MapTag::Rest)),
        (Style::FleeBravely, MapTag::Rest)
    );
    assert_eq!(
        next_heatmap((Style::FleeBravely, MapTag::Adventure)),
        (Style::Approach, MapTag::GeneralStore)
    );
    assert_eq!(
        next_heatmap((Style::FleeBravely, MapTag::GeneralStore)),
        (Style::Approach, MapTag::Rest)
    );
    assert_eq!(next_heatmap((Style::FleeBravely, MapTag::Rest)), (Style::Approach, MapTag::Sustenance));
    assert_eq!(next_heatmap((Style::FleeBravely, MapTag::Sustenance)), first);
    let mut seen = vec![first];
    let mut now = next_heatmap(first);
    while now != first {
        assert!(!seen.contains(&now));
        seen.push(now);
        now = next_heatmap(now);
    }
    assert_eq!(seen.len(), 12);
}

#[test]
fn the_menu_keys_choose_and_build_templates() {
    let mut controls = Controls::new();
    let mut screen = Screen::new();
    let cursor = at(50, 25);
    assert_eq!(controls.menu, Menu::Main);
    for key in [Key::G, Key::I, Key::Return] {
        assert_eq!(
            controls.input_handler(&mut screen, Input::KeyDown(key), cursor),
            Some(Command::Render)
        );
    }
    assert_eq!(controls.input_handler(&mut screen, Input::KeyDown(Key::B), cursor), Some(Command::Render));
    assert_eq!(controls.menu, Menu::Template);
    assert_eq!(
        controls.input_handler(&mut screen, Input::KeyDown(Key::G), cursor),
        Some(Command::SetTemplateTo(Templates::GeneralStore))
    );
    assert_eq!(
        controls.input_handler(&mut screen, Input::KeyDown(Key::I), cursor),
        Some(Command::SetTemplateTo(Templates::Inn))
    );
    assert_eq!(
        controls.input_handler(&mut screen, Input::KeyDown(Key::Return), cursor),
        Some(Command::BuildTemplate)
    );
    assert_eq!(controls.menu, Menu::Template);
    assert_eq!(
        controls.input_handler(&mut screen, Input::KeyDown(Key::Escape), cursor),
        Some(Command::Render)
    );
    assert_eq!(controls.menu, Menu::Main);
    assert_eq!(screen, Screen::new());
}

#[test]
fn the_arrow_keys_move_the_cursor() {
    let mut controls = Controls::new();
    let mut screen = Screen::new();
    let mut press = |c: &mut Controls, key: Key, cursor: Point| {
        c.input_handler(&mut screen, Input::KeyDown(key), cursor)
    };
    assert_eq!(press(&mut controls, Key::Up, at(5, 0)), Some(Command::SetCursorTo(at(5, 0))));
    assert_eq!(press(&mut controls, Key::Up, at(5, 7)), Some(Command::SetCursorTo(at(5, 6))));
    assert_eq!(press(&mut controls, Key::Down, at(5, 99)), Some(Command::SetCursorTo(at(5, 100))));
    assert_eq!(press(&mut controls, Key::Down, at(5, 100)), Some(Command::SetCursorTo(at(5, 100))));
    assert_eq!(press(&mut controls, Key::Left, at(0, 3)), Some(Command::SetCursorTo(at(0, 3))));
    assert_eq!(press(&mut controls, Key::Right, at(7, 3)), Some(Command::SetCursorTo(at(8, 3))));
    // With shift held down a press goes ten cells.
    assert_eq!(press(&mut controls, Key::RShift, at(7, 3)), Some(Command::Render));
    assert!(controls.is_zooming);
    assert_eq!(press(&mut controls, Key::Right, at(195, 3)), Some(Command::SetCursorTo(at(200, 3))));
    assert_eq!(press(&mut controls, Key::Left, at(15, 3)), Some(Command::SetCursorTo(at(5, 3))));
    assert_eq!(press(&mut controls, Key::Up, at(15, 3)), Some(Command::SetCursorTo(at(15, 0))));
    assert_eq!(press(&mut controls, Key::Down, at(15, 3)), Some(Command::SetCursorTo(at(15, 13))));
    assert_eq!(
        controls.input_handler(&mut Screen::new(), Input::KeyUp(Key::LShift), at(0, 0)),
        Some(Command::Render)
    );
    assert!(!controls.is_zooming);
}

#[test]
fn with_alt_the_arrow_keys_scroll_the_viewport() {
    let mut controls = Controls::new();
    let mut screen = Screen::new();
    let cursor = at(50, 25);
    assert_eq!(
        controls.input_handler(&mut screen, Input::KeyDown(Key::LAlt), cursor),
        Some(Command::Render)
    );
    assert!(controls.is_scrolling);
    assert_eq!(
        controls.input_handler(&mut screen, Input::KeyDown(Key::Right), cursor),
        Some(Command::Render)
    );
    assert_eq!(screen.viewport_top_left, at(1, 0));
    assert_eq!(
        controls.input_handler(&mut screen, Input::KeyDown(Key::Down), cursor),
        Some(Command::Render)
    );
    assert_eq!(screen.viewport_top_left, at(1, 1));
    let _ = controls.input_handler(&mut screen, Input::KeyDown(Key::LShift), cursor);
    let _ = controls.input_handler(&mut screen, Input::KeyDown(Key::Left), cursor);
    assert_eq!(screen.viewport_top_left, at(0, 1));
    let _ = controls.input_handler(&mut screen, Input::KeyDown(Key::Up), cursor);
    assert_eq!(screen.viewport_top_left, at(0, 0));
    // The viewport does not leave the cursor behind.
    for _ in 0..8 {
        let _ = controls.input_handler(&mut screen, Input::KeyDown(Key::Right), cursor);
    }
    assert_eq!(screen.viewport_top_left, at(50, 0));
    for _ in 0..8 {
        let _ = controls.input_handler(&mut screen, Input::KeyDown(Key::Down), cursor);
    }
    assert_eq!(screen.viewport_top_left, at(50, 25));
    assert_eq!(
        controls.input_handler(&mut screen, Input::KeyUp(Key::RAlt), cursor),
        Some(Command::Render)
    );
    assert!(!controls.is_scrolling);
}

#[test]
fn the_mouse_moves_the_cursor_between_two_clicks() {
    let mut controls = Controls::new();
    let mut screen = Screen::new();
    let cursor = at(50, 25);
    assert_eq!(controls.input_handler(&mut screen, Input::MouseMotion { x: 16, y: 120 }, cursor), None);
    assert_eq!(
        controls.input_handler(&mut screen, Input::LeftButtonDown { x: 16, y: 120 }, cursor),
        Some(Command::SetCursorTo(at(1, 1)))
    );
    assert!(controls.is_mousing);
    assert_eq!(
        controls.input_handler(&mut screen, Input::MouseMotion { x: 80, y: 240 }, cursor),
        Some(Command::SetCursorTo(at(9, 11)))
    );
    assert_eq!(
        controls.input_handler(&mut screen, Input::LeftButtonDown { x: 80, y: 240 }, cursor),
        Some(Command::Render)
    );
    assert!(!controls.is_mousing);
    assert_eq!(controls.input_handler(&mut screen, Input::MouseMotion { x: 80, y: 240 }, cursor), None);
}

#[test]
fn a_new_window_size_changes_the_viewport() {
    let mut controls = Controls::new();
    let mut screen = Screen::new();
    assert_eq!(
        controls.input_handler(&mut screen, Input::Resized { width: 1600, height: 1200 }, at(0, 0)),
        Some(Command::Render)
    );
    assert_eq!(screen.viewport_width, 198);
    assert_eq!(screen.viewport_height, 90);
    let _ = controls.input_handler(&mut screen, Input::Resized { width: 15, height: 100 }, at(0, 0));
    assert_eq!(screen.viewport_width, 0);
    assert_eq!(screen.viewport_height, 0);
    assert_eq!(screen.viewport_top_left, at(0, 0));
    assert_eq!(controls, Controls::new());
}

#[test]
fn the_other_keys() {
    let mut controls = Controls::new();
    let mut screen = Screen::new();
    let cursor = at(50, 25);
    assert_eq!(controls.input_handler(&mut screen, Input::KeyDown(Key::F5), cursor), Some(Command::Render));
    assert_eq!(controls.input_handler(&mut screen, Input::KeyDown(Key::Space), cursor), Some(Command::Step));
    assert_eq!(controls.input_handler(&mut screen, Input::Quit, cursor), Some(Command::Quit));
    assert_eq!(controls.input_handler(&mut screen, Input::KeyUp(Key::B), cursor), None);
    assert_eq!(controls.input_handler(&mut screen, Input::KeyUp(Key::Space), cursor), None);
    assert_eq!(controls, Controls::new());
    assert_eq!(controls.input_handler(&mut screen, Input::KeyDown(Key::Tab), cursor), Some(Command::Render));
    assert_eq!(controls.active_heatmap, (Style::FleeCowardly, MapTag::Adventure));
    assert!(!controls.show_heatmap);
    assert_eq!(
        controls.input_handler(&mut screen, Input::KeyDown(Key::Semicolon), cursor),
        Some(Command::Render)
    );
    assert!(controls.show_heatmap);
    let _ = controls.input_handler(&mut screen, Input::KeyDown(Key::Semicolon), cursor);
    assert!(!controls.show_heatmap);
    assert_eq!(screen, Screen::new());
}

#[test]
fn what_things_look_like() {
    let wall = Static::new(StaticTag::Wall);
    let bed = Static::new(StaticTag::Bed);
    assert_eq!(wall.visual(), (35, (0, 0, 0), Some((133, 94, 66))));
    assert_eq!(Static::new(StaticTag::Door).visual(), (186, (0, 0, 0), Some((133, 94, 66))));
    assert_eq!(bed.visual(), (233, (166, 128, 100), None));
    assert_eq!(Static::new(StaticTag::Dungeon).visual(), (234, (129, 26, 26), Some((66, 66, 111))));
    assert_eq!(Static::new(StaticTag::InnCounter).visual(), (210, (133, 94, 66), None));
    assert_eq!(Static::new(StaticTag::GStoreCounter).visual(), (210, (133, 94, 66), None));
    let mob = Mobile::blank(at(0, 0));
    assert_eq!(mob.visual(), (b'm', (0, 255, 0), None));

    let red = Some((255, 0, 0));
    assert_eq!(cell_visual(None, None, red), (None, red));
    assert_eq!(cell_visual(None, None, None), (None, None));
    assert_eq!(cell_visual(Some(bed), None, red), (Some((233, (166, 128, 100))), red));
    assert_eq!(cell_visual(Some(wall), None, red), (Some((35, (0, 0, 0))), Some((133, 94, 66))));
    // A mobile hides what it stands on, its background too.
    assert_eq!(cell_visual(Some(wall), Some(mob), red), (Some((b'm', (0, 255, 0))), red));
    assert_eq!(cell_visual(None, Some(mob), None), (Some((b'm', (0, 255, 0))), None));
}

#[test]
fn heat_runs_from_green_to_red() {
    assert_eq!(heat_color(0, 0, 100), (0, 255, 0));
    assert_eq!(heat_color(100, 0, 100), (255, 0, 0));
    assert_eq!(heat_color(50, 0, 100), (128, 128, 0));
    assert_eq!(heat_color(10, 0, 100), (26, 230, 0));
    assert_eq!(heat_color(-50, -100, 100), (64, 191, 0));
    assert_eq!(heat_color(UNREACHED, 0, 100), (255, 0, 0));
    assert_eq!(heat_color(UNREACHED, UNREACHED, i64::MIN), (255, 0, 0));
    assert_eq!(heat_color(7, 7, 7), (0, 0, 0));
    assert_eq!(heat_color(i64::MIN, i64::MIN, i64::MAX - 1), (0, 255, 0));
    assert_eq!(heat_color(i64::MAX - 1, i64::MIN, i64::MAX - 1), (255, 0, 0));
}

#[test]
fn the_range_of_the_visible_heat() {
    let world = World::new();
    let mut maps = Maps::new();
    assert_eq!(
        heat_range(&maps.get(MapTag::Adventure).approach, at(0, 0), at(200, 100)),
        (UNREACHED, i64::MIN)
    );
    maps.mutget(MapTag::Adventure).add_source(at(2, 2), &world);
    let map = maps.get(MapTag::Adventure);
    assert_eq!(heat_range(&map.approach, at(0, 0), at(5, 5)), (0, 2 * UNIT));
    assert_eq!(heat_range(&map.approach, at(3, 0), at(10, 5)), (UNIT, 7 * UNIT));
    assert_eq!(heat_range(&map.approach, at(0, 0), at(200, 100)), (0, 197 * UNIT));
    assert_eq!(heat_range(&map.approach, at(5, 5), at(5, 9)), (UNREACHED, i64::MIN));
    assert_eq!(heat_range(&map.approach, at(9, 9), at(3, 3)), (UNREACHED, i64::MIN));
    let (low, high) = heat_range(&map.flee_cowardly, at(0, 0), at(200, 100));
    assert_eq!(low, -11 * 197);
    // The far edge is the lowest; the near edge lies two cells behind the source.
    assert_eq!(high, -11 * 197 + 199 * UNIT);
    assert_eq!(high, map.flee_cowardly.at(at(0, 2)));
    let mut wall = World::new();
    wall.statics.set(at(0, 1), Some(Static::new(StaticTag::Wall)));
    wall.statics.set(at(1, 0), Some(Static::new(StaticTag::Wall)));
    wall.statics.set(at(1, 1), Some(Static::new(StaticTag::Wall)));
    maps.mutget(MapTag::Rest).add_source(at(2, 2), &wall);
    // The corner is cut off, and does not count for the greatest value.
    assert_eq!(maps.get(MapTag::Rest).approach.at(at(0, 0)), UNREACHED);
    assert_eq!(heat_range(&maps.get(MapTag::Rest).approach, at(0, 0), at(3, 3)), (0, 2 * UNIT));
    assert_eq!(heat_range(&maps.get(MapTag::Rest).approach, at(0, 0), at(2, 2)), (UNREACHED, i64::MIN));
    assert_eq!(heat_range(&maps.get(MapTag::Rest).approach, at(0, 0), at(1, 1)), (UNREACHED, i64::MIN));
}

#[test]
fn a_viewport_larger_than_the_map_cannot_follow_beyond_itself() {
    let mut screen = Screen::new();
    assert!(screen.is_drawable());
    assert!(screen.can_scroll(at(199, 99), SCROLL_OVERSHOOT));
    assert!(screen.can_scroll(at(usize::MAX, 0), 0));
    assert!(!screen.can_scroll(at(usize::MAX, 0), 1));
    assert!(!screen.can_scroll(at(0, usize::MAX), 1));
    screen.viewport_width = 250;
    assert!(screen.can_scroll(at(199, 99), SCROLL_OVERSHOOT));
    assert!(screen.can_scroll(at(249, 0), SCROLL_OVERSHOOT));
    assert!(!screen.can_scroll(at(250, 0), SCROLL_OVERSHOOT));
    screen.viewport_top_left = at(120, 0);
    assert!(screen.can_scroll(at(100, 0), SCROLL_OVERSHOOT));
    screen.viewport_width = 100;
    screen.viewport_height = 101;
    assert!(screen.can_scroll(at(100, 100), 0));
    assert!(!screen.can_scroll(at(100, 101), 0));
    let mut controls = Controls::new();
    assert!(controls.can_answer(&screen, Input::KeyDown(Key::Down), at(100, 101)));
    controls.is_scrolling = true;
    assert!(!controls.can_answer(&screen, Input::KeyDown(Key::Down), at(100, 102)));
    assert!(controls.can_answer(&screen, Input::KeyDown(Key::Down), at(100, 101)));
    assert!(controls.can_answer(&screen, Input::KeyDown(Key::Tab), at(100, 102)));
}

#[test]
fn cells_without_a_size_answer_neither_mouse_nor_resize() {
    let mut screen = Screen::new();
    let mut controls = Controls::new();
    let click = Input::LeftButtonDown { x: 5, y: 5 };
    let motion = Input::MouseMotion { x: 5, y: 5 };
    let resize = Input::Resized { width: 100, height: 100 };
    assert!(controls.can_answer(&screen, click, at(0, 0)));
    assert!(controls.can_answer(&screen, motion, at(0, 0)));
    assert!(controls.can_answer(&screen, resize, at(0, 0)));
    assert!(screen.can_read_mouse(u32::MAX, u32::MAX));
    screen.cell_pixel_width = 0;
    assert!(!screen.is_drawable());
    assert!(!screen.can_read_mouse(5, 5));
    assert!(!controls.can_answer(&screen, click, at(0, 0)));
    assert!(controls.can_answer(&screen, motion, at(0, 0)));
    assert!(!controls.can_answer(&screen, resize, at(0, 0)));
    controls.is_mousing = true;
    assert!(controls.can_answer(&screen, click, at(0, 0)));
    assert!(!controls.can_answer(&screen, motion, at(0, 0)));
    screen.cell_pixel_width = 8;
    screen.viewport_top_left = at(usize::MAX, 0);
    assert!(screen.can_read_mouse(15, 0));
    assert!(!screen.can_read_mouse(16, 0));
}

#[test]
fn a_screen_too_large_for_its_pixels_is_not_drawable() {
    let mut screen = Screen::new();
    screen.viewport_width = u32::MAX;
    assert!(!screen.is_drawable());
    screen.viewport_width = 0x0fff_ffff - 28;
    assert!(screen.is_drawable());
    assert_eq!(screen.pixel_width(), 0x7fff_fff8);
    screen.viewport_width += 1;
    assert!(!screen.is_drawable());
    screen.viewport_width = 100;
    screen.viewport_height = 0x7fff_ffff;
    assert!(!screen.is_drawable());
    screen.viewport_height = 0;
    screen.cell_pixel_height = 0x7fff_ffff / 10;
    assert!(screen.is_drawable());
    screen.cell_pixel_height += 1;
    assert!(!screen.is_drawable());
}

#[test]
fn the_border_of_a_region_lies_inside_it() {
    let (top, bottom, left, right) = ScreenRect::new(3, 4, 10, 6).edges();
    assert_eq!(top, ScreenRect::new(3, 4, 10, 1));
    assert_eq!(bottom, ScreenRect::new(3, 9, 10, 1));
    assert_eq!(left, ScreenRect::new(3, 4, 1, 6));
    assert_eq!(right, ScreenRect::new(12, 4, 1, 6));
    let (top, bottom, left, right) = ScreenRect::new(0, 0, 1, 1).edges();
    assert_eq!(top, ScreenRect::new(0, 0, 1, 1));
    assert_eq!(bottom, top);
    assert_eq!(left, top);
    assert_eq!(right, top);
}

#[test]
fn log_and_sidebar_lie_round_the_viewport() {
    let screen = Screen::new();
    assert_eq!(screen.frame(), ScreenRect::new(0, 0, 128, 60));
    assert_eq!(screen.log_frame(), ScreenRect::new(0, 0, 102, 9));
    assert_eq!(screen.log_line(0), ScreenRect::new(1, 7, 100, 1));
    assert_eq!(screen.log_line(6), ScreenRect::new(1, 1, 100, 1));
    assert_eq!(screen.sidebar_frame(), ScreenRect::new(101, 0, 27, 60));
    // The viewport begins below the log and ends before the sidebar.
    assert_eq!(screen.to_screenpos(at(0, 0)), Some(ScreenPos { x: 1, y: 9 }));
    assert_eq!(screen.to_screenpos(at(99, 49)), Some(ScreenPos { x: 100, y: 58 }));
    let (key, colon, text) = screen.sidebar_entry(2, 3);
    assert_eq!(key, ScreenRect::new(103, 2, 3, 1));
    assert_eq!(colon, ScreenPos { x: 106, y: 2 });
    assert_eq!(text, ScreenRect::new(108, 2, 27, 1));
}
