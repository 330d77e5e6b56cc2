use walk_the_dog::engine::{Cell, Image, ImageSize, KeyState, Point, Rect, Sheet, SheetEntry, SheetRect};
use walk_the_dog::game::{move_and_collide, prune, rightmost, InitError, Paint, Picture, Walk, WalkTheDog};
use walk_the_dog::red_hat_boy::DrawCall;
use walk_the_dog::steady::{
    backgrounds_are_steady, box_is_sound, character_is_steady, is_steady, obstacle_is_sound, serves,
    serves_state, within,
};
use walk_the_dog::obstacles::{has_all_cells, Barrier, Obstacle, Platform};
use walk_the_dog::red_hat_boy::{RedHatBoy, StateKind};
use walk_the_dog::segments::{
    create_floating_platform, platform_and_stone, serves_floating_platform, stone_and_platform,
};

fn cell(w: i16) -> Cell {
    Cell {
        frame: SheetRect { x: 1, y: 2, w, h: 93 },
        sprite_source_size: SheetRect { x: 10, y: 5, w, h: 93 },
    }
}

fn boy_sheet() -> Sheet {
    let mut frames = Vec::new();
    for animation in ["Idle", "Run", "Slide", "Jump", "Dead"] {
        for index in 1..=12 {
            frames.push(SheetEntry {
                name: format!("{} ({}).png", animation, index),
                cell: Cell {
                    frame: SheetRect { x: 3, y: 7, w: 160, h: 136 },
                    sprite_source_size: SheetRect { x: 10, y: 5, w: 160, h: 136 },
                },
            });
        }
    }
    Sheet::new(frames)
}

fn tiles() -> Sheet {
    Sheet::new(vec![
        SheetEntry { name: String::from("15.png"), cell: cell(128) },
        SheetEntry { name: String::from("13.png"), cell: cell(100) },
        SheetEntry { name: String::from("14.png"), cell: cell(120) },
        SheetEntry { name: String::from("13.png"), cell: cell(999) },
    ])
}

fn stone() -> ImageSize {
    ImageSize { width: 50, height: 54 }
}

fn barrier_at(x: i16, width: i16) -> Obstacle {
    Obstacle::Barrier(Barrier::new(Image::new(ImageSize { width, height: 54 }, Point { x, y: 520 })))
}

fn keys(codes: &[&str]) -> KeyState {
    let mut state = KeyState::new();
    for code in codes {
        state.set_pressed(code);
    }
    state
}

fn walk() -> Walk {
    Walk::new(boy_sheet(), ImageSize { width: 600, height: 570 }, stone(), tiles())
}

#[test]
fn rectangles_overlap_strictly() {
    let a = Rect::new_from_x_y(0, 0, 10, 10);
    assert!(a.intersects(&Rect::new_from_x_y(9, 9, 5, 5)));
    assert!(!a.intersects(&Rect::new_from_x_y(10, 0, 5, 5)));
    assert!(!a.intersects(&Rect::new_from_x_y(0, 10, 5, 5)));
    assert!(!a.intersects(&Rect::new_from_x_y(-5, 0, 5, 5)));
    assert!(a.intersects(&Rect::new_from_x_y(-5, -5, 6, 6)));
    let wide = Rect::new_from_x_y(i16::MAX, i16::MAX, i16::MAX, i16::MAX);
    assert!(wide.intersects(&Rect::new(Point { x: i16::MAX, y: i16::MAX }, 1, 1)));
    assert_eq!(a.right(), 10);
    assert_eq!(a.bottom(), 10);
    let mut b = a;
    b.set_x(4);
    b.set_y(-3);
    assert_eq!((b.x(), b.y(), b.width, b.height), (4, -3, 10, 10));
}

#[test]
fn sheet_lookup_takes_the_first_entry_of_a_name() {
    let sheet = tiles();
    assert_eq!(sheet.cell("13.png"), Some(cell(100)));
    assert_eq!(sheet.cell("15.png"), Some(cell(128)));
    assert_eq!(sheet.cell("16.png"), None);
    assert_eq!(Sheet::new(Vec::new()).cell("13.png"), None);
}

#[test]
fn keys_are_held_by_code() {
    let state = keys(&["ArrowRight", "Space"]);
    assert!(state.is_pressed("ArrowRight"));
    assert!(state.is_pressed("Space"));
    assert!(!state.is_pressed("ArrowDown"));
    assert!(!KeyState::new().is_pressed("Space"));
}

#[test]
fn images_move_with_their_box() {
    let mut image = Image::new(stone(), Point { x: 150, y: 520 });
    assert_eq!(*image.bounding_box(), Rect::new_from_x_y(150, 520, 50, 54));
    assert_eq!(image.right(), 200);
    image.move_horizontally(-4);
    assert_eq!(image.position, Point { x: 146, y: 520 });
    assert_eq!(*image.bounding_box(), Rect::new_from_x_y(146, 520, 50, 54));
    image.set_x(7);
    assert_eq!(image.right(), 57);
}

#[test]
fn floating_platform_has_three_boxes_at_its_place() {
    let platform = create_floating_platform(&tiles(), Point { x: 200, y: 420 });
    assert_eq!(
        *platform.bounding_boxes(),
        vec![
            Rect::new_from_x_y(200, 420, 60, 54),
            Rect::new_from_x_y(260, 420, 264, 93),
            Rect::new_from_x_y(524, 420, 60, 54),
        ]
    );
    assert_eq!(platform.position(), Point { x: 200, y: 420 });
    assert_eq!(platform.right(), 584);
    let calls = platform.draw();
    assert_eq!(calls.len(), 3);
    assert_eq!(calls[0].source, Rect::new_from_x_y(1, 2, 100, 93));
    assert_eq!(calls[0].destination, Rect::new_from_x_y(200, 420, 100, 93));
    assert_eq!(calls[1].destination, Rect::new_from_x_y(300, 420, 120, 93));
    assert_eq!(calls[2].destination, Rect::new_from_x_y(420, 420, 128, 93));
}

#[test]
fn platform_takes_its_sprites_in_the_order_of_the_names() {
    let platform = Platform::new(&tiles(), Point { x: 0, y: 0 }, &["14.png", "15.png", "14.png"], &[]);
    let calls = platform.draw();
    assert_eq!(calls.len(), 3);
    assert_eq!(calls[0].source.width, 120);
    assert_eq!(calls[1].source.width, 128);
    assert_eq!(calls[1].destination.x(), 120);
    assert_eq!(calls[2].destination.x(), 248);
}

#[test]
fn tiles_must_have_the_sprites_of_a_platform() {
    assert!(has_all_cells(&tiles(), &["15.png", "13.png"]));
    assert!(has_all_cells(&tiles(), &[]));
    assert!(!has_all_cells(&tiles(), &["15.png", "nope.png", "13.png"]));
    assert!(serves_floating_platform(&tiles()));
    assert!(!serves_floating_platform(&Sheet::new(Vec::new())));
    for missing in ["13.png", "14.png", "15.png"] {
        let mut sheet = tiles();
        sheet.frames.retain(|entry| entry.name != missing);
        assert!(!serves_floating_platform(&sheet));
    }
}

#[test]
fn platform_reaches_as_far_as_its_furthest_box() {
    let boxes = [Rect::new_from_x_y(100, 0, 10, 10), Rect::new_from_x_y(0, 0, 10, 10)];
    let mut platform = Platform::new(&tiles(), Point { x: 0, y: 0 }, &[], &boxes);
    assert_eq!(platform.right(), 110);
    platform.move_horizontally(-30);
    assert_eq!(platform.right(), 80);
    let boxes = [
        Rect::new_from_x_y(-5, 0, 10, 10),
        Rect::new_from_x_y(7, 0, 50, 10),
        Rect::new_from_x_y(40, 0, 3, 10),
    ];
    let platform = Platform::new(&tiles(), Point { x: 1, y: 0 }, &[], &boxes);
    assert_eq!(platform.right(), 58);
    let left = Platform::new(&tiles(), Point { x: 0, y: 0 }, &[], &[Rect::new_from_x_y(-50, 0, 10, 10)]);
    assert_eq!(left.right(), -40);
}

#[test]
fn image_and_box_move_by_the_same_distance() {
    let mut image = Image {
        position: Point { x: 0, y: 0 },
        bounding_box: Rect::new_from_x_y(50, 3, 10, 10),
    };
    image.move_horizontally(5);
    assert_eq!(image.position, Point { x: 5, y: 0 });
    assert_eq!(image.bounding_box, Rect::new_from_x_y(55, 3, 10, 10));
    let mut barrier = Barrier::new(image);
    barrier.move_horizontally(-15);
    assert_eq!(barrier.image().position.x, -10);
    assert_eq!(barrier.image().bounding_box.x(), 40);
    assert_eq!(barrier.right(), 50);
}

#[test]
fn platform_moves_with_all_its_boxes() {
    let mut platform = create_floating_platform(&tiles(), Point { x: 200, y: 420 });
    platform.move_horizontally(-7);
    assert_eq!(platform.position(), Point { x: 193, y: 420 });
    assert_eq!(
        *platform.bounding_boxes(),
        vec![
            Rect::new_from_x_y(193, 420, 60, 54),
            Rect::new_from_x_y(253, 420, 264, 93),
            Rect::new_from_x_y(517, 420, 60, 54),
        ]
    );
    let mut obstacle = Obstacle::Platform(platform);
    obstacle.move_horizontally(7);
    assert_eq!(obstacle.right(), 584);
    assert_eq!(obstacle.draw().len(), 3);
    assert_eq!(barrier_at(0, 10).draw().len(), 0);
}

#[test]
fn stone_and_platform_places_the_stone_first() {
    let obstacles = stone_and_platform(stone(), &tiles(), 1000);
    assert_eq!(obstacles.len(), 2);
    match &obstacles[0] {
        Obstacle::Barrier(barrier) => {
            assert_eq!(barrier.image().position, Point { x: 1150, y: 520 });
            assert_eq!(barrier.right(), 1200);
        }
        Obstacle::Platform(_) => panic!("the stone comes first"),
    }
    match &obstacles[1] {
        Obstacle::Platform(platform) => {
            assert_eq!(platform.position(), Point { x: 1200, y: 420 });
            assert_eq!(platform.right(), 1584);
        }
        Obstacle::Barrier(_) => panic!("the platform comes second"),
    }
    assert_eq!(rightmost(&obstacles), 1584);
}

#[test]
fn platform_and_stone_places_the_platform_left_and_high() {
    let obstacles = platform_and_stone(stone(), &tiles(), 1000);
    assert_eq!(obstacles.len(), 2);
    match &obstacles[0] {
        Obstacle::Barrier(barrier) => {
            assert_eq!(barrier.image().position, Point { x: 1200, y: 520 });
        }
        Obstacle::Platform(_) => panic!("the stone is stored first"),
    }
    match &obstacles[1] {
        Obstacle::Platform(platform) => {
            assert_eq!(platform.position(), Point { x: 1150, y: 375 });
            assert_eq!(platform.bounding_boxes()[2], Rect::new_from_x_y(1474, 375, 60, 54));
        }
        Obstacle::Barrier(_) => panic!("the platform is stored second"),
    }
    assert_eq!(rightmost(&obstacles), 1534);
}

#[test]
fn rightmost_is_the_greatest_right_edge() {
    assert_eq!(rightmost(&Vec::new()), 0);
    assert_eq!(rightmost(&vec![barrier_at(-100, 10)]), -90);
    assert_eq!(rightmost(&vec![barrier_at(5, 10), barrier_at(100, 10), barrier_at(-7, 3)]), 110);
    // a wide stone reaches beyond the platform behind it
    let wide = stone_and_platform(ImageSize { width: 900, height: 54 }, &tiles(), 0);
    assert_eq!(rightmost(&wide), 1050);
}

#[test]
fn prune_drops_what_has_left_the_screen() {
    let mut obstacles = vec![
        barrier_at(-50, 50),
        barrier_at(-49, 50),
        barrier_at(-300, 10),
        barrier_at(20, 5),
        barrier_at(-10, 10),
    ];
    prune(&mut obstacles);
    assert_eq!(obstacles.len(), 2);
    assert_eq!(obstacles[0].right(), 1);
    assert_eq!(obstacles[1].right(), 25);
    prune(&mut obstacles);
    assert_eq!(obstacles.len(), 2);
}

#[test]
fn prune_of_nothing_in_sight_is_empty_and_stays_empty() {
    let mut obstacles = vec![barrier_at(-50, 50), barrier_at(-300, 10), barrier_at(-10, 5)];
    prune(&mut obstacles);
    assert!(obstacles.is_empty());
    prune(&mut obstacles);
    prune(&mut obstacles);
    assert!(obstacles.is_empty());
}

#[test]
fn obstacles_meet_the_character_one_after_the_other() {
    let mut boy = RedHatBoy::new(boy_sheet());
    boy.run_right();
    boy.update();
    // the first lets the character land, so that the second no longer reaches it
    let landing = Platform::new(&tiles(), Point { x: 54, y: 480 }, &[], &[Rect::new_from_x_y(0, 0, 100, 10)]);
    let mut obstacles = vec![Obstacle::Platform(landing), barrier_at(104, 50)];
    move_and_collide(&mut obstacles, &mut boy, -4);
    assert_eq!(obstacles[0].right(), 150);
    assert_eq!(obstacles[1].right(), 150);
    assert_eq!(boy.pos_y(), 359);
    assert_eq!(boy.state_machine.kind(), StateKind::Running);
}

#[test]
fn walk_starts_with_the_first_segment() {
    let walk = walk();
    assert_eq!(walk.obstacles.len(), 2);
    assert_eq!(walk.timeline, 584);
    assert_eq!(walk.backgrounds[0].position, Point { x: 0, y: 0 });
    assert_eq!(walk.backgrounds[1].position, Point { x: 600, y: 0 });
    assert_eq!(walk.boy.state_machine.kind(), StateKind::Idle);
    assert_eq!(walk.velocity(), 0);
}

#[test]
fn segment_moves_the_mark_to_its_right_end() {
    let mut first = walk();
    first.append_segment(0);
    assert_eq!(first.obstacles.len(), 4);
    assert_eq!(first.timeline, 584 + 20 + 200 + 384);
    assert_eq!(first.obstacles[3].right(), 1188);
    let mut second = walk();
    second.append_segment(1);
    assert_eq!(second.timeline, 584 + 20 + 150 + 384);
    assert_eq!(second.obstacles[2].right(), 584 + 20 + 200 + 50);
    let mut none = walk();
    none.append_segment(2);
    assert_eq!(none.obstacles.len(), 2);
    assert_eq!(none.timeline, 0);
}

#[test]
fn generated_segment_is_one_of_the_two() {
    for _ in 0..40 {
        let mut walk = walk();
        walk.generate_next_segment();
        assert_eq!(walk.obstacles.len(), 4);
        assert!(walk.timeline == 1188 || walk.timeline == 1138);
        assert!(walk.timeline >= 584 + 20);
        assert_eq!(walk.timeline, rightmost(&walk.obstacles));
    }
}

#[test]
fn idle_world_stands_still_but_grows() {
    let mut walk = walk();
    walk.frame(&KeyState::new(), 1);
    assert_eq!(walk.boy.state_machine.kind(), StateKind::Idle);
    assert_eq!(walk.backgrounds[0].position.x, 0);
    assert_eq!(walk.obstacles.len(), 4);
    assert_eq!(walk.timeline, 1138);
    walk.frame(&KeyState::new(), 0);
    assert_eq!(walk.obstacles.len(), 4);
    assert_eq!(walk.timeline, 1138);
}

#[test]
fn running_scrolls_the_world() {
    let mut walk = walk();
    let right = keys(&["ArrowRight"]);
    walk.frame(&right, 0);
    assert_eq!(walk.boy.state_machine.kind(), StateKind::Running);
    assert_eq!(walk.velocity(), -4);
    assert_eq!(walk.backgrounds[0].position.x, -4);
    assert_eq!(walk.backgrounds[1].position.x, 596);
    assert_eq!(walk.obstacles.len(), 4);
    assert_eq!(walk.obstacles[0].right(), 196);
    assert_eq!(walk.obstacles[1].right(), 580);
    // the new segment is laid out from the mark as it was, and is not moved in this frame
    assert_eq!(walk.timeline, 1188);
    assert_eq!(walk.obstacles[3].right(), 1188);
    walk.frame(&right, 0);
    assert_eq!(walk.timeline, 1184);
    assert_eq!(walk.obstacles[3].right(), 1184);
    assert_eq!(walk.obstacles.len(), 4);
}

#[test]
fn running_into_the_stone_ends_the_run() {
    let mut walk = walk();
    let right = keys(&["ArrowRight"]);
    walk.update(&right);
    walk.update(&right);
    assert_eq!(walk.boy.state_machine.kind(), StateKind::Running);
    // the stone's left edge comes to 138, inside the character's box that ends at 140
    walk.update(&right);
    assert_eq!(walk.boy.state_machine.kind(), StateKind::Falling);
    assert_eq!(walk.boy.walking_speed(), 0);
    let mark = walk.timeline;
    for _ in 0..40 {
        walk.update(&right);
    }
    assert_eq!(walk.boy.state_machine.kind(), StateKind::KnockedOut);
    assert_eq!(walk.timeline, mark);
    assert_eq!(walk.obstacles[0].right(), 188);
}

#[test]
fn keys_become_events_in_order() {
    let mut walk = walk();
    walk.frame(&keys(&["ArrowRight", "Space", "ArrowDown"]), 0);
    // idle ignores the slide, then runs, then jumps
    assert_eq!(walk.boy.state_machine.kind(), StateKind::Jumping);
    assert_eq!(walk.boy.velocity_y(), -24);
    assert_eq!(walk.boy.pos_y(), 425);
    let mut sliding = self::walk();
    sliding.frame(&keys(&["ArrowRight"]), 0);
    sliding.frame(&keys(&["ArrowDown", "Space"]), 0);
    // the running character slides, and a sliding one does not jump
    assert_eq!(sliding.boy.state_machine.kind(), StateKind::Sliding);
    let mut up = self::walk();
    up.frame(&keys(&["ArrowUp", "ArrowLeft"]), 0);
    assert_eq!(up.boy.state_machine.kind(), StateKind::Idle);
    assert_eq!(up.backgrounds[0].position.x, 0);
}

#[test]
fn backgrounds_follow_one_another() {
    let mut walk = Walk::new(boy_sheet(), ImageSize { width: 10, height: 570 }, stone(), tiles());
    walk.obstacles.clear();
    walk.timeline = 2000;
    let right = keys(&["ArrowRight"]);
    walk.frame(&right, 0);
    walk.frame(&right, 0);
    assert_eq!(walk.backgrounds[0].position.x, -8);
    assert_eq!(walk.backgrounds[1].position.x, 2);
    walk.frame(&right, 0);
    // the first tile's right edge has passed the left edge of the screen: it goes behind the second
    assert_eq!(walk.backgrounds[1].position.x, -2);
    assert_eq!(walk.backgrounds[0].position.x, 8);
    assert_eq!(walk.timeline, 1988);
    walk.frame(&right, 0);
    walk.frame(&right, 0);
    walk.frame(&right, 0);
    assert_eq!(walk.backgrounds[0].position.x, -4);
    assert_eq!(walk.backgrounds[1].position.x, 6);
}

#[test]
fn game_loads_once() {
    let game = WalkTheDog::new();
    assert!(matches!(game, WalkTheDog::Loading));
    let loaded = game.initialize(boy_sheet(), ImageSize { width: 600, height: 570 }, stone(), tiles());
    let mut loaded = match loaded {
        Ok(loaded) => loaded,
        Err(_) => panic!("a new game can be loaded"),
    };
    match &loaded {
        WalkTheDog::Loaded(walk) => assert_eq!(walk.timeline, 584),
        WalkTheDog::Loading => panic!("the game is loaded"),
    }
    loaded.update(&keys(&["ArrowRight"]));
    match &loaded {
        WalkTheDog::Loaded(walk) => assert_eq!(walk.velocity(), -4),
        WalkTheDog::Loading => panic!("the game is loaded"),
    }
    let again = loaded.initialize(boy_sheet(), ImageSize { width: 600, height: 570 }, stone(), tiles());
    assert!(matches!(again, Err(InitError::AlreadyInitialized)));
    let again = loaded.initialize(Sheet::new(Vec::new()), ImageSize { width: 0, height: 0 }, stone(), tiles());
    assert!(matches!(again, Err(InitError::AlreadyInitialized)));
    assert_eq!(InitError::AlreadyInitialized.message(), "Error: Game is already initialized!");
    let mut loading = WalkTheDog::new();
    loading.update(&keys(&["ArrowRight"]));
    assert!(matches!(loading, WalkTheDog::Loading));
}

#[test]
fn game_refuses_assets_it_cannot_go_on_with() {
    let background = ImageSize { width: 600, height: 570 };
    let game = WalkTheDog::new();
    let bare = game.initialize(Sheet::new(Vec::new()), ImageSize { width: 3, height: 570 }, stone(), Sheet::new(Vec::new()));
    assert!(matches!(bare, Err(InitError::IncompleteSheet)));
    let mut lacking = tiles();
    lacking.frames.retain(|entry| entry.name != "13.png");
    let no_tiles = game.initialize(boy_sheet(), ImageSize { width: 3, height: 570 }, stone(), lacking);
    assert!(matches!(no_tiles, Err(InitError::IncompleteTiles)));
    let narrow = game.initialize(boy_sheet(), ImageSize { width: 3, height: 570 }, ImageSize { width: 32000, height: 5 }, tiles());
    assert!(matches!(narrow, Err(InitError::BackgroundOutOfRange)));
    let wide = game.initialize(boy_sheet(), ImageSize { width: 16384, height: 570 }, stone(), tiles());
    assert!(matches!(wide, Err(InitError::BackgroundOutOfRange)));
    let huge = game.initialize(boy_sheet(), background, ImageSize { width: 31549, height: 5 }, tiles());
    assert!(matches!(huge, Err(InitError::StoneOutOfRange)));
    let edge = game.initialize(boy_sheet(), ImageSize { width: 4, height: 1 }, ImageSize { width: 31548, height: 5 }, tiles());
    match edge {
        Ok(WalkTheDog::Loaded(walk)) => assert_eq!(walk.timeline, 150 + 31548),
        _ => panic!("assets at the limits are accepted"),
    }
    let broad = game.initialize(boy_sheet(), ImageSize { width: 16383, height: 1 }, ImageSize { width: -7, height: 5 }, tiles());
    match broad {
        Ok(WalkTheDog::Loaded(walk)) => {
            assert_eq!(walk.timeline, 584);
            assert_eq!(walk.backgrounds[1].position.x, 16383);
        }
        _ => panic!("a wide background is accepted"),
    }
    assert_eq!(InitError::IncompleteSheet.message(), "Error: The character's sheet is incomplete!");
    assert_eq!(InitError::IncompleteTiles.message(), "Error: The sheet of the tiles is incomplete!");
    assert_eq!(InitError::BackgroundOutOfRange.message(), "Error: The background is out of range!");
    assert_eq!(InitError::StoneOutOfRange.message(), "Error: The stone is out of range!");
}

#[test]
fn widest_assets_run_for_long() {
    let game = WalkTheDog::new();
    let loaded = game.initialize(boy_sheet(), ImageSize { width: 16383, height: 1 }, ImageSize { width: 31548, height: 5 }, tiles());
    let mut game = match loaded {
        Ok(game) => game,
        Err(_) => panic!("assets at the limits are accepted"),
    };
    let right = keys(&["ArrowRight"]);
    let jump = keys(&["ArrowRight", "Space"]);
    for frame in 0..2000 {
        game.update(if frame % 5 == 0 { &jump } else { &right });
    }
    match game {
        WalkTheDog::Loaded(walk) => assert!(walk.timeline >= rightmost(&walk.obstacles)),
        WalkTheDog::Loading => panic!("the game is loaded"),
    }
}

#[test]
fn sheet_must_have_every_picture_an_animation_reaches() {
    assert!(serves(&boy_sheet()));
    assert!(!serves(&Sheet::new(Vec::new())));
    for missing in ["Idle (10).png", "Run (8).png", "Slide (5).png", "Jump (12).png", "Dead (10).png", "Run (1).png"] {
        let mut sheet = boy_sheet();
        sheet.frames.retain(|entry| entry.name != missing);
        assert!(!serves(&sheet));
        assert!(!serves_state(&sheet, StateKind::Jumping, 35) || missing != "Jump (12).png");
    }
    // pictures past the last frame of an animation are not asked for
    let mut sheet = boy_sheet();
    sheet.frames.retain(|entry| entry.name != "Run (9).png" && entry.name != "Slide (6).png");
    assert!(serves(&sheet));
    // the box must be a box at the floor, at 449, and at the highest the character gets, at -46
    let mut sheet = boy_sheet();
    sheet.frames[0].cell.sprite_source_size.y = 32305;
    assert!(!serves(&sheet));
    sheet.frames[0].cell.sprite_source_size.y = 32304;
    assert!(serves(&sheet));
    sheet.frames[0].cell.sprite_source_size.y = -32737;
    assert!(!serves(&sheet));
    sheet.frames[0].cell.sprite_source_size.y = -32736;
    assert!(serves(&sheet));
    sheet.frames[0].cell.sprite_source_size.x = i16::MIN + 1;
    assert!(!serves(&sheet));
    sheet.frames[0].cell.sprite_source_size.x = i16::MIN + 2;
    assert!(serves(&sheet));
    assert!(within(&cell(i16::MAX)));
    assert!(within(&cell(-32740)));
    assert!(!within(&cell(-32741)));
}

#[test]
fn game_goes_on_and_the_mark_stays_ahead() {
    let mut walk = walk();
    let right = keys(&["ArrowRight"]);
    let jump = keys(&["ArrowRight", "Space"]);
    let slide = keys(&["ArrowRight", "ArrowDown"]);
    for frame in 0..3000 {
        let held = if frame % 7 == 0 { &jump } else if frame % 11 == 0 { &slide } else { &right };
        walk.update(held);
        assert!(walk.timeline >= rightmost(&walk.obstacles));
        assert!(walk.timeline >= 996);
        assert!(walk.boy.pos_y() <= 449);
        assert!(walk.boy.velocity_y() <= 20);
        assert!(walk.obstacles.len() <= 8);
        let (a, b) = (walk.backgrounds[0].position.x, walk.backgrounds[1].position.x);
        assert!(a == b + 600 || b == a + 600);
    }
}

#[test]
fn both_segments_come_up() {
    let mut stone_first = 0;
    let mut platform_first = 0;
    for _ in 0..400 {
        let mut walk = walk();
        walk.generate_next_segment();
        if walk.timeline == 1188 {
            stone_first += 1;
        } else {
            assert_eq!(walk.timeline, 1138);
            platform_first += 1;
        }
    }
    assert!(stone_first > 0);
    assert!(platform_first > 0);
}

#[test]
fn frame_is_painted_back_to_front() {
    let walk = walk();
    assert!(walk.can_draw());
    let paints = walk.draw();
    let part = |x: i16, w: i16| DrawCall {
        source: Rect::new_from_x_y(1, 2, w, 93),
        destination: Rect::new_from_x_y(x, 420, w, 93),
    };
    assert_eq!(
        paints,
        vec![
            Paint::Clear(Rect::new_from_x_y(0, 0, 600, 570)),
            Paint::Whole(Picture::Background, Point { x: 0, y: 0 }),
            Paint::Whole(Picture::Background, Point { x: 600, y: 0 }),
            Paint::Part(
                Picture::Boy,
                DrawCall {
                    source: Rect::new_from_x_y(3, 7, 160, 136),
                    destination: Rect::new_from_x_y(-10, 454, 160, 136),
                },
            ),
            Paint::Whole(Picture::Stone, Point { x: 150, y: 520 }),
            Paint::Part(Picture::Tiles, part(200, 100)),
            Paint::Part(Picture::Tiles, part(300, 120)),
            Paint::Part(Picture::Tiles, part(420, 128)),
        ]
    );
    assert_eq!(WalkTheDog::new().draw(), vec![Paint::Clear(Rect::new_from_x_y(0, 0, 600, 570))]);
    assert!(WalkTheDog::new().can_draw());
}

#[test]
fn world_without_a_picture_cannot_be_painted() {
    let bare = Walk::new(Sheet::new(Vec::new()), ImageSize { width: 600, height: 570 }, stone(), tiles());
    assert!(!bare.can_draw());
    assert!(!bare.boy.can_draw());
    assert!(!bare.boy.has_box());
    let mut wide = walk();
    assert!(wide.boy.has_box());
    let sheet = Sheet::new(vec![
        SheetEntry { name: String::from("13.png"), cell: cell(20000) },
        SheetEntry { name: String::from("14.png"), cell: cell(20000) },
        SheetEntry { name: String::from("15.png"), cell: cell(1) },
    ]);
    wide.obstacles.push(Obstacle::Platform(create_floating_platform(&sheet, Point { x: 0, y: 0 })));
    assert!(!wide.obstacles[2].can_draw());
    assert!(wide.obstacles[1].can_draw());
    assert!(!wide.can_draw());
}

#[test]
fn world_stays_steady_frame_by_frame() {
    let mut game = match WalkTheDog::new().initialize(boy_sheet(), ImageSize { width: 600, height: 570 }, stone(), tiles()) {
        Ok(game) => game,
        Err(_) => panic!("a new game can be loaded"),
    };
    assert!(WalkTheDog::new().is_steady());
    let right = keys(&["ArrowRight"]);
    let jump = keys(&["ArrowRight", "Space"]);
    for frame in 0..600 {
        assert!(game.is_steady());
        game.update(if frame % 9 == 0 { &jump } else { &right });
    }
    assert!(game.is_steady());
}

#[test]
fn unsteady_worlds_are_told_apart() {
    assert!(is_steady(&walk()));
    let mut ahead = walk();
    ahead.obstacles.push(barrier_at(600, 10));
    assert!(!is_steady(&ahead));
    let mut behind = walk();
    behind.timeline = -1;
    assert!(!is_steady(&behind));
    let mut torn = walk();
    torn.backgrounds[1].set_x(601);
    assert!(!is_steady(&torn));
    assert!(!backgrounds_are_steady(&torn.backgrounds[0], &torn.backgrounds[1]));
    let mut high = walk();
    high.boy.run_right();
    high.boy.land_on(374);
    assert!(!character_is_steady(&high.boy.state_machine));
    assert!(!is_steady(&high));
    let mut rising = walk();
    rising.boy.run_right();
    rising.boy.jump();
    rising.boy.land_on(420);
    // it runs, but still rises
    assert!(!character_is_steady(&rising.boy.state_machine));
    let mut wide = walk();
    wide.stone.width = 31549;
    assert!(!is_steady(&wide));
    assert!(!is_steady(&Walk::new(Sheet::new(Vec::new()), ImageSize { width: 600, height: 570 }, stone(), tiles())));
    // a platform above the highest surface, and one whose box lies too far left of its right edge
    let lifted = Platform::new(&tiles(), Point { x: 0, y: 374 }, &[], &[Rect::new_from_x_y(0, 0, 10, 10)]);
    assert!(!obstacle_is_sound(&Obstacle::Platform(lifted)));
    let spread = [Rect::new_from_x_y(-32000, 375, 10, 10), Rect::new_from_x_y(1000, 375, 10, 10)];
    let spread = Platform::new(&tiles(), Point { x: 0, y: 0 }, &[], &spread);
    assert!(!obstacle_is_sound(&Obstacle::Platform(spread)));
    let fine = [Rect::new_from_x_y(100, 375, 10, 10), Rect::new_from_x_y(0, 570, 10, 10)];
    let fine = Platform::new(&tiles(), Point { x: 0, y: 0 }, &[], &fine);
    assert!(obstacle_is_sound(&Obstacle::Platform(fine)));
    assert!(obstacle_is_sound(&barrier_at(-40, 30)));
    assert!(box_is_sound(&Rect::new_from_x_y(-32654, 400, 5, 5), 110));
    assert!(!box_is_sound(&Rect::new_from_x_y(-32655, 400, 5, 5), 110));
}
