use walk_the_dog::engine::{Cell, ImageSize, Image, Point, Rect, Sheet, SheetEntry, SheetRect};
use walk_the_dog::obstacles::{Barrier, Obstacle, Platform};
use walk_the_dog::red_hat_boy::{Event, RedHatBoy, RedHatBoyStateMachine, StateKind};
use walk_the_dog::red_hat_boy_states::{
    FallingEndState, JumpingEndState, RedHatBoyContext, RedHatBoyState, SlidingEndState,
    FALLING_FRAMES, FLOOR, JUMP_SPEED, PLAYER_HEIGHT, RUNNING_SPEED, SLIDING_FRAMES,
    STARTING_POINT, TERMINAL_VELOCITY,
};

fn cell() -> Cell {
    Cell {
        frame: SheetRect { x: 3, y: 7, w: 160, h: 136 },
        sprite_source_size: SheetRect { x: 10, y: 5, w: 160, h: 136 },
    }
}

fn boy_sheet() -> Sheet {
    let mut frames = Vec::new();
    for animation in ["Idle", "Run", "Slide", "Jump", "Dead"] {
        for index in 1..=12 {
            frames.push(SheetEntry { name: format!("{} ({}).png", animation, index), cell: cell() });
        }
    }
    Sheet::new(frames)
}

fn running() -> RedHatBoyStateMachine {
    RedHatBoyStateMachine::new().transition(Event::Run)
}

#[test]
fn starts_idle_on_the_floor() {
    let machine = RedHatBoyStateMachine::new();
    assert_eq!(machine.kind(), StateKind::Idle);
    let context = *machine.context();
    assert_eq!(context.frame, 0);
    assert_eq!(context.position, Point { x: STARTING_POINT, y: FLOOR });
    assert_eq!(context.velocity, Point { x: 0, y: 0 });
    assert_eq!(PLAYER_HEIGHT, 121);
}

#[test]
fn idle_run_becomes_running() {
    let machine = RedHatBoyStateMachine::new().update().update();
    assert_eq!(machine.context().frame, 2);
    let machine = machine.transition(Event::Run);
    assert_eq!(machine.kind(), StateKind::Running);
    assert_eq!(machine.context().velocity.x, RUNNING_SPEED);
    assert_eq!(machine.context().velocity.x, 4);
    assert_eq!(machine.context().frame, 0);
}

#[test]
fn idle_ignores_what_it_has_no_entry_for() {
    for event in [Event::Slide, Event::Jump, Event::KnockOut, Event::Land(300)] {
        let machine = RedHatBoyStateMachine::new().transition(event);
        assert_eq!(machine.kind(), StateKind::Idle);
        assert_eq!(*machine.context(), *RedHatBoyStateMachine::new().context());
    }
}

#[test]
fn running_ignores_run() {
    let machine = running().transition(Event::Run);
    assert_eq!(machine.kind(), StateKind::Running);
    assert_eq!(machine.context().velocity.x, 4);
}

#[test]
fn jump_goes_up_and_comes_down_running() {
    let mut machine = running().update().update().transition(Event::Jump);
    assert_eq!(machine.kind(), StateKind::Jumping);
    assert_eq!(machine.context().velocity.y, JUMP_SPEED);
    assert_eq!(machine.context().velocity.y, -25);
    assert_eq!(machine.context().frame, 0);
    let mut frames = 0;
    while machine.kind() == StateKind::Jumping {
        machine = machine.update();
        frames += 1;
        assert!(frames <= 100);
    }
    assert_eq!(frames, 50);
    assert_eq!(machine.kind(), StateKind::Running);
    assert_eq!(machine.context().frame, 0);
    assert_eq!(machine.context().position.y, FLOOR);
}

#[test]
fn jump_is_still_a_jump_one_frame_before_the_floor() {
    let mut machine = running().transition(Event::Jump);
    for _ in 0..49 {
        machine = machine.update();
        assert_eq!(machine.kind(), StateKind::Jumping);
    }
    // the frame counter has wrapped once on the way: 49 frames of a 35 frame animation
    assert_eq!(machine.context().frame, 13);
    assert_eq!(machine.context().velocity.y, 20);
    assert_eq!(machine.context().position.y, 439);
    assert_eq!(machine.update().kind(), StateKind::Running);
}

#[test]
fn first_frame_of_a_jump() {
    let machine = running().transition(Event::Jump).update();
    assert_eq!(machine.context().velocity.y, -24);
    assert_eq!(machine.context().position.y, 425);
    assert_eq!(machine.context().frame, 1);
}

#[test]
fn slide_lasts_fourteen_frames() {
    let mut machine = running().update().update().update().transition(Event::Slide);
    assert_eq!(machine.kind(), StateKind::Sliding);
    assert_eq!(machine.context().frame, 0);
    for frame in 1..SLIDING_FRAMES {
        machine = machine.update();
        assert_eq!(machine.kind(), StateKind::Sliding);
        assert_eq!(machine.context().frame, frame);
    }
    machine = machine.update();
    assert_eq!(machine.kind(), StateKind::Running);
    assert_eq!(machine.context().frame, 0);
}

#[test]
fn knock_out_falls_and_ends_knocked_out() {
    let mut machine = running().transition(Event::KnockOut);
    assert_eq!(machine.kind(), StateKind::Falling);
    assert_eq!(machine.context().velocity.x, 0);
    assert_eq!(machine.context().frame, 0);
    for _ in 1..FALLING_FRAMES {
        machine = machine.update();
        assert_eq!(machine.kind(), StateKind::Falling);
    }
    machine = machine.update();
    assert_eq!(machine.kind(), StateKind::KnockedOut);
    let context = *machine.context();
    assert_eq!(context.frame, 29);
    for _ in 0..5 {
        machine = machine.update();
        assert_eq!(machine.kind(), StateKind::KnockedOut);
        assert_eq!(*machine.context(), context);
    }
}

#[test]
fn knocked_out_absorbs_every_event() {
    let mut machine = running().transition(Event::KnockOut);
    for _ in 0..FALLING_FRAMES {
        machine = machine.update();
    }
    assert_eq!(machine.kind(), StateKind::KnockedOut);
    let context = *machine.context();
    for event in [
        Event::Run,
        Event::Slide,
        Event::Update,
        Event::Jump,
        Event::KnockOut,
        Event::Land(100),
    ] {
        let next = machine.transition(event);
        assert_eq!(next.kind(), StateKind::KnockedOut);
        assert_eq!(*next.context(), context);
    }
}

#[test]
fn falling_ignores_everything_but_the_frame() {
    let machine = running().transition(Event::KnockOut);
    for event in [Event::Run, Event::Slide, Event::Jump, Event::KnockOut, Event::Land(100)] {
        let next = machine.transition(event);
        assert_eq!(next.kind(), StateKind::Falling);
        assert_eq!(*next.context(), *machine.context());
    }
}

#[test]
fn landing_puts_the_feet_on_the_surface() {
    let machine = running().update().transition(Event::Land(420));
    assert_eq!(machine.kind(), StateKind::Running);
    assert_eq!(machine.context().position.y, 299);
    assert_eq!(machine.context().frame, 1);
    let sliding = running().transition(Event::Slide).update().transition(Event::Land(375));
    assert_eq!(sliding.kind(), StateKind::Sliding);
    assert_eq!(sliding.context().position.y, 254);
    assert_eq!(sliding.context().frame, 1);
    let jumping = running().transition(Event::Jump).update().transition(Event::Land(375));
    assert_eq!(jumping.kind(), StateKind::Running);
    assert_eq!(jumping.context().position.y, 254);
    assert_eq!(jumping.context().frame, 0);
    assert_eq!(jumping.context().velocity.y, -24);
}

#[test]
fn gravity_rises_to_the_terminal_velocity_and_holds() {
    let mut context = RedHatBoyContext {
        frame: 0,
        position: Point { x: 0, y: -5000 },
        velocity: Point { x: 0, y: -3 },
    };
    let mut expected = -3;
    for _ in 0..40 {
        let before = context.velocity.y;
        context = context.update(10);
        if expected < TERMINAL_VELOCITY {
            expected += 1;
            assert!(context.velocity.y > before);
        } else {
            assert_eq!(context.velocity.y, before);
        }
        assert_eq!(context.velocity.y, expected);
    }
    assert_eq!(context.velocity.y, 20);
    assert_eq!(context.velocity.x, 0);
}

#[test]
fn the_floor_stops_the_fall() {
    let mut context = RedHatBoyContext {
        frame: 0,
        position: Point { x: 7, y: 400 },
        velocity: Point { x: 0, y: 18 },
    };
    context = context.update(10);
    assert_eq!(context.position.y, 419);
    context = context.update(10);
    assert_eq!(context.position.y, 439);
    for _ in 0..50 {
        context = context.update(10);
        assert_eq!(context.position.y, FLOOR);
    }
    assert_eq!(context.position.x, 7);
    let far_below = RedHatBoyContext {
        frame: 0,
        position: Point { x: 0, y: i16::MAX },
        velocity: Point { x: 0, y: i16::MAX },
    };
    assert_eq!(far_below.update(10).position.y, FLOOR);
}

#[test]
fn frame_counter_wraps_past_the_count() {
    let mut context = RedHatBoyContext {
        frame: 0,
        position: Point { x: 0, y: FLOOR },
        velocity: Point { x: 0, y: 0 },
    };
    for expected in [1, 2, 3, 0, 1] {
        context = context.update(3);
        assert_eq!(context.frame, expected);
    }
}

#[test]
fn typed_states_end_as_the_table_says() {
    let running = RedHatBoyState::new().run();
    let mut sliding = running.slide();
    let mut frames = 0;
    loop {
        frames += 1;
        match sliding.update() {
            SlidingEndState::Complete(standing) => {
                assert_eq!(standing.context().frame, 0);
                break;
            }
            SlidingEndState::Sliding(next) => sliding = next,
        }
    }
    assert_eq!(frames, 14);
    match running.jump().update() {
        JumpingEndState::Complete(_) => panic!("the jump has only begun"),
        JumpingEndState::Jumping(jumping) => assert_eq!(jumping.context().position.y, 425),
    }
    match running.jump().land_on(570).knock_out().update() {
        FallingEndState::Complete(_) => panic!("the fall has only begun"),
        FallingEndState::Falling(falling) => {
            assert_eq!(falling.context().velocity.x, 0);
            assert_eq!(falling.fall().context().frame, 1);
        }
    }
    assert_eq!(RedHatBoyState::new().frame_name(), "Idle");
    assert_eq!(running.frame_name(), "Run");
    assert_eq!(running.slide().frame_name(), "Slide");
    assert_eq!(running.jump().frame_name(), "Jump");
    assert_eq!(running.knock_out().frame_name(), "Dead");
    assert_eq!(running.knock_out().fall().frame_name(), "Dead");
    assert_eq!(running.slide().stand().frame_name(), "Run");
    assert_eq!(running.slide().knock_out().frame_name(), "Dead");
    assert_eq!(running.slide().land_on(300).context().position.y, 179);
    assert_eq!(RedHatBoyState::new().update().context().frame, 1);
    assert_eq!(running.update().context().frame, 1);
}

#[test]
fn frame_names_count_pictures_from_one() {
    let mut boy = RedHatBoy::new(boy_sheet());
    assert_eq!(boy.frame_name(), "Idle (1).png");
    boy.update();
    boy.update();
    assert_eq!(boy.frame_name(), "Idle (1).png");
    boy.update();
    assert_eq!(boy.frame_name(), "Idle (2).png");
    for _ in 0..24 {
        boy.update();
    }
    assert_eq!(boy.state_machine.context().frame, 27);
    assert_eq!(boy.frame_name(), "Idle (10).png");
    boy.run_right();
    assert_eq!(boy.frame_name(), "Run (1).png");
    boy.jump();
    assert_eq!(boy.frame_name(), "Jump (1).png");
    boy.knock_out();
    assert_eq!(boy.frame_name(), "Dead (1).png");
    for _ in 0..29 {
        boy.update();
    }
    assert_eq!(boy.state_machine.kind(), StateKind::KnockedOut);
    assert_eq!(boy.frame_name(), "Dead (10).png");
}

#[test]
fn boxes_follow_the_sprite() {
    let mut boy = RedHatBoy::new(boy_sheet());
    assert_eq!(boy.current_sprite(), Some(cell()));
    assert_eq!(boy.destination_box(), Rect::new_from_x_y(-10, 454, 160, 136));
    assert_eq!(boy.bounding_box(), Rect::new_from_x_y(8, 468, 132, 122));
    let call = boy.draw();
    assert_eq!(call.source, Rect::new_from_x_y(3, 7, 160, 136));
    assert_eq!(call.destination, Rect::new_from_x_y(-10, 454, 160, 136));
    boy.run_right();
    boy.land_on(420);
    assert_eq!(boy.pos_y(), 299);
    assert_eq!(boy.velocity_y(), 0);
    assert_eq!(boy.walking_speed(), 4);
    assert_eq!(boy.bounding_box(), Rect::new_from_x_y(8, 318, 132, 122));
    boy.slide();
    assert_eq!(boy.state_machine.kind(), StateKind::Sliding);
    let bare = RedHatBoy::new(Sheet::new(Vec::new()));
    assert_eq!(bare.current_sprite(), None);
}

#[test]
fn barrier_knocks_a_running_character_out() {
    let mut boy = RedHatBoy::new(boy_sheet());
    boy.run_right();
    let stone = Barrier::new(Image::new(ImageSize { width: 50, height: 54 }, Point { x: 100, y: 520 }));
    stone.check_intersection(&mut boy);
    assert_eq!(boy.state_machine.kind(), StateKind::Falling);
    assert_eq!(boy.walking_speed(), 0);
    for _ in 0..29 {
        boy.update();
    }
    assert_eq!(boy.state_machine.kind(), StateKind::KnockedOut);
    boy.update();
    boy.run_right();
    assert_eq!(boy.state_machine.kind(), StateKind::KnockedOut);
}

#[test]
fn barrier_out_of_reach_does_nothing() {
    let mut boy = RedHatBoy::new(boy_sheet());
    boy.run_right();
    // the character's box ends at x = 140: touching edges do not overlap
    let stone = Barrier::new(Image::new(ImageSize { width: 50, height: 54 }, Point { x: 140, y: 520 }));
    stone.check_intersection(&mut boy);
    assert_eq!(boy.state_machine.kind(), StateKind::Running);
    let mut near = Obstacle::Barrier(stone);
    near.move_horizontally(-1);
    assert_eq!(near.right(), 189);
    near.check_intersection(&mut boy);
    assert_eq!(boy.state_machine.kind(), StateKind::Falling);
}

#[test]
fn platform_takes_the_first_box_that_overlaps() {
    let mut boy = RedHatBoy::new(boy_sheet());
    boy.run_right();
    boy.update();
    assert_eq!(boy.velocity_y(), 1);
    let boxes = [
        Rect::new_from_x_y(500, 0, 10, 10),
        Rect::new_from_x_y(0, 30, 100, 10),
        Rect::new_from_x_y(0, 0, 100, 10),
    ];
    let platform = Platform::new(&boy_sheet(), Point { x: 50, y: 480 }, &[], &boxes);
    platform.check_intersection(&mut boy);
    assert_eq!(boy.state_machine.kind(), StateKind::Running);
    // on the box stored second, at 510, not on the higher one stored after it
    assert_eq!(boy.pos_y(), 510 - 121);
}

#[test]
fn platform_knocks_out_who_does_not_come_from_above() {
    let boxes = [Rect::new_from_x_y(0, 0, 100, 10)];
    let platform = Platform::new(&boy_sheet(), Point { x: 50, y: 480 }, &[], &boxes);
    // not falling: the vertical velocity is zero
    let mut boy = RedHatBoy::new(boy_sheet());
    boy.run_right();
    platform.check_intersection(&mut boy);
    assert_eq!(boy.state_machine.kind(), StateKind::Falling);
    // falling, but not above the platform
    let low = Platform::new(&boy_sheet(), Point { x: 50, y: 449 }, &[], &[Rect::new_from_x_y(0, 31, 100, 10)]);
    let mut boy = RedHatBoy::new(boy_sheet());
    boy.run_right();
    boy.update();
    low.check_intersection(&mut boy);
    assert_eq!(boy.state_machine.kind(), StateKind::Falling);
    // no contact at all
    let far = Platform::new(&boy_sheet(), Point { x: 500, y: 480 }, &[], &boxes);
    let mut boy = RedHatBoy::new(boy_sheet());
    boy.run_right();
    far.check_intersection(&mut boy);
    assert_eq!(boy.state_machine.kind(), StateKind::Running);
    // a platform without boxes never touches anyone, not even a character without a sprite
    let empty = Platform::new(&boy_sheet(), Point { x: 0, y: 0 }, &[], &[]);
    let mut bare = RedHatBoy::new(Sheet::new(Vec::new()));
    empty.check_intersection(&mut bare);
    assert_eq!(bare.state_machine.kind(), StateKind::Idle);
    assert_eq!(empty.right(), 0);
}

#[test]
fn machine_tells_what_it_can_take() {
    let machine = RedHatBoyStateMachine::new();
    for event in [Event::Run, Event::Slide, Event::Update, Event::Jump, Event::KnockOut, Event::Land(i16::MIN)] {
        assert!(machine.can_take(event));
    }
    let running = running();
    assert!(running.can_take(Event::Land(i16::MIN + 121)));
    assert!(!running.can_take(Event::Land(i16::MIN + 120)));
    assert!(running.can_take(Event::Run));
    let fast = RedHatBoyStateMachine::new();
    assert!(fast.can_take(Event::Run));
    let high = running.transition(Event::Land(i16::MIN + 121)).transition(Event::Jump);
    assert_eq!(high.context().position.y, i16::MIN);
    assert!(!high.can_take(Event::Update));
    assert!(high.can_take(Event::KnockOut));
    let falling = high.transition(Event::KnockOut);
    assert!(!falling.can_take(Event::Update));
    assert!(falling.can_take(Event::Land(i16::MIN)));
}

#[test]
fn jump_from_the_high_platform_is_the_highest_it_gets() {
    let mut machine = running().update().transition(Event::Land(375));
    assert_eq!(machine.context().position.y, 254);
    machine = machine.transition(Event::Jump);
    let mut highest = machine.context().position.y;
    while machine.kind() == StateKind::Jumping {
        machine = machine.update();
        highest = highest.min(machine.context().position.y);
    }
    assert_eq!(highest, -46);
    assert_eq!(machine.context().position.y, FLOOR);
}
