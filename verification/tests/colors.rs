use currant::color::{
    assign_colors, close_sequence, close_sequence_with, color_list_from, open_sequence,
    open_sequence_with, populate_random_colors, rgb_string, theta_to_rgb, Color,
};
use currant::standard_out_api::run_commands_stdout;
use currant::{Command, ConsoleCommand, NameMap, Runner};

#[test]
fn named_colors() {
    assert_eq!(Color::red(), Color::RGB(255, 0, 0));
    assert_eq!(Color::green(), Color::RGB(0, 255, 0));
    assert_eq!(Color::yellow(), Color::RGB(255, 255, 0));
    assert_eq!(Color::blue(), Color::RGB(0, 0, 255));
    assert_eq!(Color::magenta(), Color::RGB(255, 0, 255));
    assert_eq!(Color::cyan(), Color::RGB(0, 255, 255));
    assert_eq!(Color::white(), Color::RGB(255, 255, 0));
    assert_eq!(Color::black(), Color::RGB(0, 0, 0));
    assert_eq!(Color::rgb(1, 2, 3), Color::RGB(1, 2, 3));
    assert_eq!(Color::default(), Color::Default);
}

#[test]
fn the_wheel_at_the_angles_where_halves_are_rounded() {
    // 2 degrees lies halfway between 8 and 9 and goes down, 14 degrees between 59 and 60 and
    // goes up.
    assert_eq!(theta_to_rgb(2), Color::RGB(255, 8, 0));
    assert_eq!(theta_to_rgb(14), Color::RGB(255, 60, 0));
    assert_eq!(theta_to_rgb(358), Color::RGB(255, 0, 8));
    assert_eq!(theta_to_rgb(346), Color::RGB(255, 0, 60));
    assert_eq!(theta_to_rgb(1), Color::RGB(255, 4, 0));
    assert_eq!(theta_to_rgb(59), Color::RGB(255, 251, 0));
    assert_eq!(theta_to_rgb(61), Color::RGB(251, 255, 0));
    assert_eq!(theta_to_rgb(119), Color::RGB(4, 255, 0));
    assert_eq!(theta_to_rgb(359), Color::RGB(255, 0, 4));
}

#[test]
fn colors_are_set_evenly_around_the_wheel() {
    assert_eq!(color_list_from(0, 0), Vec::new());
    assert_eq!(color_list_from(17, 1), vec![theta_to_rgb(17)]);
    assert_eq!(
        color_list_from(0, 3),
        vec![Color::RGB(255, 0, 0), Color::RGB(0, 255, 0), Color::RGB(0, 0, 255)]
    );
    assert_eq!(
        color_list_from(300, 4),
        vec![theta_to_rgb(300), theta_to_rgb(30), theta_to_rgb(120), theta_to_rgb(210)]
    );
    // Seven colors are 51 whole degrees apart.
    assert_eq!(
        color_list_from(350, 7),
        vec![
            theta_to_rgb(350),
            theta_to_rgb(41),
            theta_to_rgb(92),
            theta_to_rgb(143),
            theta_to_rgb(194),
            theta_to_rgb(245),
            theta_to_rgb(296),
        ]
    );
    // More colors than degrees all come out the same.
    let many = color_list_from(5, 361);
    assert_eq!(many.len(), 361);
    assert!(many.iter().all(|c| *c == theta_to_rgb(5)));
}

#[test]
fn a_random_color_list_has_the_length_asked_for_and_an_even_spacing() {
    assert!(Color::random_color_list(0).is_empty());
    for n in [1u32, 2, 3, 8] {
        let colors = Color::random_color_list(n);
        assert_eq!(colors.len(), n as usize);
        assert!((0..360).any(|start| colors == color_list_from(start, n)));
    }
}

#[test]
fn a_truly_random_color_has_three_parts() {
    assert!(matches!(Color::true_random(), Color::RGB(_, _, _)));
}

#[test]
fn color_sequences_on_a_terminal_and_elsewhere() {
    assert_eq!(rgb_string(0, 7, 255), "\x1b[38;2;0;7;255m");
    assert_eq!(open_sequence_with(&Color::RGB(12, 0, 100), true, (1, 2, 3)), "\x1b[38;2;12;0;100m");
    assert_eq!(open_sequence_with(&Color::Random, true, (1, 2, 3)), "\x1b[38;2;1;2;3m");
    assert_eq!(open_sequence_with(&Color::Default, true, (1, 2, 3)), "\x1b[0m");
    assert_eq!(open_sequence_with(&Color::RGB(12, 0, 100), false, (1, 2, 3)), "");
    assert_eq!(open_sequence_with(&Color::Random, false, (1, 2, 3)), "");
    assert_eq!(open_sequence_with(&Color::Default, false, (1, 2, 3)), "");
    assert_eq!(close_sequence_with(true), "\x1b[0m");
    assert_eq!(close_sequence_with(false), "");
}

#[test]
fn color_sequences_as_standard_out_is_now() {
    let open = open_sequence(&Color::RGB(9, 8, 7));
    assert!(open == "\x1b[38;2;9;8;7m" || open.is_empty());
    let open = open_sequence(&Color::Default);
    assert!(open == "\x1b[0m" || open.is_empty());
    let open = open_sequence(&Color::Random);
    assert!(open.is_empty() || (open.starts_with("\x1b[38;2;") && open.ends_with('m')));
    let close = close_sequence();
    assert!(close == "\x1b[0m" || close.is_empty());
}

#[test]
fn picks_are_handed_out_from_the_last_to_the_first() {
    let mut list: NameMap<Color> = NameMap::new();
    list.insert("a".to_string(), Color::Random);
    list.insert("b".to_string(), Color::RGB(1, 1, 1));
    list.insert("c".to_string(), Color::Random);
    list.insert("d".to_string(), Color::Default);
    assign_colors(&mut list, vec![Color::RGB(10, 0, 0), Color::RGB(20, 0, 0)]);
    assert_eq!(list.len(), 4);
    assert_eq!(list.get("a"), Some(&Color::RGB(20, 0, 0)));
    assert_eq!(list.get("b"), Some(&Color::RGB(1, 1, 1)));
    assert_eq!(list.get("c"), Some(&Color::RGB(10, 0, 0)));
    assert_eq!(list.get("d"), Some(&Color::Default));
}

#[test]
fn random_colors_are_replaced_and_the_others_stay() {
    let mut list: NameMap<Color> = NameMap::new();
    list.insert("a".to_string(), Color::Random);
    list.insert("b".to_string(), Color::RGB(1, 1, 1));
    list.insert("c".to_string(), Color::Random);
    list.insert("d".to_string(), Color::Default);
    list.insert("e".to_string(), Color::Random);
    populate_random_colors(&mut list);
    assert_eq!(list.len(), 5);
    assert_eq!(list.name_at(0), "a");
    assert_eq!(list.name_at(4), "e");
    assert_eq!(list.get("b"), Some(&Color::RGB(1, 1, 1)));
    assert_eq!(list.get("d"), Some(&Color::Default));
    let picked = vec![*list.value_at(4), *list.value_at(2), *list.value_at(0)];
    assert!(picked.iter().all(|c| matches!(c, Color::RGB(_, _, _))));
    assert!((0..360).any(|start| picked == color_list_from(start, 3)));
}

#[test]
fn a_list_without_random_colors_stays_as_it_is() {
    let mut list: NameMap<Color> = NameMap::new();
    list.insert("a".to_string(), Color::Default);
    list.insert("b".to_string(), Color::RGB(3, 2, 1));
    let before = list.clone();
    populate_random_colors(&mut list);
    assert_eq!(list, before);
    let mut empty: NameMap<Color> = NameMap::new();
    populate_random_colors(&mut empty);
    assert_eq!(empty.len(), 0);
}

#[test]
fn a_console_run_gives_every_command_a_color() {
    let mut runner = Runner::new();
    let mut blue = ConsoleCommand::from_string("test1", "ls -la .", true).unwrap();
    blue.color(Color::blue());
    runner
        .command(blue)
        .command(ConsoleCommand::from_string("test2", "ls -la ..", true).unwrap())
        .command(ConsoleCommand::from_string("test3", "ls -la ../..", true).unwrap())
        .quiet(true);
    let run = run_commands_stdout(&runner);
    assert_eq!(run.num_cmds, 3);
    assert!(run.quiet);
    assert!(!run.file_handle_flags);
    assert_eq!(run.color_map.len(), 3);
    assert_eq!(run.color_map.get("test1"), Some(&Color::RGB(0, 0, 255)));
    let second = *run.color_map.get("test2").unwrap();
    let third = *run.color_map.get("test3").unwrap();
    assert!((0..360).any(|start| vec![third, second] == color_list_from(start, 2)));
}

#[test]
fn commands_that_share_a_name_share_the_last_color() {
    let mut runner = Runner::new();
    let mut first = ConsoleCommand::from_string("twin", "ls", true).unwrap();
    first.color(Color::red());
    let mut second = ConsoleCommand::from_string("twin", "pwd", true).unwrap();
    second.color(Color::green());
    runner.command(first).command(second);
    let run = run_commands_stdout(&runner);
    assert_eq!(run.num_cmds, 2);
    assert_eq!(run.color_map.len(), 1);
    assert_eq!(run.color_map.get("twin"), Some(&Color::RGB(0, 255, 0)));
}

fn wheel_in_binary_fractions(theta: u32) -> Color {
    let c = 1.0;
    let h_prime = f64::from(theta) / 60.0;
    let x = c * (1.0 - ((h_prime % 2.0) - 1.0).abs());

    let (r_1, g_1, b_1) = if (0.0..1.0).contains(&h_prime) {
        (c, x, 0.0)
    } else if (1.0..2.0).contains(&h_prime) {
        (x, c, 0.0)
    } else if (2.0..3.0).contains(&h_prime) {
        (0.0, c, x)
    } else if (3.0..4.0).contains(&h_prime) {
        (0.0, x, c)
    } else if (4.0..5.0).contains(&h_prime) {
        (x, 0.0, c)
    } else {
        (c, 0.0, x)
    };

    Color::RGB(
        (r_1 * 255.0).round() as u8,
        (g_1 * 255.0).round() as u8,
        (b_1 * 255.0).round() as u8,
    )
}

#[test]
fn the_wheel_is_that_of_binary_fractions_at_every_angle_tried() {
    for theta in 0..150000u32 {
        assert_eq!(theta_to_rgb(theta), wheel_in_binary_fractions(theta), "at {}", theta);
    }
    let mut theta: u32 = 150002;
    while theta < 4294000000 {
        assert_eq!(theta_to_rgb(theta), wheel_in_binary_fractions(theta), "at {}", theta);
        theta += 28564;
    }
    for theta in 4294867295..=4294967295u32 {
        assert_eq!(theta_to_rgb(theta), wheel_in_binary_fractions(theta), "at {}", theta);
    }
}

#[test]
fn angles_from_360_on_lie_between_magenta_and_red() {
    assert_eq!(theta_to_rgb(360), Color::RGB(255, 0, 0));
    assert_eq!(theta_to_rgb(362), Color::RGB(255, 0, 8));
    assert_eq!(theta_to_rgb(420), Color::RGB(255, 0, 255));
    assert_eq!(theta_to_rgb(479), Color::RGB(255, 0, 4));
    assert_eq!(theta_to_rgb(7682), Color::RGB(255, 0, 8));
    assert_eq!(theta_to_rgb(1000002), Color::RGB(255, 0, 179));
    assert_eq!(theta_to_rgb(2147483650), Color::RGB(255, 0, 42));
    assert_eq!(theta_to_rgb(4294967294), Color::RGB(255, 0, 60));
    assert_eq!(theta_to_rgb(4294967295), Color::RGB(255, 0, 64));
}

#[test]
fn a_list_may_begin_at_any_angle() {
    let second = ((4294967295u64 + 180) % 360) as u32;
    assert_eq!(
        color_list_from(4294967295, 2),
        vec![theta_to_rgb(4294967295), theta_to_rgb(second)]
    );
    assert_eq!(
        color_list_from(725, 3),
        vec![theta_to_rgb(725), theta_to_rgb(125), theta_to_rgb(245)]
    );
}
