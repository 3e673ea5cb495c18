use rust_exercises::basics::{
    count_up, element_at, for_values, lookup_line, shadowed, sum, while_values, LookupError, Tick,
};

#[test]
fn sum_adds() {
    assert_eq!(sum(5, 5), 10);
    assert_eq!(sum(0, 0), 0);
    assert_eq!(sum(-7, 3), -4);
    assert_eq!(sum(3, -7), -4);
    assert_eq!(sum(-2, -3), -5);
}

#[test]
fn sum_reaches_both_ends_of_the_range() {
    assert_eq!(sum(i32::MAX, 0), i32::MAX);
    assert_eq!(sum(i32::MAX - 1, 1), i32::MAX);
    assert_eq!(sum(i32::MIN, 0), i32::MIN);
    assert_eq!(sum(i32::MIN + 1, -1), i32::MIN);
    assert_eq!(sum(i32::MAX, i32::MIN), -1);
    assert_eq!(sum(i32::MIN, i32::MAX), -1);
}

#[test]
fn shadowed_name_is_twelve_inside_and_six_after() {
    assert_eq!(shadowed(), (12, 6));
}

#[test]
fn element_at_each_index() {
    assert_eq!(element_at(0), Some(-1));
    assert_eq!(element_at(1), Some(2));
    assert_eq!(element_at(2), Some(-3));
    assert_eq!(element_at(3), Some(4));
    assert_eq!(element_at(4), Some(-5));
}

#[test]
fn element_behind_the_last_is_none() {
    assert_eq!(element_at(5), None);
    assert_eq!(element_at(6), None);
    assert_eq!(element_at(usize::MAX), None);
}

#[test]
fn line_with_an_index_finds_the_element() {
    assert_eq!(lookup_line("0"), Ok((0, -1)));
    assert_eq!(lookup_line("1\n"), Ok((1, 2)));
    assert_eq!(lookup_line(" 2 "), Ok((2, -3)));
    assert_eq!(lookup_line("+3"), Ok((3, 4)));
    assert_eq!(lookup_line("004\r\n"), Ok((4, -5)));
}

#[test]
fn line_with_an_index_too_far_is_out_of_bounds() {
    assert_eq!(lookup_line("5"), Err(LookupError::OutOfBounds(5)));
    assert_eq!(lookup_line("10\n"), Err(LookupError::OutOfBounds(10)));
    assert_eq!(
        lookup_line("4294967295"),
        Err(LookupError::OutOfBounds(4294967295))
    );
    let last = format!("{}", usize::MAX);
    assert_eq!(lookup_line(&last), Err(LookupError::OutOfBounds(usize::MAX)));
}

#[test]
fn line_without_an_index_is_not_a_number() {
    assert_eq!(lookup_line(""), Err(LookupError::NotANumber));
    assert_eq!(lookup_line("\n"), Err(LookupError::NotANumber));
    assert_eq!(lookup_line("two"), Err(LookupError::NotANumber));
    assert_eq!(lookup_line("-1"), Err(LookupError::NotANumber));
    assert_eq!(lookup_line("1.5"), Err(LookupError::NotANumber));
    assert_eq!(lookup_line("1 2"), Err(LookupError::NotANumber));
    assert_eq!(
        lookup_line("340282366920938463463374607431768211456"),
        Err(LookupError::NotANumber)
    );
}

#[test]
fn line_lookup_agrees_with_the_standard_parser_and_indexing() {
    let a: [i32; 5] = [-1, 2, -3, 4, -5];
    let lines = vec![
        "0", "1", "2", "3", "4", "5", "6", "", "x", "-0", "+0", " 4\n", "18446744073709551615",
        "18446744073709551616", "4294967296",
    ];
    for line in lines {
        let expected = match line.trim().parse::<usize>() {
            Err(_) => Err(LookupError::NotANumber),
            Ok(index) => match a.get(index) {
                Some(element) => Ok((index, *element)),
                None => Err(LookupError::OutOfBounds(index)),
            },
        };
        assert_eq!(lookup_line(line), expected);
    }
}

#[test]
fn counting_up_ticks_in_order_and_ends_at_two() {
    let (ticks, count) = count_up();
    assert_eq!(count, 2);
    assert_eq!(
        ticks,
        vec![
            Tick::Counter(0),
            Tick::Remaining(10),
            Tick::Remaining(9),
            Tick::Counter(1),
            Tick::Remaining(10),
            Tick::Remaining(9),
            Tick::Counter(2),
            Tick::Remaining(10),
        ]
    );
}

#[test]
fn while_walk_meets_the_elements_in_order() {
    assert_eq!(while_values(), vec![10, 20, 30, 40, 50]);
}

#[test]
fn for_walk_meets_the_elements_in_order() {
    assert_eq!(for_values(), vec![10, 20, 30, 40, 50]);
}

#[test]
fn both_walks_meet_the_same_elements() {
    assert_eq!(while_values(), for_values());
}
