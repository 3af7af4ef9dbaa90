use progress::{Bounded, Progress, ProgressDisplay, Unbounded, EMPTY, FILLED, MARK};

fn text(line: &[char]) -> String {
    line.iter().collect()
}

#[test]
fn ten_ones_bounded_default_delims() {
    let mut p = Progress::new(vec![1; 10]).with_bound();
    let mut lines: Vec<String> = Vec::new();
    let mut items: Vec<i32> = Vec::new();
    while let Some((line, item)) = p.next() {
        lines.push(text(&line));
        items.push(item);
    }
    assert_eq!(lines.len(), 10);
    assert_eq!(items, vec![1; 10]);
    assert_eq!(lines[0], "[          ]");
    assert_eq!(lines[9], "[\u{2588}\u{2588}\u{2588}\u{2588}\u{2588}\u{2588}\u{2588}\u{2588}\u{2588} ]");
}

#[test]
fn unbounded_lines_count_up_and_items_unchanged() {
    let (lines, items) = Progress::new(vec![7, 8, 9, 10]).run();
    assert_eq!(items, vec![7, 8, 9, 10]);
    let lines: Vec<String> = lines.iter().map(|l| text(l)).collect();
    assert_eq!(lines, vec!["", "*", "**", "***"]);
}

#[test]
fn unbounded_next_step_by_step() {
    let mut p = Progress::new(vec!['a', 'b']);
    let (line, item) = p.next().unwrap();
    assert_eq!(text(&line), "");
    assert_eq!(item, 'a');
    let (line, item) = p.next().unwrap();
    assert_eq!(text(&line), "*");
    assert_eq!(item, 'b');
    assert!(p.next().is_none());
    assert!(p.next().is_none());
}

#[test]
fn wrapping_keeps_item_sequence() {
    let source = vec![String::from("x"), String::from("yy"), String::from("zzz")];
    let (_, items) = Progress::new(source.clone()).run();
    assert_eq!(items, source);
}

#[test]
fn bounded_lines_have_width_n_plus_two() {
    let (lines, items) = Progress::new(vec![3, 1, 4, 1, 5]).with_bound().run();
    assert_eq!(items, vec![3, 1, 4, 1, 5]);
    assert_eq!(lines.len(), 5);
    for (count, line) in lines.iter().enumerate() {
        assert_eq!(line.len(), 7);
        assert_eq!(line.iter().filter(|c| **c == FILLED).count(), count);
        assert_eq!(line.iter().filter(|c| **c == EMPTY).count(), 5 - count);
    }
    assert_eq!(text(&lines[2]), "[\u{2588}\u{2588}   ]");
}

#[test]
fn angle_delims_on_every_line() {
    let (lines, _) = Progress::new(vec![1, 2, 3]).with_bound().with_delims(('<', '>')).run();
    assert_eq!(lines.len(), 3);
    for line in &lines {
        assert_eq!(line[0], '<');
        assert_eq!(*line.last().unwrap(), '>');
    }
    assert_eq!(text(&lines[1]), "<\u{2588}  >");
}

#[test]
fn identical_delims_are_accepted() {
    let mut p = Progress::new(vec![0u8]).with_bound().with_delims(('|', '|'));
    let (line, item) = p.next().unwrap();
    assert_eq!(text(&line), "| |");
    assert_eq!(item, 0);
}

#[test]
fn empty_source_bounded_shows_nothing() {
    let mut p = Progress::new(Vec::<u32>::new()).with_bound();
    assert!(p.next().is_none());
    let (lines, items) = Progress::new(Vec::<u32>::new()).with_bound().run();
    assert!(lines.is_empty());
    assert!(items.is_empty());
}

#[test]
fn empty_source_unbounded_shows_nothing() {
    let (lines, items) = Progress::new(Vec::<u32>::new()).run();
    assert!(lines.is_empty());
    assert!(items.is_empty());
}

#[test]
fn bound_taken_from_remaining_items_and_overshoot_clamped() {
    let mut p = Progress::new(vec![1, 2, 3]);
    let (line, item) = p.next().unwrap();
    assert_eq!(text(&line), "");
    assert_eq!(item, 1);
    let (line, item) = p.next().unwrap();
    assert_eq!(text(&line), "*");
    assert_eq!(item, 2);
    let mut p = p.with_bound();
    let (line, item) = p.next().unwrap();
    assert_eq!(text(&line), "[\u{2588}\u{2588}]");
    assert_eq!(item, 3);
    assert!(p.next().is_none());
}

#[test]
fn display_modes_render_counts() {
    assert_eq!(text(&Unbounded.display(3)), "***");
    assert_eq!(text(&Unbounded.display(0)), "");
    let b = Bounded { bound: 4, delims: ('[', ']') };
    assert_eq!(text(&b.display(0)), "[    ]");
    assert_eq!(text(&b.display(1)), "[\u{2588}   ]");
    assert_eq!(text(&b.display(4)), "[\u{2588}\u{2588}\u{2588}\u{2588}]");
    assert_eq!(text(&b.display(6)), "[\u{2588}\u{2588}\u{2588}\u{2588}\u{2588}\u{2588}]");
    assert_eq!(MARK, '*');
}
