use emulated_client::sorted_iter::reversed_sorted_iter;

fn drained(a: Vec<(u32, char)>, b: Vec<(u32, char)>, size: usize) -> Vec<(u32, char)> {
    let mut it = reversed_sorted_iter(a, b, |x: &(u32, char)| x.0, size);
    let mut out = Vec::new();
    while let Some(x) = it.next() {
        out.push(x);
    }
    assert!(it.next().is_none());
    out
}

#[test]
fn two_inputs_are_merged_from_the_greatest() {
    let a = vec![(9, 'a'), (5, 'a'), (1, 'a')];
    let b = vec![(8, 'b'), (5, 'b'), (2, 'b')];
    assert_eq!(
        drained(a, b, 10),
        vec![(9, 'a'), (8, 'b'), (5, 'a'), (2, 'b'), (1, 'a')]
    );
}

#[test]
fn of_equal_keys_the_first_input_wins() {
    assert_eq!(drained(vec![(3, 'a')], vec![(3, 'b')], 5), vec![(3, 'a')]);
}

#[test]
fn one_empty_input_leaves_the_other() {
    assert_eq!(drained(vec![], vec![(2, 'b'), (1, 'b')], 5), vec![(2, 'b'), (1, 'b')]);
    assert_eq!(drained(vec![(2, 'a')], vec![], 5), vec![(2, 'a')]);
    assert_eq!(drained(vec![], vec![], 5), vec![]);
}

#[test]
fn no_more_than_the_size_is_produced() {
    let a = vec![(9, 'a'), (7, 'a')];
    let b = vec![(8, 'b')];
    assert_eq!(drained(a.clone(), b.clone(), 2), vec![(9, 'a'), (8, 'b')]);
    assert_eq!(drained(a, b, 0), vec![]);
}

#[test]
fn unsorted_inputs_are_walked_in_their_order() {
    let a = vec![(1, 'a'), (9, 'a')];
    let b = vec![(5, 'b')];
    assert_eq!(drained(a, b, 5), vec![(5, 'b'), (1, 'a'), (9, 'a')]);
}

#[test]
fn a_repeated_key_comes_out_once() {
    let mut it = reversed_sorted_iter(vec![3, 3], Vec::<i32>::new(), |x: &i32| *x, 10);
    assert_eq!(it.next(), Some(3));
    assert_eq!(it.next(), None);
    assert_eq!(drained(vec![(3, 'a'), (3, 'x')], vec![], 5), vec![(3, 'a')]);
    assert_eq!(drained(vec![], vec![(3, 'b'), (3, 'y'), (1, 'b')], 5), vec![(3, 'b'), (1, 'b')]);
}

#[test]
fn repeats_are_dropped_from_both_inputs() {
    let a = vec![(5, 'a'), (3, 'a'), (3, 'x'), (1, 'a')];
    let b = vec![(5, 'b'), (5, 'y'), (4, 'b'), (4, 'y'), (3, 'b')];
    assert_eq!(drained(a, b, 9), vec![(5, 'a'), (4, 'b'), (3, 'a'), (1, 'a')]);
}

#[test]
fn dropped_repeats_use_up_none_of_the_size() {
    let a = vec![(3, 'a'), (3, 'x'), (3, 'y'), (1, 'a')];
    assert_eq!(drained(a, vec![(3, 'b')], 2), vec![(3, 'a'), (1, 'a')]);
}

#[test]
fn unsorted_inputs_lose_only_repeats() {
    let a = vec![(1, 'a'), (4, 'a'), (4, 'x'), (2, 'a'), (4, 'y')];
    let b = vec![(3, 'b'), (1, 'b'), (9, 'b'), (2, 'b'), (2, 'y'), (1, 'z')];
    let out = drained(a, b, 11);
    assert_eq!(
        out,
        vec![
            (3, 'b'),
            (1, 'a'),
            (9, 'b'),
            (4, 'a'),
            (2, 'a'),
            (4, 'y'),
            (1, 'z'),
        ]
    );
}

#[test]
fn elements_without_an_order_of_their_own_are_merged_by_any_key() {
    let key = |x: &&str| x.len();
    let mut it = reversed_sorted_iter(vec!["long", "by"], vec!["mid", "no", "a"], key, 9);
    let mut out = Vec::new();
    while let Some(x) = it.next() {
        out.push(x);
    }
    assert_eq!(out, vec!["long", "mid", "by", "a"]);
}
