use yapall::klimited::KLimited;

#[test]
fn new_keeps_the_first_elements_up_to_the_limit() {
    let k = KLimited::new(2, vec![1, 2, 3]);
    assert_eq!(k.len(), 2);
    assert_eq!(k.into_iter(), vec![1, 2]);
    assert_eq!(KLimited::new(3, vec![1, 2, 3]).into_iter(), vec![1, 2, 3]);
    assert_eq!(KLimited::new(0, vec![1, 2, 3]).len(), 0);
    assert_eq!(KLimited::<u8>::new(9, vec![]).into_iter(), Vec::<u8>::new());
}

#[test]
fn push_puts_the_newest_first_and_drops_the_oldest() {
    let mut k = KLimited::new(2, vec![]);
    k.push(1);
    k.push(2);
    assert_eq!(k.pushed(9).into_iter(), vec![9, 2]);
    k.push(3);
    assert_eq!(k.len(), 2);
    assert_eq!(k.into_iter(), vec![3, 2]);
}

#[test]
fn limit_zero_holds_nothing() {
    let mut k = KLimited::new(0, vec![]);
    k.push(1);
    k.push(2);
    assert_eq!(k.len(), 0);
    assert_eq!(k.pushed(3).into_iter(), Vec::<i32>::new());
}

#[test]
fn limit_one_holds_the_last() {
    let k = KLimited::new(1, vec![]);
    let k = k.pushed('a').pushed('b');
    assert_eq!(k.into_iter(), vec!['b']);
}

#[test]
fn pushing_onto_a_full_sequence_drops_the_oldest() {
    let mut k = KLimited::new(2, vec![1, 2, 3]);
    k.push(4);
    assert_eq!(k.into_iter(), vec![4, 1]);
}

#[test]
fn pushed_leaves_the_sequence_as_it_was() {
    let k = KLimited::new(3, vec![1]);
    let p = k.pushed(2);
    assert_eq!(p.k, 3);
    assert_eq!(p.into_iter(), vec![2, 1]);
    assert_eq!(k.into_iter(), vec![1]);
}
