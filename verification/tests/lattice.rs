use yapall::lattice::{ConstValue, Int, IntLattice};

fn values() -> Vec<IntLattice> {
    vec![
        IntLattice::bottom(),
        IntLattice::constant(Int { bits: 32, value: 1 }),
        IntLattice::constant(Int { bits: 32, value: 2 }),
        IntLattice::constant(Int { bits: 64, value: 1 }),
        IntLattice::top(),
    ]
}

#[test]
fn join_is_the_least_upper_bound() {
    let v = values();
    let expected = [
        [0, 1, 2, 3, 4],
        [1, 1, 4, 4, 4],
        [2, 4, 2, 4, 4],
        [3, 4, 4, 3, 4],
        [4, 4, 4, 4, 4],
    ];
    for i in 0..5 {
        for j in 0..5 {
            assert_eq!(v[i].join(v[j]), v[expected[i][j]], "{:?} {:?}", v[i], v[j]);
        }
    }
}

#[test]
fn meet_is_the_greatest_lower_bound() {
    let v = values();
    let expected = [
        [0, 0, 0, 0, 0],
        [0, 1, 0, 0, 1],
        [0, 0, 2, 0, 2],
        [0, 0, 0, 3, 3],
        [0, 1, 2, 3, 4],
    ];
    for i in 0..5 {
        for j in 0..5 {
            assert_eq!(v[i].meet(v[j]), v[expected[i][j]], "{:?} {:?}", v[i], v[j]);
        }
    }
}

#[test]
fn arithmetic_is_unknown() {
    let v = values();
    for a in &v {
        for b in &v {
            assert_eq!(a.add(b), IntLattice::top());
            assert_eq!(a.sub(b), IntLattice::top());
            assert_eq!(a.mul(b), IntLattice::top());
            assert_eq!(a.div(b), IntLattice::top());
        }
    }
    assert_eq!(IntLattice::bottom().0, ConstValue::Bottom);
}
