use naive_vec::NaiveVec;
use std::cell::Cell;
use std::rc::Rc;

#[test]
fn zero_sized_type_vector_push_pop_works_correctly() {
    let mut v: NaiveVec<()> = NaiveVec::new();
    v.push(());
    v.push(());
    v.push(());
    v.push(());
    let elem = v.pop();
    assert_eq!(elem, Some(()));
    assert_eq!(v.len(), 3);
}

#[test]
fn iter_vec_works_correctly() {
    let mut v: NaiveVec<()> = NaiveVec::new();
    v.push(());
    v.push(());
    v.push(());
    v.push(());

    assert_eq!(v.get(0).map(|x| (0 as usize, x)), Some((0 as usize, &())));
    assert_eq!(v.get(1).map(|x| (1 as usize, x)), Some((1 as usize, &())));
    assert_eq!(v.get(2).map(|x| (2 as usize, x)), Some((2 as usize, &())));
    assert_eq!(v.get(3).map(|x| (3 as usize, x)), Some((3 as usize, &())));
    assert_eq!(v.get(4), None);
}

#[test]
fn insert_works_correctly() {
    let mut v: NaiveVec<i64> = NaiveVec::new();
    v.push(1);
    v.push(2);
    v.push(3);
    v.push(4);
    v.insert(2, 8);
    assert_eq!(*v.index(2), 8);
    assert_eq!(v.len(), 5);
}

#[test]
fn remove_works_correctly() {
    let mut v: NaiveVec<i64> = NaiveVec::new();
    v.push(1);
    v.push(2);
    v.push(3);
    v.push(4);
    let elem = v.remove(1);
    assert_eq!(elem, 2);
    assert_eq!(v.len(), 3);
}

fn contents(v: &NaiveVec<i64>) -> Vec<i64> {
    let mut out = Vec::new();
    let mut i = 0;
    while let Some(x) = v.get(i) {
        out.push(*x);
        i += 1;
    }
    out
}

#[test]
fn pushes_read_back_in_order() {
    let mut v: NaiveVec<i64> = NaiveVec::new();
    for k in 0..10 {
        v.push(k * 3);
        assert_eq!(v.len(), (k + 1) as usize);
    }
    for i in 0..10 {
        assert_eq!(*v.index(i), (i as i64) * 3);
    }
}

#[test]
fn new_container_is_empty() {
    let v: NaiveVec<i64> = NaiveVec::new();
    assert_eq!(v.len(), 0);
    assert!(v.is_empty());
    assert_eq!(v.cap(), 0);
    assert_eq!(v.get(0), None);
}

#[test]
fn pop_on_empty_gives_none() {
    let mut v: NaiveVec<i64> = NaiveVec::new();
    assert_eq!(v.pop(), None);
    assert_eq!(v.len(), 0);
    v.push(5);
    assert_eq!(v.pop(), Some(5));
    assert_eq!(v.pop(), None);
}

#[test]
fn push_then_pop_restores_length() {
    let mut v: NaiveVec<i64> = NaiveVec::new();
    v.push(10);
    v.push(20);
    let before = v.len();
    v.push(99);
    assert_eq!(v.pop(), Some(99));
    assert_eq!(v.len(), before);
    assert_eq!(contents(&v), vec![10, 20]);
}

#[test]
fn insert_at_every_position() {
    for i in 0..=4usize {
        let mut v: NaiveVec<i64> = NaiveVec::new();
        for k in 1..=4 {
            v.push(k);
        }
        v.insert(i, 100);
        assert_eq!(*v.index(i), 100);
        assert_eq!(v.len(), 5);
        let mut expected = vec![1, 2, 3, 4];
        expected.insert(i, 100);
        assert_eq!(contents(&v), expected);
    }
}

#[test]
fn insert_into_empty_and_full() {
    let mut v: NaiveVec<i64> = NaiveVec::new();
    v.insert(0, 7);
    assert_eq!(contents(&v), vec![7]);
    assert_eq!(v.cap(), 1);
    v.insert(0, 6);
    assert_eq!(contents(&v), vec![6, 7]);
    assert_eq!(v.cap(), 2);
    v.insert(2, 8);
    assert_eq!(contents(&v), vec![6, 7, 8]);
    assert_eq!(v.cap(), 4);
}

#[test]
fn remove_shifts_left_in_order() {
    let mut v: NaiveVec<i64> = NaiveVec::new();
    for k in 1..=6 {
        v.push(k);
    }
    assert_eq!(v.remove(0), 1);
    assert_eq!(contents(&v), vec![2, 3, 4, 5, 6]);
    assert_eq!(v.remove(2), 4);
    assert_eq!(contents(&v), vec![2, 3, 5, 6]);
    assert_eq!(v.remove(3), 6);
    assert_eq!(contents(&v), vec![2, 3, 5]);
    assert_eq!(v.len(), 3);
}

#[test]
fn replace_swaps_one_element() {
    let mut v: NaiveVec<i64> = NaiveVec::new();
    v.push(1);
    v.push(2);
    assert_eq!(v.replace(1, 9), 2);
    assert_eq!(contents(&v), vec![1, 9]);
}

#[test]
fn capacity_doubles() {
    let mut v: NaiveVec<i64> = NaiveVec::new();
    let mut caps = Vec::new();
    for k in 0..9 {
        v.push(k);
        caps.push(v.cap());
    }
    assert_eq!(caps, vec![1, 2, 4, 4, 8, 8, 8, 8, 16]);
}

#[test]
fn growth_matches_std_vec() {
    let mut v: NaiveVec<i64> = NaiveVec::new();
    let mut reference: Vec<i64> = Vec::new();
    for k in 0..1000i64 {
        v.push(k * 7 - 3);
        reference.push(k * 7 - 3);
    }
    assert_eq!(v.len(), reference.len());
    assert_eq!(contents(&v), reference);
    assert_eq!(v.cap(), 1024);
}

#[test]
fn zero_sized_push_pop_many() {
    let mut v: NaiveVec<()> = NaiveVec::new();
    assert_eq!(v.cap(), usize::MAX);
    for _ in 0..1000 {
        v.push(());
    }
    assert_eq!(v.len(), 1000);
    assert_eq!(v.cap(), usize::MAX);
    for _ in 0..1000 {
        assert_eq!(v.pop(), Some(()));
    }
    assert_eq!(v.pop(), None);
    assert_eq!(v.cap(), usize::MAX);
}

#[test]
fn zero_sized_insert_remove() {
    let mut v: NaiveVec<()> = NaiveVec::new();
    v.insert(0, ());
    v.insert(1, ());
    v.insert(0, ());
    assert_eq!(v.len(), 3);
    assert_eq!(v.remove(1), ());
    assert_eq!(v.len(), 2);
}

#[test]
fn drain_yields_all_in_order() {
    let mut v: NaiveVec<i64> = NaiveVec::new();
    for k in 1..=4 {
        v.push(k);
    }
    let cap = v.cap();
    let mut drained = Vec::new();
    {
        let mut d = v.drain();
        assert_eq!(d.size_hint(), (4, Some(4)));
        while let Some(x) = d.next() {
            drained.push(x);
        }
        assert_eq!(d.size_hint(), (0, Some(0)));
        assert_eq!(d.next(), None);
    }
    assert_eq!(drained, vec![1, 2, 3, 4]);
    assert_eq!(v.len(), 0);
    assert_eq!(v.cap(), cap);
    v.push(5);
    assert_eq!(contents(&v), vec![5]);
    assert_eq!(v.cap(), cap);
}

#[test]
fn into_iter_yields_all_in_order() {
    let mut v: NaiveVec<i64> = NaiveVec::new();
    for k in 1..=3 {
        v.push(k);
    }
    let mut it = v.into_iter();
    assert_eq!(it.size_hint(), (3, Some(3)));
    assert_eq!(it.next(), Some(1));
    assert_eq!(it.next(), Some(2));
    assert_eq!(it.size_hint(), (1, Some(1)));
    assert_eq!(it.next(), Some(3));
    assert_eq!(it.next(), None);
}

struct DropCounter {
    drops: Rc<Cell<usize>>,
}

impl Drop for DropCounter {
    fn drop(&mut self) {
        self.drops.set(self.drops.get() + 1);
    }
}

#[test]
fn dropping_destroys_each_live_element_once() {
    let drops = Rc::new(Cell::new(0));
    {
        let mut v: NaiveVec<DropCounter> = NaiveVec::new();
        for _ in 0..5 {
            v.push(DropCounter { drops: drops.clone() });
        }
        let popped = v.pop();
        assert_eq!(drops.get(), 0);
        drop(popped);
        assert_eq!(drops.get(), 1);
        let removed = v.remove(1);
        drop(removed);
        assert_eq!(drops.get(), 2);
    }
    assert_eq!(drops.get(), 5);
}

#[test]
fn dropping_a_partial_drain_destroys_the_rest() {
    let drops = Rc::new(Cell::new(0));
    let mut v: NaiveVec<DropCounter> = NaiveVec::new();
    for _ in 0..4 {
        v.push(DropCounter { drops: drops.clone() });
    }
    {
        let mut d = v.drain();
        drop(d.next());
        assert_eq!(drops.get(), 1);
    }
    assert_eq!(drops.get(), 4);
    assert_eq!(v.len(), 0);
    drop(v);
    assert_eq!(drops.get(), 4);
}
