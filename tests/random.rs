use rustris::piece::PieceType;
use rustris::queue::Queue;
use rustris::random::{Random, RandomBag};

fn sorted(mut v: Vec<PieceType>) -> Vec<PieceType> {
    let order = PieceType::all();
    v.sort_by_key(|t| order.iter().position(|o| o == t).unwrap());
    v
}

#[test]
fn bag_draws_each_type_once_per_seven() {
    let mut bag = RandomBag::new(PieceType::all());
    for _ in 0..5 {
        let window: Vec<PieceType> = (0..7).map(|_| bag.next()).collect();
        assert_eq!(sorted(window), PieceType::all());
    }
}

#[test]
fn bag_of_one_repeats_it() {
    let mut bag = RandomBag::new(vec![PieceType::O]);
    for _ in 0..4 {
        assert_eq!(bag.next(), PieceType::O);
    }
}

struct Counter {
    n: u32,
}

impl Random<u32> for Counter {
    fn inv(&self) -> bool {
        true
    }

    fn draw_step(&self, after: &Self, item: u32) -> bool {
        after.n == self.n + 1 && item == after.n
    }

    fn next(&mut self) -> u32 {
        self.n += 1;
        self.n
    }
}

#[test]
fn queue_hands_out_oldest_and_stays_full() {
    let mut q = Queue::new(3, Counter { n: 0 });
    assert_eq!(q.next_items(), &vec![1, 2, 3]);
    assert_eq!(q.next_items(), &vec![1, 2, 3]);
    assert_eq!(q.next(), 1);
    assert_eq!(q.next_items(), &vec![2, 3, 4]);
    assert_eq!(q.next(), 2);
    assert_eq!(q.next(), 3);
    assert_eq!(q.next_items(), &vec![4, 5, 6]);
}

#[test]
fn queue_next_on_fresh_queue() {
    let mut q = Queue::new(5, Counter { n: 10 });
    assert_eq!(q.next(), 11);
    assert_eq!(q.next_items(), &vec![12, 13, 14, 15, 16]);
}

#[test]
fn bag_order_is_shuffled() {
    let mut bag = RandomBag::new(PieceType::all());
    let mut unshuffled = PieceType::all();
    unshuffled.reverse();
    let mut windows_in_fixed_order = 0;
    for _ in 0..5 {
        let window: Vec<PieceType> = (0..7).map(|_| bag.next()).collect();
        if window == unshuffled {
            windows_in_fixed_order += 1;
        }
    }
    assert!(windows_in_fixed_order < 5);
}
