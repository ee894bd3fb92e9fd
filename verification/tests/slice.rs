use traverse::slice::{foreach, foreach_mut};
use traverse::visitor::{Protocol, Visitor, VisitorMut};
use traverse::visitors::{Collect, Fill};

// Closures as visitors. The functions `state`, `accepts`, `next`, `halts` and
// `writes` of a visitor are ghosts: compiled code never calls them, and a
// visitor that is not verified, as these two, gives them any body.

struct Shared<F>(F);

impl<T, F: FnMut(&T) -> bool> Protocol<T> for Shared<F> {
    type State = ();

    fn state(&self) {}

    fn accepts(_state: (), _item: T) -> bool {
        true
    }

    fn next(_state: (), _item: T) {}

    fn halts(_state: (), _item: T) -> bool {
        false
    }
}

impl<T, F: FnMut(&T) -> bool> Visitor<T> for Shared<F> {
    fn visit(&mut self, item: &T) -> bool {
        (self.0)(item)
    }
}

struct Exclusive<F>(F);

impl<T, F: FnMut(&mut T) -> bool> Protocol<T> for Exclusive<F> {
    type State = ();

    fn state(&self) {}

    fn accepts(_state: (), _item: T) -> bool {
        true
    }

    fn next(_state: (), _item: T) {}

    fn halts(_state: (), _item: T) -> bool {
        false
    }
}

impl<T, F: FnMut(&mut T) -> bool> VisitorMut<T> for Exclusive<F> {
    fn writes(_state: (), item: T) -> T {
        item
    }

    fn visit_mut(&mut self, item: &mut T) -> bool {
        (self.0)(item)
    }
}

fn each<T, F: FnMut(&T) -> bool>(data: &[T], f: F) {
    foreach(data, &mut Shared(f));
}

fn each_mut<T, F: FnMut(&mut T) -> bool>(data: &mut [T], f: F) {
    foreach_mut(data, &mut Exclusive(f));
}

fn map_collect<T, U, F: FnMut(&T) -> U>(data: &[T], mut f: F) -> Vec<U> {
    let mut out = Vec::new();
    each(data, |item| {
        out.push(f(item));
        false
    });
    out
}

#[test]
fn test_basic() {
    let data = [1, 2, 5, 4, 6, 7];
    let traversal: Vec<usize> = map_collect(&data, |&x| x);
    assert_eq!(traversal, data);
}

#[test]
fn test_zero_size() {
    let data = [(), (), ()];
    let traversal: Vec<()> = map_collect(&data, |&x| x);
    assert_eq!(traversal, data);
}

#[test]
fn never_stopping_visitor_sees_every_element_in_order() {
    let data: Vec<usize> = (0..100).map(|i| i * 3 + 1).collect();
    let mut calls = 0;
    let mut seen = Vec::new();
    each(&data, |&x| {
        calls += 1;
        seen.push(x);
        false
    });
    assert_eq!(calls, 100);
    assert_eq!(seen, data);
}

#[test]
fn elements_are_visited_by_ascending_position() {
    let data = [3u8, 1, 2];
    let mut position = 0;
    let mut in_place = Vec::new();
    each(&data, |x| {
        in_place.push(std::ptr::eq(x, &data[position]));
        position += 1;
        false
    });
    assert_eq!(in_place, vec![true, true, true]);
}

#[test]
fn stop_on_kth_call_visits_exactly_k() {
    let data = [10usize, 20, 30, 40, 50];
    for k in 1..=5usize {
        let mut calls = 0;
        let mut seen = Vec::new();
        each(&data, |&x| {
            calls += 1;
            seen.push(x);
            calls == k
        });
        assert_eq!(calls, k);
        assert_eq!(seen, data[..k].to_vec());
    }
}

#[test]
fn stop_on_first_call_visits_one() {
    let data = [7usize, 8, 9];
    let mut seen = Vec::new();
    each(&data, |&x| {
        seen.push(x);
        true
    });
    assert_eq!(seen, vec![7]);
}

#[test]
fn stop_on_last_call_visits_all() {
    let data = [7usize, 8, 9];
    let mut seen = Vec::new();
    each(&data, |&x| {
        seen.push(x);
        x == 9
    });
    assert_eq!(seen, vec![7, 8, 9]);
}

#[test]
fn empty_buffer_never_calls_the_visitor() {
    let mut calls = 0;

    let numbers: [usize; 0] = [];
    each(&numbers, |_| {
        calls += 1;
        false
    });
    let units: [(); 0] = [];
    each(&units, |_| {
        calls += 1;
        true
    });
    let mut numbers: [usize; 0] = [];
    each_mut(&mut numbers, |_| {
        calls += 1;
        false
    });
    let mut units: [(); 0] = [];
    each_mut(&mut units, |_| {
        calls += 1;
        true
    });
    assert_eq!(calls, 0);

    let mut collector = Collect::<usize>::new();
    foreach(&[], &mut collector);
    assert_eq!(collector.into_items(), Vec::<usize>::new());
}

#[test]
fn zero_sized_elements_are_counted() {
    let data = [(), (), ()];
    let mut calls = 0;
    each(&data, |_| {
        calls += 1;
        false
    });
    assert_eq!(calls, 3);

    let mut data = [(), (), ()];
    let mut calls = 0;
    each_mut(&mut data, |_| {
        calls += 1;
        false
    });
    assert_eq!(calls, 3);
}

#[test]
fn zero_sized_elements_stop_early() {
    let data = [(); 1000];
    let mut calls = 0;
    each(&data, |_| {
        calls += 1;
        calls == 4
    });
    assert_eq!(calls, 4);
}

#[test]
fn doubling_in_place() {
    let mut data = [1, 2, 3];
    let mut calls = 0;
    each_mut(&mut data, |x| {
        *x *= 2;
        calls += 1;
        false
    });
    assert_eq!(data, [2, 4, 6]);
    assert_eq!(calls, 3);
}

#[test]
fn doubling_in_place_stops_early() {
    let mut data = [1u32, 2, 3, 4];
    let mut calls = 0;
    each_mut(&mut data, |x| {
        *x *= 2;
        calls += 1;
        calls == 2
    });
    assert_eq!(data, [2, 4, 3, 4]);
    assert_eq!(calls, 2);
}

#[test]
fn exclusive_visitor_sees_each_element_as_it_was() {
    let mut data = [5u32, 6, 7];
    let mut seen = Vec::new();
    each_mut(&mut data, |x| {
        seen.push(*x);
        *x = 0;
        false
    });
    assert_eq!(seen, vec![5, 6, 7]);
    assert_eq!(data, [0, 0, 0]);
}

#[test]
fn copying_into_a_sequence_keeps_the_order() {
    let data = [1, 2, 5, 4, 6, 7];
    let mut seen: Vec<i32> = Vec::new();
    each(&data, |&x| {
        seen.push(x);
        false
    });
    assert_eq!(seen, vec![1, 2, 5, 4, 6, 7]);
}

#[test]
fn copying_until_a_value() {
    let data = [1, 2, 5, 4, 6, 7];
    let mut seen: Vec<i32> = Vec::new();
    each(&data, |&x| {
        if x == 5 {
            true
        } else {
            seen.push(x);
            false
        }
    });
    assert_eq!(seen, vec![1, 2]);
}

#[test]
fn collect_gathers_the_buffer() {
    let data = [1usize, 2, 5, 4, 6, 7];
    let mut collector = Collect::new();
    foreach(&data, &mut collector);
    assert_eq!(collector.into_items(), vec![1, 2, 5, 4, 6, 7]);
}

#[test]
fn collect_gathers_zero_sized_elements() {
    let data = [(), (), ()];
    let mut collector = Collect::new();
    foreach(&data, &mut collector);
    assert_eq!(collector.into_items(), vec![(), (), ()]);
}

#[test]
fn collect_appends_to_what_it_held() {
    let mut collector = Collect::new();
    foreach(&[1usize, 2], &mut collector);
    foreach(&[3usize], &mut collector);
    assert_eq!(collector.into_items(), vec![1, 2, 3]);
}

#[test]
fn collect_new_holds_nothing() {
    assert_eq!(Collect::<u8>::new().into_items(), Vec::<u8>::new());
}

#[test]
fn fill_overwrites_every_element() {
    let mut data = [1u8, 2, 3];
    let mut filler = Fill::new(9u8);
    foreach_mut(&mut data, &mut filler);
    assert_eq!(data, [9, 9, 9]);

    let mut more = [0u8; 2];
    foreach_mut(&mut more, &mut filler);
    assert_eq!(more, [9, 9]);
}

#[test]
fn shared_traversal_leaves_the_buffer() {
    let data = vec![4usize, 5, 6];
    each(&data, |&x| x == 5);
    assert_eq!(data, vec![4, 5, 6]);
}
