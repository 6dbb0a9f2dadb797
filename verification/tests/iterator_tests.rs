use rust_book::iterators::shoes_in_my_size;
use rust_book::iterators::update_vector;
use rust_book::iterators::Counter;
use rust_book::iterators::Name;
use rust_book::iterators::Shoe;

#[test]
fn filters_by_size() {
    let shoes = vec![
        Shoe {
            size: 10,
            style: String::from("sneaker"),
        },
        Shoe {
            size: 13,
            style: String::from("sandal"),
        },
        Shoe {
            size: 10,
            style: String::from("boot"),
        },
    ];

    let in_my_size = shoes_in_my_size(shoes, 10);

    assert_eq!(
        in_my_size,
        vec![
            Shoe {
                size: 10,
                style: String::from("sneaker")
            },
            Shoe {
                size: 10,
                style: String::from("boot")
            },
        ]
    );
}

#[test]
fn using_other_iterator_trait_methods() {
    let mut first = Counter::new();
    let mut second = Counter::new();
    // the second counter starts one step ahead
    let _ = second.next();

    let mut sum: u32 = 0;
    loop {
        let a = first.next();
        let b = second.next();
        match (a, b) {
            (Some(x), Some(y)) => {
                let product = x * y;
                if product % 3 == 0 {
                    sum += product;
                }
            }
            _ => break,
        }
    }

    assert_eq!(18, sum);
}

#[test]
fn calling_next_directly() {
    let mut counter = Counter::new();

    assert_eq!(counter.next(), Some(1));
    assert_eq!(counter.next(), Some(2));
    assert_eq!(counter.next(), Some(3));
    assert_eq!(counter.next(), Some(4));
    assert_eq!(counter.next(), Some(5));
    assert_eq!(counter.next(), None);
}

#[test]
fn iterator_sum() {
    let v1 = vec![1, 2, 3];

    let total: i32 = v1.iter().sum();

    assert_eq!(total, 6);
}

#[test]
fn iterator_demo() {
    let v1 = vec![1, 2, 3];

    let mut v1_iter = v1.iter();

    assert_eq!(v1_iter.next(), Some(&1));
    assert_eq!(v1_iter.next(), Some(&2));
    assert_eq!(v1_iter.next(), Some(&3));
    assert_eq!(v1_iter.next(), None);
}

#[test]
fn counter_stays_stopped() {
    let mut counter = Counter::new();
    for _ in 0..7 {
        let _ = counter.next();
    }
    assert_eq!(counter.next(), None);
}

#[test]
fn no_shoes_fit_an_unstocked_size() {
    let shoes = vec![Shoe {
        size: 9,
        style: String::from("loafer"),
    }];
    let empty: Vec<Shoe> = Vec::new();
    assert_eq!(empty, shoes_in_my_size(shoes, 10));
}

#[test]
fn update_vector_replaces_only_case() {
    let names = vec![
        Name { owner: "Case" },
        Name { owner: "E" },
        Name { owner: "Dave" },
        Name { owner: "Case" },
    ];
    let updated = update_vector("Replaced", names);
    let owners: Vec<&str> = updated.iter().map(|n| n.owner).collect();
    assert_eq!(vec!["Replaced", "E", "Dave", "Replaced"], owners);
}
