use dogchick::fixed::Vec2;
use dogchick::scenery::{
    is_clear, plant, random_grove, random_place, GROVE_BOTTOM, GROVE_HEIGHT, GROVE_LEFT,
    GROVE_WIDTH, TREE_SPACING, TREE_TRIES,
};

#[test]
fn place_is_clear_when_no_tree_is_near() {
    let trees = vec![Vec2 { x: 0, y: 0 }, Vec2 { x: 100_000, y: 0 }];
    assert!(is_clear(&vec![], Vec2 { x: 0, y: 0 }));
    assert!(!is_clear(&trees, Vec2 { x: 0, y: 0 }));
    assert!(!is_clear(&trees, Vec2 { x: 19_999, y: 0 }));
    assert!(is_clear(&trees, Vec2 { x: 20_000, y: 0 }));
    assert!(!is_clear(&trees, Vec2 { x: 100_000, y: -19_999 }));
    assert!(is_clear(&trees, Vec2 { x: 50_000, y: 0 }));
    assert_eq!(TREE_SPACING, 20_000);
}

#[test]
fn trees_are_planted_where_there_is_room() {
    let places = vec![
        Vec2 { x: 0, y: 0 },
        Vec2 { x: 10_000, y: 0 },
        Vec2 { x: 25_000, y: 0 },
        Vec2 { x: 0, y: 19_000 },
        Vec2 { x: 0, y: 20_000 },
        Vec2 { x: 0, y: 0 },
    ];
    assert_eq!(
        plant(&places),
        vec![Vec2 { x: 0, y: 0 }, Vec2 { x: 25_000, y: 0 }, Vec2 { x: 0, y: 20_000 }]
    );
    assert_eq!(plant(&vec![]), vec![]);
}

#[test]
fn place_that_lost_to_an_earlier_one_does_not_block_later_ones() {
    let places = vec![Vec2 { x: 0, y: 0 }, Vec2 { x: 15_000, y: 0 }, Vec2 { x: 30_000, y: 0 }];
    assert_eq!(plant(&places), vec![Vec2 { x: 0, y: 0 }, Vec2 { x: 30_000, y: 0 }]);
}

#[test]
fn random_places_lie_in_the_grove() {
    let mut round = 0;
    while round < 500 {
        let p = random_place();
        assert!(p.x >= GROVE_LEFT && p.x < GROVE_LEFT + GROVE_WIDTH as i32);
        assert!(p.y >= GROVE_BOTTOM && p.y < GROVE_BOTTOM + GROVE_HEIGHT as i32);
        round += 1;
    }
    assert_eq!((GROVE_LEFT, GROVE_BOTTOM), (-750_000, 200_000));
    assert_eq!((GROVE_WIDTH, GROVE_HEIGHT), (1_500_000, 350_000));
}

#[test]
fn trees_of_a_random_grove_stand_apart() {
    let trees = random_grove(TREE_TRIES);
    assert_eq!(TREE_TRIES, 300);
    assert!(trees.len() <= 300);
    assert!(trees.len() > 100);
    for (k, a) in trees.iter().enumerate() {
        assert!(a.x >= GROVE_LEFT && a.x < GROVE_LEFT + GROVE_WIDTH as i32);
        assert!(a.y >= GROVE_BOTTOM && a.y < GROVE_BOTTOM + GROVE_HEIGHT as i32);
        for b in trees.iter().skip(k + 1) {
            assert!(!a.is_near(*b, TREE_SPACING));
        }
    }
    assert_eq!(random_grove(0), vec![]);
}
