use path_tracer::hittable::{FlipFace, HitRecord};
use path_tracer::hittable_list::HittableList;
use path_tracer::utils::random_int;

fn record(surface: u32, t: i32) -> HitRecord<u32> {
    HitRecord { surface, t, front_face: true }
}

fn surface_and_t(r: Option<HitRecord<u32>>) -> Option<(u32, i32)> {
    r.map(|h| (h.surface, h.t))
}

#[test]
fn flipped_turns_the_face_only() {
    let h = HitRecord { surface: 9u32, t: 17, front_face: true };
    let f = h.flipped();
    assert_eq!(f.surface, 9);
    assert_eq!(f.t, 17);
    assert!(!f.front_face);
    let g = f.flipped();
    assert!(g.front_face);
}

#[test]
fn flip_face_turns_the_answer_of_its_object() {
    let flip = FlipFace { object: 4 };
    assert!(flip.hit::<u32>(None).is_none());
    let h = flip.hit(Some(HitRecord { surface: 40u32, t: 7, front_face: false })).unwrap();
    assert_eq!((h.surface, h.t, h.front_face), (40, 7, true));
    let h = flip.hit(Some(record(1, 5))).unwrap();
    assert_eq!((h.surface, h.t, h.front_face), (1, 5, false));
}

#[test]
fn new_list_is_empty_and_add_appends() {
    let mut list = HittableList::new();
    assert!(list.objects.is_empty());
    list.add(3);
    list.add(1);
    list.add(3);
    assert_eq!(list.objects, vec![3, 1, 3]);
}

#[test]
fn nearest_of_nothing_is_nothing() {
    assert!(HittableList::nearest::<u32>(Vec::new(), 100).is_none());
    assert!(HittableList::nearest::<u32>(vec![None, None], 100).is_none());
}

#[test]
fn nearest_takes_the_least_parameter() {
    let answers = vec![Some(record(0, 50)), None, Some(record(2, 20)), Some(record(3, 30))];
    assert_eq!(surface_and_t(HittableList::nearest(answers, 100)), Some((2, 20)));
}

#[test]
fn nearest_takes_the_first_of_equals() {
    let answers = vec![Some(record(0, 50)), Some(record(1, 20)), Some(record(2, 20))];
    assert_eq!(surface_and_t(HittableList::nearest(answers, 100)), Some((1, 20)));
}

#[test]
fn nearest_leaves_out_what_lies_at_or_beyond_the_bound() {
    let answers = vec![Some(record(0, 100)), Some(record(1, 150))];
    assert!(HittableList::nearest(answers, 100).is_none());
    let answers = vec![Some(record(0, 100)), Some(record(1, 99))];
    assert_eq!(surface_and_t(HittableList::nearest(answers, 100)), Some((1, 99)));
}

#[test]
fn list_hit_asks_every_object_with_the_same_interval() {
    let asked = std::cell::RefCell::new(Vec::new());
    let probe = |object: usize, t_min: i32, t_max: i32| {
        asked.borrow_mut().push((object, t_min, t_max));
        match object {
            10 => Some(record(10, 40)),
            11 => Some(record(11, 25)),
            12 => None,
            _ => Some(record(13, 30)),
        }
    };
    let mut list = HittableList::new();
    for o in [10, 11, 12, 13] {
        list.add(o);
    }
    let h = list.hit(&probe, 1, 90);
    assert_eq!(surface_and_t(h), Some((11, 25)));
    assert_eq!(asked.into_inner(), vec![(10, 1, 90), (11, 1, 90), (12, 1, 90), (13, 1, 90)]);
}

#[test]
fn empty_list_hits_nothing() {
    let probe = |_object: usize, _t_min: i32, _t_max: i32| Some(record(0, 1));
    assert!(HittableList::new().hit(&probe, 0, 100).is_none());
}

#[test]
fn random_picks_a_position_of_the_list() {
    let mut list = HittableList::new();
    for o in [5, 6, 7] {
        list.add(o);
    }
    let mut seen = [false; 3];
    for _ in 0..600 {
        let i = list.random();
        assert!(i < 3);
        seen[i] = true;
    }
    assert_eq!(seen, [true, true, true]);
}

#[test]
fn random_int_stays_within_its_bounds() {
    for _ in 0..500 {
        let r = random_int(3, 6);
        assert!(3 <= r && r <= 6);
    }
    assert_eq!(random_int(5, 5), 5);
    assert_eq!(random_int(0, 0), 0);
}

#[test]
fn random_int_reaches_both_bounds() {
    let mut low = false;
    let mut high = false;
    for _ in 0..400 {
        match random_int(0, 1) {
            0 => low = true,
            _ => high = true,
        }
    }
    assert!(low && high);
}
