use d2simrs::util::uid::{UIdGenRandom, UIdGenSequential, UniqueId};

#[test]
fn test_sequential1() {
    let mut gen = UIdGenSequential::default();
    println!("{:?}", gen);
    for i in 0..5 {
        let uid = gen.generate_uid();
        assert_eq!(uid, UniqueId(i));
        println!("{:?}", uid);
    }
    println!("{:?}", gen);
}

#[test]
fn test_sequential2() {
    const INITIAL_UID: usize = 100;
    let mut gen = UIdGenSequential::new(INITIAL_UID);
    println!("{:?}", gen);
    for i in 0..5 {
        let uid = gen.generate_uid();
        assert_eq!(uid, UniqueId(i + INITIAL_UID));
        println!("{:?}", uid);
    }
    println!("{:?}", gen);
}

#[test]
fn test_random() {
    const MAX_UID: usize = 100;
    let mut gen = UIdGenRandom::new(MAX_UID);
    println!("{:?}", gen);
    for _ in 0..5 {
        let uid = gen.generate_uid();
        println!("{:?}", uid);
    }
    println!("{:?}", gen);
}

#[test]
fn random_uids_are_distinct_and_below_the_bound() {
    const MAX_UID: usize = 40;
    let mut gen = UIdGenRandom::new(MAX_UID);
    let mut seen = Vec::new();
    for _ in 0..MAX_UID {
        assert!(gen.has_unused());
        let uid = gen.generate_uid();
        assert!(uid.0 < MAX_UID);
        assert!(!seen.contains(&uid));
        seen.push(uid);
    }
    assert!(!gen.has_unused());
}

#[test]
fn pick_unused_goes_round() {
    let mut gen = UIdGenRandom::new(3);
    assert_eq!(gen.pick_unused(2), 2);
    let a = gen.generate_uid();
    let b = gen.generate_uid();
    let free = (0..3).find(|x| *x != a.0 && *x != b.0).unwrap();
    for start in 0..3 {
        assert_eq!(gen.pick_unused(start), free);
    }
}
