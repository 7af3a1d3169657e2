use filecache::Cache;
use filecache::CacheError;
use filecache::Cached;
use filecache::Disk;
use filecache::Records;

#[test]
fn absent_file_yields_default_without_error() {
    let mut d = Disk::new();
    let mut h = Cached::<Records>::new(String::from("accounts.txt"), &mut d)
        .expect("construction over an absent file must succeed");
    let v = h.get(&mut d).expect("get over an absent file must succeed");
    assert_eq!(v.len(), 0);
    assert_eq!(d.reads(), 0);
}

#[test]
fn garbage_file_rejected_at_construction() {
    let mut d = Disk::new();
    d.write(vec![1, 2, 3]).expect("write must succeed");
    let r = Cached::<Records>::new(String::from("accounts.txt"), &mut d);
    match r {
        Ok(_) => panic!("construction over garbage must fail"),
        Err(e) => assert_eq!(e, CacheError::Decode),
    }
}

#[test]
fn save_then_fresh_handle_round_trips() {
    let mut d = Disk::new();
    let mut h1 = Cached::new_with(
        || {
            let mut r = Records::default();
            r.insert(b"balance".to_vec(), 125);
            r
        },
        String::from("accounts.txt"),
        &mut d,
    )
    .expect("construction over an absent file must succeed");
    h1.save(&mut d).expect("persisting must succeed");
    let mut h2 = Cached::<Records>::new(String::from("accounts.txt"), &mut d)
        .expect("construction over a valid file must succeed");
    let v = h2.get(&mut d).expect("get must succeed");
    assert_eq!(v.lookup(b"balance"), Some(125));
    assert_eq!(v.len(), 1);
}

#[test]
fn second_handle_sees_mutation() {
    let mut d = Disk::new();
    let mut h1 = Cached::<Records>::new(String::from("accounts.txt"), &mut d)
        .expect("construction must succeed");
    h1.do_mut(|t| t.insert(b"test".to_vec(), -40), &mut d)
        .expect("mutate-and-persist must succeed");
    let mut h2 = Cached::<Records>::new(String::from("accounts.txt"), &mut d)
        .expect("construction must succeed");
    let v = h2.get(&mut d).expect("get must succeed");
    assert_eq!(v.lookup(b"test"), Some(-40));
}

#[test]
fn external_change_is_picked_up_by_get() {
    let mut d = Disk::new();
    let mut h = Cached::<Records>::new(String::from("accounts.txt"), &mut d)
        .expect("construction must succeed");
    assert_eq!(h.get(&mut d).expect("get must succeed").len(), 0);
    let mut other = Records::default();
    other.insert(b"late".to_vec(), 9);
    d.write(other.save()).expect("external write must succeed");
    let v = h.get(&mut d).expect("get must succeed");
    assert_eq!(v.lookup(b"late"), Some(9));
    assert_eq!(v.len(), 1);
}

#[test]
fn unchanged_timestamp_is_not_reread() {
    let mut d = Disk::new();
    let mut seeded = Records::default();
    seeded.insert(b"seed".to_vec(), 1);
    d.write(seeded.save()).expect("external write must succeed");
    let mut h = Cached::<Records>::new(String::from("accounts.txt"), &mut d)
        .expect("construction must succeed");
    assert_eq!(d.reads(), 1);
    h.get(&mut d).expect("get must succeed");
    h.get(&mut d).expect("get must succeed");
    assert_eq!(d.reads(), 1);
    d.write(seeded.save()).expect("external write must succeed");
    h.get(&mut d).expect("get must succeed");
    assert_eq!(d.reads(), 2);
}

#[test]
fn just_saved_file_is_not_reread() {
    let mut d = Disk::new();
    let mut h = Cached::<Records>::new(String::from("accounts.txt"), &mut d)
        .expect("construction must succeed");
    h.do_mut(|t| t.insert(b"x".to_vec(), 3), &mut d)
        .expect("mutate-and-persist must succeed");
    let v = h.get(&mut d).expect("get must succeed");
    assert_eq!(v.lookup(b"x"), Some(3));
    assert_eq!(d.reads(), 0);
}

#[test]
fn accounts_scenario() {
    let mut d = Disk::new();
    let mut h = Cached::<Records>::new(String::from("accounts.txt"), &mut d)
        .expect("construction must succeed");
    h.do_mut(|t| t.insert(b"test".to_vec(), -40), &mut d)
        .expect("mutate-and-persist must succeed");
    let v = h.get(&mut d).expect("get must succeed");
    assert_eq!(v.lookup(b"test"), Some(-40));
    assert_eq!(v.len(), 1);
    let mut fresh = Cached::<Records>::new(String::from("accounts.txt"), &mut d)
        .expect("construction must succeed");
    let w = fresh.get(&mut d).expect("get must succeed");
    assert_eq!(w.lookup(b"test"), Some(-40));
    assert_eq!(w.len(), 1);
}

#[test]
fn metadata_fault_reports_io_error() {
    let mut d = Disk::new();
    let mut h = Cached::<Records>::new(String::from("accounts.txt"), &mut d)
        .expect("construction must succeed");
    d.set_stat_fault(true);
    match h.get(&mut d) {
        Ok(_) => panic!("get must fail on a metadata fault"),
        Err(e) => assert_eq!(e, CacheError::Io),
    }
    match Cached::<Records>::new(String::from("accounts.txt"), &mut d) {
        Ok(_) => panic!("construction must fail on a metadata fault"),
        Err(e) => assert_eq!(e, CacheError::Io),
    }
    d.set_stat_fault(false);
    assert!(h.get(&mut d).is_ok());
}

#[test]
fn read_fault_reports_io_error() {
    let mut d = Disk::new();
    let mut seeded = Records::default();
    seeded.insert(b"seed".to_vec(), 1);
    d.write(seeded.save()).expect("external write must succeed");
    d.set_read_fault(true);
    match Cached::<Records>::new(String::from("accounts.txt"), &mut d) {
        Ok(_) => panic!("construction must fail on a read fault"),
        Err(e) => assert_eq!(e, CacheError::Io),
    }
}

#[test]
fn failed_persist_leaves_memory_ahead_of_disk() {
    let mut d = Disk::new();
    let mut h = Cached::<Records>::new(String::from("accounts.txt"), &mut d)
        .expect("construction must succeed");
    d.set_write_fault(true);
    match h.do_mut(|t| t.insert(b"test".to_vec(), -40), &mut d) {
        Ok(_) => panic!("mutate-and-persist must fail on a write fault"),
        Err(e) => assert_eq!(e, CacheError::Io),
    }
    let v = h.get(&mut d).expect("get must still succeed");
    assert_eq!(v.lookup(b"test"), Some(-40));
    d.set_write_fault(false);
    h.save(&mut d).expect("retried persist must succeed");
    let mut fresh = Cached::<Records>::new(String::from("accounts.txt"), &mut d)
        .expect("construction must succeed");
    let w = fresh.get(&mut d).expect("get must succeed");
    assert_eq!(w.lookup(b"test"), Some(-40));
}

#[test]
fn into_inner_skips_the_final_persist() {
    let mut d = Disk::new();
    let mut h = Cached::new_with(
        || {
            let mut r = Records::default();
            r.insert(b"kept".to_vec(), 2);
            r
        },
        String::from("accounts.txt"),
        &mut d,
    )
    .expect("construction must succeed");
    assert_eq!(h.path().as_str(), "accounts.txt");
    let v = h.into_inner();
    assert_eq!(v.lookup(b"kept"), Some(2));
    match Cached::<Records>::new(String::from("accounts.txt"), &mut d) {
        Ok(mut fresh) => {
            let w = fresh.get(&mut d).expect("get must succeed");
            assert_eq!(w.len(), 0);
        },
        Err(_) => panic!("construction over an absent file must succeed"),
    }
}
