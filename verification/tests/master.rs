use gfs_lite::endpoint::Endpoint;
use gfs_lite::master::GfsMaster;
use gfs_lite::registry::NoCapacity;

fn node_a() -> Endpoint {
    Endpoint::V4 { ip: 0x7f00_0001, port: 40001 }
}

fn node_b() -> Endpoint {
    Endpoint::V6 { ip: 1, port: 40002, flowinfo: 0, scope_id: 0 }
}

fn node_c() -> Endpoint {
    Endpoint::V4 { ip: 0x0a00_0003, port: 40003 }
}

#[test]
fn register_hands_out_positions() {
    let mut master = GfsMaster::new();
    assert_eq!(master.register(node_a()), 0);
    assert_eq!(master.register(node_b()), 1);
    assert_eq!(master.register(node_c()), 2);
}

#[test]
fn register_same_endpoint_twice_gives_two_identities() {
    let mut master = GfsMaster::new();
    assert_eq!(master.register(node_a()), 0);
    assert_eq!(master.register(node_a()), 1);
    assert_eq!(master.register(node_b()), 2);
    assert_eq!(master.register(node_a()), 3);
    // each identity stands for the endpoint it was given to
    assert!(master.insert(2, "x".to_string()));
    assert_eq!(master.lookup("x"), Ok(node_b()));
    assert!(master.insert(3, "x".to_string()));
    assert_eq!(master.lookup("x"), Ok(node_a()));
}

#[test]
fn register_many_returns_running_count() {
    let mut master = GfsMaster::new();
    for i in 0..500u64 {
        let port: u16 = (i % 60000) as u16;
        assert_eq!(master.register(Endpoint::V4 { ip: 1, port }), i);
    }
}

#[test]
fn lookup_on_empty_cluster_fails() {
    let master = GfsMaster::new();
    assert_eq!(master.lookup("f"), Err(NoCapacity));
    assert_eq!(master.lookup(""), Err(NoCapacity));
}

#[test]
fn default_master_is_empty() {
    let mut master = GfsMaster::default();
    assert_eq!(master.lookup("f"), Err(NoCapacity));
    assert!(!master.insert(0, "f".to_string()));
    assert_eq!(master.register(node_a()), 0);
}

#[test]
fn lookup_of_unmapped_name_gives_a_registered_node() {
    let mut master = GfsMaster::new();
    master.register(node_a());
    master.register(node_b());
    master.register(node_c());
    for _ in 0..200 {
        let answer = master.lookup("unmapped").unwrap();
        assert!(answer == node_a() || answer == node_b() || answer == node_c());
    }
}

#[test]
fn lookup_with_one_node_gives_that_node() {
    let mut master = GfsMaster::new();
    master.register(node_b());
    for _ in 0..20 {
        assert_eq!(master.lookup("anything"), Ok(node_b()));
    }
}

#[test]
fn lookup_of_unmapped_name_spreads_over_the_nodes() {
    let mut master = GfsMaster::new();
    master.register(node_a());
    master.register(node_b());
    let mut seen_a = false;
    let mut seen_b = false;
    for _ in 0..400 {
        let answer = master.lookup("unmapped").unwrap();
        if answer == node_a() {
            seen_a = true;
        }
        if answer == node_b() {
            seen_b = true;
        }
    }
    assert!(seen_a && seen_b);
}

#[test]
fn lookup_does_not_record_its_draw() {
    let mut master = GfsMaster::new();
    master.register(node_a());
    master.register(node_b());
    let _ = master.lookup("f");
    // had the draw been recorded, the removal would find it
    assert!(!master.remove("f"));
    assert_eq!(master.resolve("f", None), Err(NoCapacity));
}

#[test]
fn insert_makes_lookup_sticky() {
    let mut master = GfsMaster::new();
    master.register(node_a());
    master.register(node_b());
    assert!(master.insert(1, "f".to_string()));
    for _ in 0..100 {
        assert_eq!(master.lookup("f"), Ok(node_b()));
    }
}

#[test]
fn placement_survives_unrelated_updates() {
    let mut master = GfsMaster::new();
    master.register(node_a());
    master.register(node_b());
    assert!(master.insert(0, "f".to_string()));
    master.register(node_c());
    assert!(master.insert(2, "g".to_string()));
    assert!(master.insert(1, "h".to_string()));
    assert!(master.remove("g"));
    assert!(!master.remove("never written"));
    for _ in 0..50 {
        assert_eq!(master.lookup("f"), Ok(node_a()));
    }
    assert_eq!(master.lookup("h"), Ok(node_b()));
}

#[test]
fn newer_insert_overwrites_placement() {
    let mut master = GfsMaster::new();
    master.register(node_a());
    master.register(node_b());
    assert!(master.insert(0, "f".to_string()));
    assert_eq!(master.lookup("f"), Ok(node_a()));
    assert!(master.insert(1, "f".to_string()));
    assert_eq!(master.lookup("f"), Ok(node_b()));
}

#[test]
fn insert_with_unknown_identity_changes_nothing() {
    let mut master = GfsMaster::new();
    assert!(!master.insert(0, "f".to_string()));
    master.register(node_a());
    master.register(node_b());
    assert!(!master.insert(2, "f".to_string()));
    assert!(!master.insert(u64::MAX, "f".to_string()));
    assert!(!master.insert(1 << 32, "f".to_string()));
    assert_eq!(master.resolve("f", None), Err(NoCapacity));
    assert!(master.insert(1, "f".to_string()));
    assert!(!master.insert(7, "f".to_string()));
    assert_eq!(master.lookup("f"), Ok(node_b()));
}

#[test]
fn remove_clears_placement() {
    let mut master = GfsMaster::new();
    master.register(node_a());
    master.register(node_b());
    assert!(master.insert(0, "f".to_string()));
    assert!(master.remove("f"));
    // no holder is left: the answer is the draw
    assert_eq!(master.resolve("f", Some(node_b())), Ok(node_b()));
    assert_eq!(master.resolve("f", Some(node_a())), Ok(node_a()));
    assert_eq!(master.resolve("f", None), Err(NoCapacity));
    let mut seen_b = false;
    for _ in 0..400 {
        let answer = master.lookup("f").unwrap();
        assert!(answer == node_a() || answer == node_b());
        if answer == node_b() {
            seen_b = true;
        }
    }
    assert!(seen_b);
}

#[test]
fn remove_of_absent_name_is_a_no_op() {
    let mut master = GfsMaster::new();
    assert!(!master.remove("f"));
    master.register(node_a());
    assert!(master.insert(0, "g".to_string()));
    assert!(!master.remove("f"));
    assert_eq!(master.lookup("g"), Ok(node_a()));
    assert!(master.remove("g"));
    assert!(!master.remove("g"));
}

#[test]
fn resolve_prefers_the_recorded_holder() {
    let mut master = GfsMaster::new();
    master.register(node_a());
    master.register(node_b());
    assert!(master.insert(0, "f".to_string()));
    assert_eq!(master.resolve("f", Some(node_b())), Ok(node_a()));
    assert_eq!(master.resolve("f", None), Ok(node_a()));
    assert_eq!(master.resolve("g", Some(node_b())), Ok(node_b()));
    assert_eq!(master.resolve("g", None), Err(NoCapacity));
}

#[test]
fn names_are_told_apart_exactly() {
    let mut master = GfsMaster::new();
    master.register(node_a());
    assert!(master.insert(0, "file".to_string()));
    assert_eq!(master.resolve("file", None), Ok(node_a()));
    assert_eq!(master.resolve("File", None), Err(NoCapacity));
    assert_eq!(master.resolve("file ", None), Err(NoCapacity));
    assert_eq!(master.resolve("", None), Err(NoCapacity));
    assert!(master.insert(0, "".to_string()));
    assert_eq!(master.resolve("", None), Ok(node_a()));
}
