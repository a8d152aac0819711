use chungustrator::allocator::ServerAllocator;
use chungustrator::ports::ServerPorts;

#[test]
fn server_ports_are_adjacent() {
    let p = ServerPorts::new(28785);
    assert_eq!(p.all_ports(), [28785, 28786]);
    assert_eq!(p.game_server_port(), 28785);
    assert_eq!(p.server_query_client_port(), 28786);
    assert_eq!(ServerPorts::new(0).all_ports(), [0, 1]);
    assert_eq!(ServerPorts::new(65534).all_ports(), [65534, 65535]);
}

#[test]
fn fresh_allocator_is_empty() {
    let a = ServerAllocator::new(1000);
    assert_eq!(a.allocated_port_count(), 0);
    assert_eq!(a.next_port(), 1000);
    assert!(!a.is_port_active(1000));
    assert!(a.can_allocate());
}

#[test]
fn allocation_hands_out_consecutive_pairs() {
    let mut a = ServerAllocator::new(28785);
    let first = a.allocate_port();
    let second = a.allocate_port();
    assert_eq!(first.all_ports(), [28785, 28786]);
    assert_eq!(second.all_ports(), [28787, 28788]);
    assert_eq!(a.next_port(), 28789);
    assert_eq!(a.allocated_port_count(), 4);
    for p in [28785, 28786, 28787, 28788] {
        assert!(a.is_port_active(p));
    }
    assert!(!a.is_port_active(28789));
}

#[test]
fn release_then_allocate_round_trip() {
    let mut a = ServerAllocator::new(100);
    let p = a.allocate_port();
    assert!(a.release_port(p));
    assert_eq!(a.allocated_port_count(), 0);
    assert!(!a.is_port_active(100));
    assert!(!a.is_port_active(101));
    let again = a.allocate_port();
    assert_eq!(again.all_ports(), [100, 101]);
    assert_eq!(a.next_port(), 102);
}

#[test]
fn smallest_released_pair_is_reused_first() {
    let mut a = ServerAllocator::new(10);
    let _p10 = a.allocate_port();
    let p12 = a.allocate_port();
    let p14 = a.allocate_port();
    let _p16 = a.allocate_port();
    assert!(a.release_port(p14));
    assert!(a.release_port(p12));
    assert_eq!(a.allocate_port().all_ports(), [12, 13]);
    assert_eq!(a.allocate_port().all_ports(), [14, 15]);
    assert_eq!(a.allocate_port().all_ports(), [18, 19]);
}

#[test]
fn second_release_fails() {
    let mut a = ServerAllocator::new(50);
    let _p = a.allocate_port();
    assert!(a.release_port(ServerPorts::new(50)));
    assert!(!a.release_port(ServerPorts::new(50)));
    assert_eq!(a.allocated_port_count(), 0);
    assert_eq!(a.allocate_port().all_ports(), [50, 51]);
    assert_eq!(a.allocate_port().all_ports(), [52, 53]);
}

#[test]
fn release_of_unknown_pair_changes_nothing() {
    let mut a = ServerAllocator::new(50);
    let _p = a.allocate_port();
    assert!(!a.release_port(ServerPorts::new(70)));
    assert_eq!(a.allocated_port_count(), 2);
    assert!(a.is_port_active(50));
    assert!(a.is_port_active(51));
}

#[test]
fn release_stops_at_first_unused_port() {
    let mut a = ServerAllocator::new(50);
    let _p = a.allocate_port();
    // 51 is in use but 52 is not: 51 is taken out of use and the release fails.
    assert!(!a.release_port(ServerPorts::new(51)));
    assert_eq!(a.allocated_port_count(), 1);
    assert!(a.is_port_active(50));
    assert!(!a.is_port_active(51));
    // Nothing was handed back, so the next pair is fresh.
    assert_eq!(a.allocate_port().all_ports(), [52, 53]);
}

#[test]
fn allocation_stops_at_the_last_port() {
    let mut a = ServerAllocator::new(65531);
    assert!(a.can_allocate());
    assert_eq!(a.allocate_port().all_ports(), [65531, 65532]);
    assert!(a.can_allocate());
    let last = a.allocate_port();
    assert_eq!(last.all_ports(), [65533, 65534]);
    assert!(!a.can_allocate());
    assert!(a.release_port(last));
    assert!(a.can_allocate());
    assert_eq!(a.allocate_port().all_ports(), [65533, 65534]);
}

#[test]
fn servers_can_be_recorded_and_forgotten() {
    let mut a = ServerAllocator::new(28785);
    let p = a.allocate_port();
    a.add_server("abc".to_string(), p.game_server_port());
    a.remove_server("abc".to_string());
    a.remove_server("missing".to_string());
    assert_eq!(a.allocated_port_count(), 2);
}

#[test]
fn count_is_twice_allocations_less_hand_backs() {
    let mut a = ServerAllocator::new(28785);
    let mut held = Vec::new();
    let mut allocations = 0usize;
    let mut releases = 0usize;
    for round in 0..6 {
        held.push(a.allocate_port());
        allocations += 1;
        if round % 2 == 1 {
            let p = held.remove(0);
            if a.release_port(p) {
                releases += 1;
            }
        }
        assert_eq!(a.allocated_port_count(), 2 * (allocations - releases));
        assert_eq!(a.allocated_port_count() % 2, 0);
    }
    for p in held {
        let game = p.game_server_port();
        assert!(a.is_port_active(game));
        assert!(a.is_port_active(game + 1));
        assert_eq!((game - 28785) % 2, 0);
    }
}
