use std::collections::HashMap;

use minecraft_terminal_viewer::pool::{Notice, ResourcePool, ResourceStatus};

fn notice(request: u64, status: ResourceStatus) -> Notice {
    Notice { request, status }
}

#[test]
fn two_slots_three_clients() {
    let mut pool = ResourcePool::new(2);
    let (a, na) = pool.request_resource(false);
    assert_eq!(na, vec![notice(a, ResourceStatus::Success(0))]);
    let (b, nb) = pool.request_resource(false);
    assert_eq!(nb, vec![notice(b, ResourceStatus::Success(1))]);
    let (c, nc) = pool.request_resource(false);
    assert_eq!(nc[0], notice(c, ResourceStatus::QueuePosition(0)));
    assert!(nc.iter().all(|n| n.request == c && n.status == ResourceStatus::QueuePosition(0)));
    let released = pool.release(0);
    assert_eq!(released, vec![notice(c, ResourceStatus::Success(0))]);
    assert_eq!(pool.waiting_count(), 0);
}

#[test]
fn cancelled_waiter_leaves_before_release() {
    let mut pool = ResourcePool::new(1);
    let (a, na) = pool.request_resource(false);
    assert_eq!(na, vec![notice(a, ResourceStatus::Success(0))]);
    let (b, _) = pool.request_resource(false);
    let (c, _) = pool.request_resource(false);
    let (d, nd) = pool.request_resource(false);
    assert_eq!(nd[0], notice(d, ResourceStatus::QueuePosition(2)));
    let cancelled = pool.cancel(c);
    assert_eq!(
        cancelled,
        vec![
            notice(c, ResourceStatus::Cancelled),
            notice(b, ResourceStatus::QueuePosition(0)),
            notice(d, ResourceStatus::QueuePosition(1)),
        ]
    );
    let released = pool.release(0);
    assert_eq!(
        released,
        vec![notice(b, ResourceStatus::Success(0)), notice(d, ResourceStatus::QueuePosition(0))]
    );
}

#[test]
fn release_then_acquire_returns_same_slot() {
    let mut pool = ResourcePool::new(2);
    pool.request_resource(false);
    pool.request_resource(false);
    assert!(pool.release(1).is_empty());
    let (e, ne) = pool.request_resource(false);
    assert_eq!(ne, vec![notice(e, ResourceStatus::Success(1))]);
}

#[test]
fn free_slots_are_handed_out_in_order() {
    let mut pool = ResourcePool::new(3);
    pool.request_resource(false);
    let (_, nb) = pool.request_resource(false);
    assert_eq!(nb[0].status, ResourceStatus::Success(1));
    pool.release(0);
    let (_, nc) = pool.request_resource(false);
    assert_eq!(nc[0].status, ResourceStatus::Success(2));
    let (_, nd) = pool.request_resource(false);
    assert_eq!(nd[0].status, ResourceStatus::Success(0));
}

#[test]
fn request_cancelled_on_arrival_gets_only_cancelled() {
    let mut pool = ResourcePool::new(1);
    let (a, na) = pool.request_resource(true);
    assert_eq!(na, vec![notice(a, ResourceStatus::Cancelled)]);
    let (b, nb) = pool.request_resource(false);
    assert_eq!(nb, vec![notice(b, ResourceStatus::Success(0))]);
    let (c, nc) = pool.request_resource(true);
    assert_eq!(
        nc,
        vec![notice(c, ResourceStatus::QueuePosition(0)), notice(c, ResourceStatus::Cancelled)]
    );
    assert_eq!(pool.waiting_count(), 0);
}

#[test]
fn cancel_after_success_changes_nothing() {
    let mut pool = ResourcePool::new(1);
    let (a, _) = pool.request_resource(false);
    assert!(pool.cancel(a).is_empty());
    let (b, _) = pool.request_resource(false);
    assert_eq!(pool.release(0), vec![notice(b, ResourceStatus::Success(0))]);
}

#[test]
fn double_release_changes_nothing() {
    let mut pool = ResourcePool::new(1);
    pool.request_resource(false);
    assert!(pool.release(0).is_empty());
    assert!(pool.release(0).is_empty());
    assert!(pool.release(7).is_empty());
    let (_, n) = pool.request_resource(false);
    assert_eq!(n[0].status, ResourceStatus::Success(0));
    let (_, m) = pool.request_resource(false);
    assert_eq!(m[0].status, ResourceStatus::QueuePosition(0));
}

#[test]
fn positions_never_rise_as_queue_drains() {
    let mut pool = ResourcePool::new(1);
    pool.request_resource(false);
    let mut ids = Vec::new();
    for _ in 0..4 {
        let (id, _) = pool.request_resource(false);
        ids.push(id);
    }
    let last = *ids.last().unwrap();
    let mut seen = Vec::new();
    for n in pool.cancel(ids[1]).into_iter().chain(pool.release(0)) {
        if n.request == last {
            if let ResourceStatus::QueuePosition(p) = n.status {
                seen.push(p);
            }
        }
    }
    assert_eq!(seen, vec![2, 1]);
}

#[test]
fn holders_never_exceed_slots_and_terminals_come_once() {
    let slots = 3u32;
    let mut pool = ResourcePool::new(slots);
    let mut held: HashMap<u64, u32> = HashMap::new();
    let mut terminals: HashMap<u64, usize> = HashMap::new();
    let mut issued = Vec::new();
    for round in 0u64..60 {
        let notices = match round % 5 {
            0 | 1 | 2 => {
                let (id, n) = pool.request_resource(round % 11 == 0);
                issued.push(id);
                n
            }
            3 => match held.keys().min().copied() {
                Some(owner) => pool.release(held[&owner]),
                None => Vec::new(),
            },
            _ => pool.cancel(issued[(round as usize * 7) % issued.len()]),
        };
        for n in notices {
            match n.status {
                ResourceStatus::Success(slot) => {
                    held.retain(|_, s| *s != slot);
                    held.insert(n.request, slot);
                    *terminals.entry(n.request).or_default() += 1;
                }
                ResourceStatus::Cancelled | ResourceStatus::Failed(_) => {
                    *terminals.entry(n.request).or_default() += 1;
                }
                ResourceStatus::QueuePosition(_) => {
                    assert_eq!(terminals.get(&n.request), None);
                }
            }
        }
        assert!(held.len() <= slots as usize);
        assert!(terminals.values().all(|&count| count == 1));
    }
}
