use xfinder::watcher::events_from_stage;
use xfinder::watcher::{
    decide_modified, plan_batch, translate_event, EventQueue, FileEvent, ModifiedAction,
    NotifyKind, RenameOp,
};

fn paths(v: &[&str]) -> Vec<String> {
    v.iter().map(|s| s.to_string()).collect()
}

#[test]
fn notifications_become_events() {
    assert_eq!(
        translate_event(NotifyKind::Create, &paths(&["/d/a.txt"]), true),
        Some(FileEvent::Created("/d/a.txt".to_string()))
    );
    assert_eq!(translate_event(NotifyKind::Create, &paths(&["/d/sub"]), false), None);
    assert_eq!(
        translate_event(NotifyKind::Modify, &paths(&["/d/a.txt"]), true),
        Some(FileEvent::Modified("/d/a.txt".to_string()))
    );
    assert_eq!(
        translate_event(NotifyKind::Remove, &paths(&["/d/a.txt"]), false),
        Some(FileEvent::Removed("/d/a.txt".to_string()))
    );
    assert_eq!(
        translate_event(NotifyKind::RenameBoth, &paths(&["/d/a", "/d/b"]), false),
        Some(FileEvent::Renamed { from: "/d/a".to_string(), to: "/d/b".to_string() })
    );
    assert_eq!(
        translate_event(NotifyKind::Access, &paths(&["/d/a", "/d/b"]), false),
        Some(FileEvent::Renamed { from: "/d/a".to_string(), to: "/d/b".to_string() })
    );
    assert_eq!(translate_event(NotifyKind::Access, &paths(&["/d/a"]), true), None);
    assert_eq!(translate_event(NotifyKind::Other, &paths(&["/d/a"]), true), None);
}

#[test]
fn queue_drops_oldest_when_full() {
    let mut q = EventQueue::new();
    for i in 0..1000 {
        assert!(!q.push(FileEvent::Created(format!("/f{}", i))));
    }
    assert!(q.push(FileEvent::Created("/last".to_string())));
    assert_eq!(q.len(), 1000);
    let events = q.poll_events();
    assert_eq!(events.len(), 1000);
    assert_eq!(events[0], FileEvent::Created("/f1".to_string()));
    assert_eq!(events[999], FileEvent::Created("/last".to_string()));
    assert!(q.poll_events().is_empty());
}

#[test]
fn modified_with_same_hash_is_skipped() {
    let h = Some("abc".to_string());
    assert_eq!(decide_modified(&Some(h.clone()), &h), ModifiedAction::Skip);
    assert_eq!(decide_modified(&Some(Some("old".to_string())), &h), ModifiedAction::Update);
    assert_eq!(decide_modified(&None, &h), ModifiedAction::Update);
    assert_eq!(decide_modified(&Some(None), &None), ModifiedAction::Skip);
}

#[test]
fn batch_plan_groups_and_filters() {
    let events = vec![
        FileEvent::Created("/d/a.txt".to_string()),
        FileEvent::Created("/d/b.tmp".to_string()),
        FileEvent::Modified("/d/a.txt".to_string()),
        FileEvent::Modified("/d/c.tmp".to_string()),
        FileEvent::Removed("/d/gone.tmp".to_string()),
        FileEvent::Renamed { from: "/d/x.txt".to_string(), to: "/d/y.txt".to_string() },
        FileEvent::Renamed { from: "/d/p.txt".to_string(), to: "/d/q.tmp".to_string() },
        FileEvent::Created("/d/".to_string()),
    ];
    let exts = vec![".tmp".to_string()];
    let plan = plan_batch(&events, &exts, &vec![], &vec![]);
    assert_eq!(plan.added, vec![("/d/a.txt".to_string(), "a.txt".to_string())]);
    assert_eq!(plan.modified, vec![("/d/a.txt".to_string(), "a.txt".to_string())]);
    assert_eq!(plan.excluded_modified, vec!["/d/c.tmp".to_string()]);
    assert_eq!(plan.removed, vec!["/d/gone.tmp".to_string()]);
    assert_eq!(
        plan.renamed,
        vec![
            RenameOp::Move {
                from: "/d/x.txt".to_string(),
                to: "/d/y.txt".to_string(),
                filename: "y.txt".to_string()
            },
            RenameOp::DeleteSource("/d/p.txt".to_string()),
        ]
    );
}

#[test]
fn failed_stage_events_return_to_the_queue() {
    let events = vec![
        FileEvent::Renamed { from: "/a".to_string(), to: "/b".to_string() },
        FileEvent::Created("/c".to_string()),
        FileEvent::Removed("/d".to_string()),
        FileEvent::Modified("/e".to_string()),
    ];
    let left = events_from_stage(events, 2);
    assert_eq!(
        left,
        vec![
            FileEvent::Renamed { from: "/a".to_string(), to: "/b".to_string() },
            FileEvent::Removed("/d".to_string()),
        ]
    );
    let mut q = EventQueue::new();
    q.push(FileEvent::Created("/new".to_string()));
    q.requeue(left);
    let all = q.poll_events();
    assert_eq!(all.len(), 3);
    assert_eq!(all[1], FileEvent::Removed("/d".to_string()));
    assert_eq!(all[2], FileEvent::Created("/new".to_string()));
}

#[test]
fn requeue_keeps_the_newest_when_full() {
    let mut q = EventQueue::new();
    for i in 0..999 {
        q.push(FileEvent::Created(format!("/f{}", i)));
    }
    q.requeue(vec![FileEvent::Removed("/old1".to_string()), FileEvent::Removed("/old2".to_string())]);
    let all = q.poll_events();
    assert_eq!(all.len(), 1000);
    assert_eq!(all[0], FileEvent::Removed("/old2".to_string()));
    assert_eq!(all[1], FileEvent::Created("/f0".to_string()));
}
