use kisd::daemon::{
    goes_on_after_removal, link_made, notice, Ended, Link, LinkFailure, Notice,
};

#[test]
fn old_link_is_removed_or_absent() {
    assert!(goes_on_after_removal(Ok(())));
    assert!(goes_on_after_removal(Err(LinkFailure::NotFound)));
    assert!(!goes_on_after_removal(Err(LinkFailure::PermissionDenied)));
    assert!(!goes_on_after_removal(Err(LinkFailure::Other)));
}

#[test]
fn link_is_forgone_without_permission() {
    assert_eq!(link_made(Ok(())), Link::Made);
    assert_eq!(
        link_made(Err(LinkFailure::PermissionDenied)),
        Link::Forgone
    );
    assert_eq!(link_made(Err(LinkFailure::NotFound)), Link::Failed);
    assert_eq!(link_made(Err(LinkFailure::Other)), Link::Failed);
}

#[test]
fn absent_device_is_not_reported() {
    assert_eq!(
        notice(Ended::DeviceNotFound),
        Notice {
            disconnected: false,
            waiting: false
        }
    );
    assert_eq!(
        notice(Ended::Failed),
        Notice {
            disconnected: true,
            waiting: true
        }
    );
    assert_eq!(
        notice(Ended::Cleanly),
        Notice {
            disconnected: false,
            waiting: true
        }
    );
}
