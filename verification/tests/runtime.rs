use roombot::runtime::{handlers_for, EventKind, Handler};

#[test]
fn membership_changes_go_to_the_invitation_handler() {
    assert_eq!(handlers_for(EventKind::MembershipChanged), vec![Handler::Invitation]);
}

#[test]
fn messages_go_to_the_reply_handler_and_then_to_the_journal() {
    assert_eq!(handlers_for(EventKind::MessageReceived), vec![Handler::Reply, Handler::Journal]);
}

#[test]
fn every_handler_is_started_for_exactly_one_kind_of_event() {
    for handler in [Handler::Invitation, Handler::Reply, Handler::Journal] {
        let mut starts = 0;
        for kind in [EventKind::MembershipChanged, EventKind::MessageReceived] {
            starts += handlers_for(kind).iter().filter(|h| **h == handler).count();
        }
        assert_eq!(starts, 1);
    }
}
