use user_store::record::User;
use user_store::service::{DurableCall, DurableReply, Outcome, RecordService, Request, Step};

fn call_of(step: Step) -> DurableCall {
    match step {
        Step::Call(c) => c,
        Step::Reply(o) => panic!("expected a durable call, got {:?}", o),
    }
}

fn reply_of(step: Step) -> Outcome {
    match step {
        Step::Reply(o) => o,
        Step::Call(_) => panic!("expected a reply"),
    }
}

#[test]
fn create_read_update_delete_scenario() {
    let mut svc = RecordService::new();
    let create = Request::Create { fullname: "Ada Lovelace".to_string() };
    let call = call_of(svc.plan(&create, true));
    let id = match &call {
        DurableCall::InsertOne { id, fullname } => {
            assert_eq!(fullname, "Ada Lovelace");
            id.clone()
        }
        _ => panic!("create must insert"),
    };
    assert!(!id.is_empty());
    match svc.settle(call, DurableReply::Done) {
        Outcome::Created(got) => assert_eq!(got, id),
        o => panic!("unexpected {:?}", o),
    }

    let read = Request::Read { id: id.clone() };
    match reply_of(svc.plan(&read, true)) {
        Outcome::Record(u) => assert_eq!(u.fullname(), "Ada Lovelace"),
        o => panic!("unexpected {:?}", o),
    }

    let update = Request::Update { id: id.clone(), fullname: "Ada King".to_string() };
    let call = call_of(svc.plan(&update, true));
    assert!(matches!(svc.settle(call, DurableReply::Done), Outcome::Updated));
    match reply_of(svc.plan(&read, true)) {
        Outcome::Record(u) => assert_eq!(u.fullname(), "Ada King"),
        o => panic!("unexpected {:?}", o),
    }

    let delete = Request::Delete { id: id.clone() };
    let call = call_of(svc.plan(&delete, true));
    assert!(matches!(svc.settle(call, DurableReply::Done), Outcome::Deleted));
    let call = call_of(svc.plan(&read, true));
    assert!(matches!(&call, DurableCall::FindOne { id: k } if *k == id));
    assert!(matches!(svc.settle(call, DurableReply::Absent), Outcome::NotFound));
    // Still absent on the next read: nothing was put back in the cache.
    assert!(matches!(svc.plan(&read, true), Step::Call(DurableCall::FindOne { .. })));
}

#[test]
fn missing_record_is_not_found() {
    let mut svc = RecordService::new();
    let read = Request::Read { id: "does-not-exist".to_string() };
    let call = call_of(svc.plan(&read, true));
    assert!(matches!(svc.settle(call, DurableReply::Absent), Outcome::NotFound));
}

#[test]
fn denied_request_touches_nothing() {
    let svc = RecordService::new();
    let read = Request::Read { id: "does-not-exist".to_string() };
    assert!(matches!(svc.plan(&read, false), Step::Reply(Outcome::Unauthorized)));
    let create = Request::Create { fullname: "Ada Lovelace".to_string() };
    assert!(matches!(svc.plan(&create, false), Step::Reply(Outcome::Unauthorized)));
}

#[test]
fn created_id_is_24_lower_hex_digits() {
    let svc = RecordService::new();
    let create = Request::Create { fullname: "x".to_string() };
    let a = match call_of(svc.plan(&create, true)) {
        DurableCall::InsertOne { id, .. } => id,
        _ => panic!("create must insert"),
    };
    let b = match call_of(svc.plan(&create, true)) {
        DurableCall::InsertOne { id, .. } => id,
        _ => panic!("create must insert"),
    };
    assert_eq!(a.len(), 24);
    assert!(a.chars().all(|c| c.is_ascii_digit() || ('a'..='f').contains(&c)));
    assert_ne!(a, b);
}

#[test]
fn plan_with_id_uses_given_id() {
    let svc = RecordService::new();
    let create = Request::Create { fullname: "Grace".to_string() };
    match call_of(svc.plan_with_id(&create, true, "abc".to_string())) {
        DurableCall::InsertOne { id, fullname } => {
            assert_eq!(id, "abc");
            assert_eq!(fullname, "Grace");
        }
        _ => panic!("create must insert"),
    }
}

#[test]
fn failed_insert_leaves_cache_untouched() {
    let mut svc = RecordService::new();
    let call = DurableCall::InsertOne { id: "a1".to_string(), fullname: "Ada".to_string() };
    assert!(matches!(svc.settle(call, DurableReply::Failed), Outcome::DurableFailure));
    let read = Request::Read { id: "a1".to_string() };
    assert!(matches!(svc.plan(&read, true), Step::Call(DurableCall::FindOne { .. })));
}

#[test]
fn failed_update_keeps_old_cached_value() {
    let mut svc = RecordService::new();
    let call = DurableCall::InsertOne { id: "a1".to_string(), fullname: "Ada".to_string() };
    svc.settle(call, DurableReply::Done);
    let call = DurableCall::UpdateFields { id: "a1".to_string(), fullname: "Ada King".to_string() };
    assert!(matches!(svc.settle(call, DurableReply::Failed), Outcome::DurableFailure));
    let read = Request::Read { id: "a1".to_string() };
    match reply_of(svc.plan(&read, true)) {
        Outcome::Record(u) => assert_eq!(u.fullname(), "Ada"),
        o => panic!("unexpected {:?}", o),
    }
}

#[test]
fn failed_delete_keeps_cache_entry() {
    let mut svc = RecordService::new();
    svc.settle(
        DurableCall::InsertOne { id: "a1".to_string(), fullname: "Ada".to_string() },
        DurableReply::Done,
    );
    let call = DurableCall::DeleteOne { id: "a1".to_string() };
    assert!(matches!(svc.settle(call, DurableReply::Failed), Outcome::DurableFailure));
    let read = Request::Read { id: "a1".to_string() };
    assert!(matches!(svc.plan(&read, true), Step::Reply(Outcome::Record(_))));
}

#[test]
fn read_fill_is_idempotent() {
    let mut svc = RecordService::new();
    let first = svc.settle(
        DurableCall::FindOne { id: "a1".to_string() },
        DurableReply::Found(User::new("Ada".to_string())),
    );
    let second = svc.settle(
        DurableCall::FindOne { id: "a1".to_string() },
        DurableReply::Found(User::new("Ada".to_string())),
    );
    match (first, second) {
        (Outcome::Record(a), Outcome::Record(b)) => {
            assert_eq!(a.fullname(), "Ada");
            assert_eq!(b.fullname(), "Ada");
        }
        _ => panic!("both reads must give the record"),
    }
    let read = Request::Read { id: "a1".to_string() };
    match reply_of(svc.plan(&read, true)) {
        Outcome::Record(u) => assert_eq!(u.fullname(), "Ada"),
        o => panic!("unexpected {:?}", o),
    }
}

#[test]
fn durable_read_failure_is_reported() {
    let mut svc = RecordService::new();
    let call = DurableCall::FindOne { id: "a1".to_string() };
    assert!(matches!(svc.settle(call, DurableReply::Failed), Outcome::DurableFailure));
}

#[test]
fn many_reads_after_delete_stay_not_found() {
    let mut svc = RecordService::new();
    svc.settle(
        DurableCall::InsertOne { id: "a1".to_string(), fullname: "Ada".to_string() },
        DurableReply::Done,
    );
    svc.settle(DurableCall::DeleteOne { id: "a1".to_string() }, DurableReply::Done);
    let read = Request::Read { id: "a1".to_string() };
    for _ in 0..5 {
        let call = call_of(svc.plan(&read, true));
        assert!(matches!(svc.settle(call, DurableReply::Absent), Outcome::NotFound));
    }
}

#[test]
fn many_reads_give_the_stored_record() {
    let mut svc = RecordService::new();
    let read = Request::Read { id: "a1".to_string() };
    for _ in 0..5 {
        let outcome = match svc.plan(&read, true) {
            Step::Reply(o) => o,
            Step::Call(call) => svc.settle(call, DurableReply::Found(User::new("Ada".to_string()))),
        };
        match outcome {
            Outcome::Record(u) => assert_eq!(u.fullname(), "Ada"),
            o => panic!("unexpected {:?}", o),
        }
    }
}
