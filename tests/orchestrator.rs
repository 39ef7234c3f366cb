use playground::admission::{AdmissionRejected, ContainerPool};
use playground::api::ExecuteResponse;
use playground::broadcast::Delivery;
use playground::orchestrator::{KillError, Orchestrator, SessionNotFound, StartError};
use playground::sandbox::{kill_args, sandbox_args, stdin_payload};

fn line(s: &str) -> Delivery {
    Delivery::Line(s.to_string())
}

#[test]
fn pool_admits_up_to_capacity_then_rejects() {
    let mut pool = ContainerPool::new(2);
    let a = pool.acquire().unwrap();
    let _b = pool.acquire().unwrap();
    assert_eq!(pool.acquire().unwrap_err(), AdmissionRejected);
    assert_eq!(pool.available(), 0);
    pool.release(a);
    assert_eq!(pool.available(), 1);
    assert!(pool.acquire().is_ok());
}

#[test]
fn one_more_start_than_capacity_is_rejected_once() {
    let n = 4;
    let mut o = Orchestrator::new(n, 1000);
    let mut accepted = 0;
    let mut rejected = 0;
    for _ in 0..n + 1 {
        match o.start() {
            Ok(_) => accepted += 1,
            Err(StartError::Busy) => rejected += 1,
            Err(StartError::IdInUse) => panic!("random ids collided"),
        }
    }
    assert_eq!(accepted, n);
    assert_eq!(rejected, 1);
    assert_eq!(o.permits_in_use(), n);
}

#[test]
fn permits_return_after_every_outcome() {
    let mut o = Orchestrator::new(3, 1000);
    assert_eq!(o.permits_in_use(), 0);
    let ok = o.start().unwrap();
    let failed = o.start().unwrap();
    let killed = o.start().unwrap();
    assert_eq!(o.permits_in_use(), 3);
    assert!(o.publish(ok, "Process finished with code: 0".to_string()));
    o.finish(ok);
    assert!(o.publish(failed, "Process finished with code: 1".to_string()));
    o.finish(failed);
    assert_eq!(o.kill(killed), Ok(()));
    o.finish(killed);
    assert_eq!(o.permits_in_use(), 0);
    assert_eq!(o.available(), 3);
    assert_eq!(o.running(), 0);
}

#[test]
fn subscribe_unknown_or_completed_is_not_found() {
    let mut o = Orchestrator::new(2, 1000);
    assert_eq!(o.subscribe(42).unwrap_err(), SessionNotFound);
    assert_eq!(o.subscribe_text("no such session").unwrap_err(), SessionNotFound);
    let id = o.start().unwrap();
    o.finish(id);
    assert_eq!(o.subscribe(id).unwrap_err(), SessionNotFound);
}

#[test]
fn late_subscriber_gets_no_replay() {
    let mut o = Orchestrator::new(1, 1000);
    let id = o.start().unwrap();
    for l in ["one", "two", "three"] {
        assert!(o.publish(id, l.to_string()));
    }
    let mut sub = o.subscribe(id).unwrap();
    assert_eq!(o.receive(&mut sub), Delivery::Pending);
    assert!(o.publish(id, "four".to_string()));
    assert_eq!(o.receive(&mut sub), line("four"));
    assert_eq!(o.receive(&mut sub), Delivery::Pending);
}

#[test]
fn lagging_subscriber_skips_missed_lines() {
    let mut o = Orchestrator::new(1, 2);
    let id = o.start().unwrap();
    let mut sub = o.subscribe(id).unwrap();
    for l in ["a", "b", "c", "d", "e"] {
        assert!(o.publish(id, l.to_string()));
    }
    assert_eq!(o.receive(&mut sub), Delivery::Lagged(3));
    assert_eq!(o.receive(&mut sub), line("d"));
    assert_eq!(o.receive(&mut sub), line("e"));
    assert_eq!(o.receive(&mut sub), Delivery::Pending);
}

#[test]
fn kill_unknown_is_not_found_and_changes_nothing() {
    let mut o = Orchestrator::new(2, 1000);
    let id = o.start().unwrap();
    assert_eq!(o.kill(id.wrapping_add(1)), Err(KillError::SessionNotFound));
    assert_eq!(o.kill_text("garbage"), Err(KillError::SessionNotFound));
    assert_eq!(o.running(), 1);
    assert_eq!(o.permits_in_use(), 1);
    assert!(o.is_running(id));
}

#[test]
fn kill_twice_second_is_not_found() {
    let mut o = Orchestrator::new(2, 1000);
    let id = o.start().unwrap();
    assert_eq!(o.kill(id), Ok(()));
    // the terminated process ends its task, which finishes the session
    o.finish(id);
    assert_eq!(o.kill(id), Err(KillError::SessionNotFound));
    o.finish(id);
    assert_eq!(o.permits_in_use(), 0);
}

#[test]
fn echo_program_streams_its_line_and_status() {
    assert_eq!(stdin_payload("hi"), "hi\n");
    let mut o = Orchestrator::new(10, 1000);
    let id = o.start().unwrap();
    let mut sub = o.subscribe(id).unwrap();
    for l in ["", "hi", "", "Process finished with code: 0"] {
        assert!(o.publish(id, l.to_string()));
    }
    o.finish(id);
    assert_eq!(o.receive(&mut sub), line(""));
    assert_eq!(o.receive(&mut sub), line("hi"));
    assert_eq!(o.receive(&mut sub), line(""));
    assert_eq!(o.receive(&mut sub), line("Process finished with code: 0"));
    assert_eq!(o.receive(&mut sub), Delivery::Closed);
    o.unsubscribe(sub);
}

#[test]
fn translation_failure_reports_diagnostics_then_removes_session() {
    let mut o = Orchestrator::new(10, 1000);
    let id = o.start().unwrap();
    let mut sub = o.subscribe(id).unwrap();
    assert!(o.publish(id, "error: unexpected token".to_string()));
    assert!(o.publish(id, "Process finished with code: 1".to_string()));
    o.finish(id);
    assert!(!o.is_running(id));
    assert_eq!(o.subscribe(id).unwrap_err(), SessionNotFound);
    assert_eq!(o.receive(&mut sub), line("error: unexpected token"));
    assert_eq!(o.receive(&mut sub), line("Process finished with code: 1"));
    assert_eq!(o.receive(&mut sub), Delivery::Closed);
    o.unsubscribe(sub);
    assert_eq!(o.receive(&mut sub), Delivery::Closed);
}

#[test]
fn killing_one_execution_leaves_another_alone() {
    let mut o = Orchestrator::new(10, 1000);
    let first = o.start().unwrap();
    let second = o.start().unwrap();
    assert_ne!(first, second);
    let mut sub = o.subscribe(second).unwrap();
    assert_eq!(o.kill(first), Ok(()));
    o.finish(first);
    assert!(o.publish(second, "still here".to_string()));
    assert_eq!(o.receive(&mut sub), line("still here"));
    assert!(o.is_running(second));
}

#[test]
fn reused_id_is_refused_while_in_use() {
    let mut o = Orchestrator::new(10, 1000);
    assert_eq!(o.start_with_id(7), Ok(()));
    assert_eq!(o.start_with_id(7), Err(StartError::IdInUse));
    let sub = o.subscribe(7).unwrap();
    o.finish(7);
    // its stream still has a reader
    assert_eq!(o.start_with_id(7), Err(StartError::IdInUse));
    o.unsubscribe(sub);
    assert_eq!(o.start_with_id(7), Ok(()));
}

#[test]
fn publish_to_unknown_or_finished_is_dropped() {
    let mut o = Orchestrator::new(10, 1000);
    assert!(!o.publish(1, "x".to_string()));
    o.start_with_id(1).unwrap();
    o.finish(1);
    assert!(!o.publish(1, "x".to_string()));
}

#[test]
fn text_ids_round_trip() {
    let mut o = Orchestrator::new(10, 1000);
    let id = o.start().unwrap();
    let response = ExecuteResponse::from_start(Ok(id));
    assert!(response.success);
    assert_eq!(response.session_id.len(), 36);
    assert_eq!(o.kill_text(&response.session_id), Ok(id));
    let sub = o.subscribe_text(&response.session_id).unwrap();
    assert_eq!(sub.id(), id);
}

#[test]
fn accepted_response_shows_hyphenated_id() {
    let r = ExecuteResponse::accepted(0xa1a2a3a4b1b2c1c2d1d2d3d4d5d6d7d8);
    assert!(r.success);
    assert_eq!(r.session_id, "a1a2a3a4-b1b2-c1c2-d1d2-d3d4d5d6d7d8");
}

#[test]
fn busy_response_carries_message() {
    let r = ExecuteResponse::from_start(Err(StartError::Busy));
    assert!(!r.success);
    assert_eq!(r.session_id, "Server is busy, try again later");
}

#[test]
fn stdin_gets_exactly_one_terminator() {
    assert_eq!(stdin_payload(""), "\n");
    assert_eq!(stdin_payload("a\n"), "a\n");
    assert_eq!(stdin_payload("a\nb"), "a\nb\n");
}

#[test]
fn sandbox_arguments_isolate_the_run() {
    let args = sandbox_args("abc", "/tmp/x/source.dn");
    assert_eq!(&args[..5], ["run", "-i", "--rm", "--name", "abc"]);
    assert!(args.contains(&"--network".to_string()));
    assert!(args.contains(&"none".to_string()));
    assert_eq!(args[14], "/tmp/x/source.dn:/sandbox/source.dn:ro");
    assert_eq!(args[15], "deen");
    assert_eq!(args.len(), 19);
    assert!(args[18].contains("Process finished with code"));
    assert_eq!(kill_args("abc"), vec!["kill".to_string(), "abc".to_string()]);
}

#[test]
fn execution_name_is_the_id_text() {
    let name = playground::ids::execution_name(0x550e8400e29b41d4a716446655440000);
    assert_eq!(name, "550e8400-e29b-41d4-a716-446655440000");
}
