use boundwire::protocol::{Limits, ProtocolError};
use boundwire::server::{Server, ServerEvent, ServerReport, ServerStep};
use tokio::sync::OwnedSemaphorePermit;

fn start(max_connections: usize) -> Server<String> {
    match Server::new(&Limits { max_connections, ..Limits::default() }) {
        Ok(server) => server,
        Err(error) => panic!("{}", error.describe()),
    }
}

fn accept(server: &mut Server<String>) -> Option<(u64, OwnedSemaphorePermit)> {
    match server.handle(ServerEvent::Accepted) {
        ServerStep::Serve { id, permit } => Some((id.0, permit)),
        ServerStep::Reject { .. } => None,
        _ => panic!("a new connection is served or rejected"),
    }
}

#[test]
fn reports_connections_rejected_at_limit() {
    let mut server = start(1);
    let active = accept(&mut server);
    assert!(active.is_some());
    assert!(accept(&mut server).is_none());
    assert_eq!(server.rejected_connections(), 1);

    assert!(matches!(server.handle(ServerEvent::Shutdown), ServerStep::Stop));
    drop(active);
    let report = server.finish(None).unwrap();
    assert_eq!(report.accepted_connections, 1);
    assert_eq!(report.rejected_connections, 1);
}

#[test]
fn connections_are_numbered_from_one() {
    let mut server = start(3);
    let first = accept(&mut server).unwrap();
    let second = accept(&mut server).unwrap();
    assert_eq!(first.0, 1);
    assert_eq!(second.0, 2);
    drop(first);
    assert_eq!(accept(&mut server).unwrap().0, 3);
}

#[test]
fn a_place_is_free_again_once_its_permit_is_dropped() {
    let mut server = start(2);
    let first = accept(&mut server).unwrap();
    let _second = accept(&mut server).unwrap();
    assert!(accept(&mut server).is_none());
    drop(first);
    assert_eq!(accept(&mut server).unwrap().0, 3);
    assert_eq!(
        server.finish(None),
        Ok(ServerReport { accepted_connections: 3, rejected_connections: 1 })
    );
}

#[test]
fn connections_without_a_permit_are_rejected() {
    let mut full = start(1);
    let (_, held) = accept(&mut full).unwrap();
    let ServerStep::Reject { shortage: Some(shortage) } = full.handle(ServerEvent::Accepted)
    else {
        panic!("the only permit was taken");
    };

    let mut server = start(2);
    assert!(matches!(
        server.place(Err(shortage)),
        ServerStep::Reject { shortage: Some(_) }
    ));
    assert_eq!(server.rejected_connections(), 1);
    assert!(matches!(
        server.place(Ok(held)),
        ServerStep::Serve { id, .. } if id.0 == 1
    ));
    assert_eq!(accept(&mut server).unwrap().0, 2);
}

#[test]
fn a_failed_task_shuts_the_server_down() {
    let mut server = start(2);
    let ended = server.handle(ServerEvent::TaskEnded { failure: None });
    assert!(matches!(ended, ServerStep::Wait));
    let failed = server.handle(ServerEvent::TaskEnded { failure: Some("first".to_owned()) });
    assert!(matches!(failed, ServerStep::ShutDown));
    server.fail("second".to_owned());
    assert_eq!(server.finish(None), Err("first".to_owned()));
}

#[test]
fn a_failed_listener_shuts_the_server_down() {
    let mut server = start(2);
    let failed = server.handle(ServerEvent::AcceptFailed("listener".to_owned()));
    assert!(matches!(failed, ServerStep::ShutDown));
    assert_eq!(server.finish(None), Err("listener".to_owned()));
}

#[test]
fn the_broker_s_failure_is_reported_first() {
    let mut server = start(2);
    server.fail("connection".to_owned());
    assert_eq!(server.finish(Some("broker".to_owned())), Err("broker".to_owned()));
}

#[test]
fn a_server_needs_valid_limits() {
    let limits = Limits { max_connections: 0, ..Limits::default() };
    let refused: Result<Server<String>, ProtocolError> = Server::new(&limits);
    assert!(matches!(
        refused,
        Err(ProtocolError::InvalidLimits("broker queue and connection limits must be nonzero"))
    ));
}
