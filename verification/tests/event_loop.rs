use safe_network::distance::Distance;
use safe_network::driver::SwarmDriver;
use safe_network::event_loop::{
    bootstrap_interval, replication_range, LoopAction, LoopEvent, LoopPhase,
};
use safe_network::peer::PeerId;

fn peer(n: u8) -> PeerId {
    PeerId::from_bytes(&[0, 1, n]).unwrap()
}

fn driver(is_client: bool) -> SwarmDriver {
    SwarmDriver::new(peer(0), false, is_client, false, None)
}

#[test]
fn local_commands_come_first() {
    let d = driver(false);
    let (phase, action) = d.run(LoopPhase::PollLocal, LoopEvent::LocalCmd);
    assert_eq!((phase, action), (LoopPhase::PollLocal, LoopAction::HandleLocalCmd));
    let (phase, action) = d.run(phase, LoopEvent::NoLocalCmd);
    assert_eq!((phase, action), (LoopPhase::Wait, LoopAction::Wait));
    for (event, expected) in [
        (LoopEvent::SwarmEvent, LoopAction::HandleSwarmEvent),
        (LoopEvent::NetworkCmd, LoopAction::HandleNetworkCmd),
        (LoopEvent::NetworkCmdsClosed, LoopAction::Nothing),
        (LoopEvent::BootstrapTick, LoopAction::RunBootstrap),
        (LoopEvent::FarthestRecordTick, LoopAction::UpdateFarthestRecord),
        (LoopEvent::RelayTick, LoopAction::TryRelays),
    ] {
        assert_eq!(d.run(LoopPhase::Wait, event), (LoopPhase::PollLocal, expected));
    }
}

#[test]
fn the_loop_ends_with_the_local_commands() {
    assert_eq!(
        driver(false).run(LoopPhase::PollLocal, LoopEvent::LocalCmdsClosed),
        (LoopPhase::Stopped, LoopAction::Stop)
    );
}

#[test]
fn clients_have_no_farthest_record() {
    let d = driver(true);
    assert_eq!(
        d.run(LoopPhase::Wait, LoopEvent::FarthestRecordTick),
        (LoopPhase::PollLocal, LoopAction::Nothing)
    );
    assert_eq!(d.farthest_record_bucket(&vec![peer(1)]), None);
}

#[test]
fn farthest_record_is_estimated_by_the_last_of_a_bucket() {
    let d = driver(false);
    assert_eq!(d.farthest_record_bucket(&vec![]), None);
    let many: Vec<PeerId> = (1..=30).map(peer).collect();
    assert_eq!(
        d.farthest_record_bucket(&many),
        Distance::between(peer(0).as_bytes(), peer(19).as_bytes()).ilog2()
    );
}

#[test]
fn replication_range_follows_the_store() {
    assert_eq!(replication_range(Some(250)), 250);
    assert_eq!(replication_range(None), 1);
    assert_eq!(bootstrap_interval(5, None), 5);
    assert_eq!(bootstrap_interval(5, Some(180)), 180);
}
