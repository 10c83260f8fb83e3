use ts_endpoint_generator::watch::{WatchAction, WatchLoop, WatchSignal, WatchState};

#[test]
fn a_batch_starts_exactly_one_pass() {
    let mut watch = WatchLoop::new();
    assert_eq!(watch.state, WatchState::Waiting);
    let mut passes = 0;
    let signals = [
        WatchSignal::Changes,
        WatchSignal::Errors,
        WatchSignal::Changes,
        WatchSignal::Changes,
        WatchSignal::Errors,
    ];
    for signal in signals {
        assert_eq!(watch.state, WatchState::Waiting);
        if watch.take(signal) == WatchAction::RunPass {
            assert_eq!(watch.state, WatchState::Running);
            passes += 1;
            watch.pass_ended();
        }
    }
    assert_eq!(passes, 3);
    assert_eq!(watch.state, WatchState::Waiting);
}

#[test]
fn startup_runs_the_first_pass() {
    let mut watch = WatchLoop::new();
    assert_eq!(watch.take(WatchSignal::Startup), WatchAction::RunPass);
    assert_eq!(watch.state, WatchState::Running);
    watch.pass_ended();
    assert_eq!(watch.state, WatchState::Waiting);
}

#[test]
fn errors_are_reported_and_the_loop_goes_on() {
    let mut watch = WatchLoop::new();
    assert_eq!(watch.take(WatchSignal::Errors), WatchAction::ReportErrors);
    assert_eq!(watch.state, WatchState::Waiting);
    assert_eq!(watch.take(WatchSignal::Changes), WatchAction::RunPass);
}

#[test]
fn a_closed_channel_ends_the_loop() {
    let mut watch = WatchLoop::new();
    assert_eq!(watch.take(WatchSignal::Closed), WatchAction::Stop);
    assert_eq!(watch.state, WatchState::Stopped);
}
