use micast_broadcaster::broadcast::fallback::{CurrentState, ErrorState, FallbackError, State};
use micast_broadcaster::broadcast::item::{EndAction, Item, ItemState, ProbeReturn};
use micast_broadcaster::broadcast::methods::clamped_position;
use micast_broadcaster::broadcast::queue::{NextCheck, Queue, NEXT_RETRIES};
use micast_broadcaster::broadcast::spots;
use micast_broadcaster::broadcast::{client_destinations, NET_CLOCK_PORT};
use micast_broadcaster::{Broadcast, OutputMode, OutputState, SwitchPlan};

fn item(uri: &str, state: ItemState) -> Item {
    let mut i = Item::new(uri, None, false);
    i.set_state(state);
    i
}

#[test]
fn queue_new_is_empty() {
    let q = Queue::new();
    assert_eq!(q.length(), 0);
    assert_eq!(q.current(), None);
    assert_eq!(q.next(), NextCheck::NotFound);
}

#[test]
fn queue_push_adds_one_at_the_end() {
    let mut q = Queue::new();
    q.push(item("file:///a.mp3", ItemState::Prepared));
    assert_eq!(q.length(), 1);
    q.push(item("file:///b.mp3", ItemState::New));
    assert_eq!(q.length(), 2);
    assert_eq!(q.get(1).uri, "file:///b.mp3");
    assert_eq!(q.get(1).state(), ItemState::New);
}

#[test]
fn queue_next_finds_first_prepared() {
    let mut q = Queue::new();
    q.push(item("a", ItemState::Activate));
    q.push(item("b", ItemState::Prepared));
    q.push(item("c", ItemState::Prepared));
    assert_eq!(q.next(), NextCheck::Found(1));
    assert_eq!(q.current(), Some(0));
}

#[test]
fn queue_next_retries_while_items_are_unknown() {
    let mut q = Queue::new();
    q.push(item("a", ItemState::Activate));
    q.push(Item::new("b", Some(30), false));
    assert_eq!(q.next(), NextCheck::Retry(NEXT_RETRIES - 1));
    assert_eq!(q.next_check(1), NextCheck::Retry(0));
    assert_eq!(q.next_check(0), NextCheck::NotFound);
    q.set_state(1, ItemState::Prepared);
    assert_eq!(q.next(), NextCheck::Found(1));
}

#[test]
fn queue_clean_drops_removed_items_only() {
    let mut q = Queue::new();
    q.push(item("a", ItemState::Removed));
    q.push(item("b", ItemState::Activate));
    q.push(item("c", ItemState::Removed));
    q.push(item("d", ItemState::Prepared));
    q.clean();
    assert_eq!(q.length(), 2);
    assert_eq!(q.get(0).uri, "b");
    assert_eq!(q.get(1).uri, "d");
    q.clean();
    assert_eq!(q.length(), 2);
}

#[test]
fn item_life_of_a_programme_item() {
    let mut i = Item::new("file:///song.mp3", Some(120), false);
    assert_eq!(i.state(), ItemState::Unknown);
    assert_eq!(i.max_duration, 120);
    i.no_more_pads();
    assert_eq!(i.state(), ItemState::Prepared);
    assert_eq!(i.pad_probe_going_eos(false), (ProbeReturn::Pass, EndAction::Nothing));
    assert_eq!(i.pad_probe_going_eos(true), (ProbeReturn::Remove, EndAction::ScheduleCrossfade));
    assert_eq!(i.state(), ItemState::GoingEOS);
    assert_eq!(i.pad_probe_eos(false), ProbeReturn::Pass);
    assert_eq!(i.pad_probe_eos(true), ProbeReturn::Remove);
    assert_eq!(i.state(), ItemState::Removed);
}

#[test]
fn item_early_end() {
    let mut spot = Item::new("file:///spot.mp3", None, true);
    assert_eq!(spot.max_duration, 0);
    assert_eq!(spot.prepare_for_early_end(), EndAction::Nothing);
    assert_eq!(spot.state(), ItemState::EarlyEos);
    assert_eq!(spot.pad_probe_going_eos(true), (ProbeReturn::Pass, EndAction::Nothing));
    assert_eq!(spot.pad_probe_when_eos(), ProbeReturn::Pass);
    assert_eq!(spot.state(), ItemState::GoingEOS);

    let mut song = Item::new("file:///song.mp3", None, false);
    assert_eq!(song.prepare_for_early_end(), EndAction::ScheduleCrossfade);
    let mut spot = Item::new("file:///spot.mp3", None, true);
    assert_eq!(spot.pad_probe_going_eos(true), (ProbeReturn::Remove, EndAction::EndOfSpot));
}

#[test]
fn spot_life() {
    let mut s = spots::Item::new("file:///spot.mp3", Some(44100));
    assert_eq!(s.state(), spots::ItemState::Unknown);
    assert_eq!(s.rate, Some(44100));
    assert_eq!(s.pad_probe_eos(true), ProbeReturn::Pass);
    assert_eq!(s.pad_probe_going_eos(true), (ProbeReturn::Remove, true));
    assert_eq!(s.pad_probe_eos(true), ProbeReturn::Remove);
    assert_eq!(s.state(), spots::ItemState::Removed);
    s.set_state(spots::ItemState::EarlyEos);
    assert_eq!(s.pad_probe_going_eos(true), (ProbeReturn::Pass, false));
}

#[test]
fn fallback_start_and_restart() {
    let mut f = State::new();
    assert_eq!(f.start(None), Err(FallbackError::UriUnset));
    assert_eq!(f.simple_start(), Err(FallbackError::UriUnset));
    assert_eq!(f.start(Some("http://stream")), Ok(()));
    assert_eq!(f.current_state, CurrentState::ChangeUri);
    assert_eq!(f.start(Some("http://stream")), Err(FallbackError::UriNotChanged));
    assert_eq!(f.start(None), Ok(()));
    assert_eq!(f.simple_start(), Ok(()));
    assert_eq!(f.current_state, CurrentState::WaitForDecoderSrcPad);
    assert_eq!(f.simple_start(), Err(FallbackError::SourceAlreadySet));
    assert_eq!(f.stop_playback(), Err(FallbackError::SourcePadEmpty));
    assert!(f.needs_mixer());
    assert_eq!(f.pad_added_cb(false), Err(FallbackError::MixerNotConnected));
    assert_eq!(f.pad_added_cb(true), Ok(()));
    assert_eq!(f.current_state, CurrentState::PlaySource);
    assert!(!f.needs_mixer());
    assert_eq!(f.stop_playback(), Ok(true));
    assert_eq!(f.pad_eos_cb(false), (ProbeReturn::Pass, false));
    assert_eq!(f.pad_eos_cb(true), (ProbeReturn::Drop, true));
    assert!(!f.has_source);
    assert_eq!(f.stop_playback(), Ok(false));
}

#[test]
fn fallback_errors_and_teardown() {
    let mut f = State::new();
    f.start(Some("http://a")).unwrap();
    f.simple_start().unwrap();
    f.pad_added_cb(true).unwrap();
    f.triggered_error_from_bus();
    assert_eq!(f.error_state, ErrorState::WatchdogError);
    assert_eq!(f.current_state, CurrentState::Retry);
    let t = f.tear_down();
    assert!(t.remove_source);
    assert!(t.release_mixer_pad);
    let t = f.tear_down();
    assert!(!t.remove_source && !t.release_mixer_pad);
    f.playing();
    assert_eq!(f.error_state, ErrorState::NoError);
    assert_eq!(State::watchdog_timeout(true), 6000);
    assert_eq!(State::watchdog_timeout(false), 0);
}

#[test]
fn output_switches() {
    let mut o = OutputState::new(OutputMode::default());
    assert!(matches!(o.switch_output(OutputMode::Local(None)), SwitchPlan::Nothing));
    assert!(matches!(o.switch_output(OutputMode::Network), SwitchPlan::ToNetwork));
    assert!(matches!(o.switch_output(OutputMode::Network), SwitchPlan::Nothing));
    match o.switch_output(OutputMode::Local(Some("hw:1".to_string()))) {
        SwitchPlan::ToLocal(Some(d)) => assert_eq!(d, "hw:1"),
        _ => panic!("expected a local output to be attached"),
    }
    match o.switch_output(OutputMode::Local(None)) {
        SwitchPlan::ReplaceLocal(None) => {}
        _ => panic!("expected the local output to be replaced"),
    }
    assert!(matches!(o.switch_output(OutputMode::Local(None)), SwitchPlan::Nothing));
    assert!(matches!(o.current, OutputMode::Local(None)));
}

#[test]
fn running_time_positions() {
    assert_eq!(clamped_position(5, Some(10), Some(20)), 10);
    assert_eq!(clamped_position(25, Some(10), Some(20)), 20);
    assert_eq!(clamped_position(20, Some(10), Some(20)), 20);
    assert_eq!(clamped_position(15, Some(10), Some(20)), 15);
    assert_eq!(clamped_position(5, None, None), 5);
    assert_eq!(clamped_position(10, Some(10), None), 10);
}

#[test]
fn broadcast_setup() {
    let b = Broadcast::new(5000, OutputMode::Network);
    assert_eq!(b.rtp_client, ("127.0.0.1".to_string(), 5000));
    assert_eq!(
        b.destinations.rtp,
        vec![("127.0.0.1".to_string(), 5000), ("127.0.0.1".to_string(), 5000)]
    );
    assert_eq!(b.destinations.rtcp, vec![("127.0.0.1".to_string(), 5001)]);
    assert_eq!(b.rtcp_listen_port, 5002);
    assert_eq!(b.clock_port, 8555);
    assert_eq!(NET_CLOCK_PORT, 8555);
    assert!(!b.local_output);
    assert!(b.output.current == OutputMode::Network);

    let b = Broadcast::new(6000, OutputMode::Local(Some("hw:0".to_string())));
    assert!(b.local_output);
    assert!(b.output.current == OutputMode::Local(Some("hw:0".to_string())));
    assert_eq!(b.rtcp_listen_port, 6002);
}

#[test]
fn client_destinations_of_a_remote_client() {
    let d = client_destinations("10.0.0.7", 7000);
    assert_eq!(d.rtp, vec![("10.0.0.7".to_string(), 7000), ("127.0.0.1".to_string(), 7000)]);
    assert_eq!(d.rtcp, vec![("127.0.0.1".to_string(), 7001)]);
}

#[test]
fn output_modes_compare_by_device() {
    assert!(OutputMode::Network == OutputMode::Network);
    assert!(OutputMode::Local(None) == OutputMode::default());
    assert!(OutputMode::Local(Some("a".to_string())) != OutputMode::Local(Some("b".to_string())));
    assert!(OutputMode::Local(None) != OutputMode::Network);
    assert!(OutputMode::Local(None) != OutputMode::Local(Some("a".to_string())));
}
