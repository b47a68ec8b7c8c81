use plant_monitor::actuation::{
    Command, DispatchWriteError, Dispatcher, GpioAction, GpioOutput, GpioState, PinWrite, Timer,
};

fn led(action: GpioAction) -> Command {
    Command { output: GpioOutput::Led, action }
}

fn pump(action: GpioAction) -> Command {
    Command { output: GpioOutput::Pump, action }
}

/// Processes the next command as a pin at `physical` whose write succeeds.
fn apply(dispatcher: &mut Dispatcher, physical: GpioState) -> Option<PinWrite> {
    let write = dispatcher.process(physical)?;
    assert_eq!(dispatcher.settle(write, true), Ok(()));
    Some(write)
}

#[test]
fn starts_idle_and_low() {
    let dispatcher = Dispatcher::new(GpioState::Low, GpioState::Low);
    assert_eq!(dispatcher.level(GpioOutput::Led), GpioState::Low);
    assert_eq!(dispatcher.level(GpioOutput::Pump), GpioState::Low);
    assert_eq!(dispatcher.pending(), None);
    assert_eq!(dispatcher.next_due(), None);
    assert_eq!(dispatcher.now, 0);
}

#[test]
fn starts_with_the_levels_given() {
    let dispatcher = Dispatcher::new(GpioState::High, GpioState::Low);
    assert_eq!(dispatcher.level(GpioOutput::Led), GpioState::High);
    assert_eq!(dispatcher.level(GpioOutput::Pump), GpioState::Low);
    let other = Dispatcher::new(GpioState::Low, GpioState::High);
    assert_eq!(other.level(GpioOutput::Led), GpioState::Low);
    assert_eq!(other.level(GpioOutput::Pump), GpioState::High);
}

#[test]
fn on_off_transitions() {
    let mut dispatcher = Dispatcher::new(GpioState::Low, GpioState::Low);
    dispatcher.submit(led(GpioAction::On));
    assert_eq!(
        apply(&mut dispatcher, GpioState::Low),
        Some(PinWrite { output: GpioOutput::Led, state: GpioState::High })
    );
    assert_eq!(dispatcher.level(GpioOutput::Led), GpioState::High);
    dispatcher.submit(led(GpioAction::On));
    assert_eq!(
        apply(&mut dispatcher, GpioState::High),
        Some(PinWrite { output: GpioOutput::Led, state: GpioState::High })
    );
    assert_eq!(dispatcher.level(GpioOutput::Led), GpioState::High);
    dispatcher.submit(led(GpioAction::Off));
    assert_eq!(
        apply(&mut dispatcher, GpioState::High),
        Some(PinWrite { output: GpioOutput::Led, state: GpioState::Low })
    );
    assert_eq!(dispatcher.level(GpioOutput::Led), GpioState::Low);
    assert_eq!(dispatcher.level(GpioOutput::Pump), GpioState::Low);
}

#[test]
fn toggle_inverts_what_the_pin_shows() {
    let mut dispatcher = Dispatcher::new(GpioState::Low, GpioState::Low);
    dispatcher.submit(pump(GpioAction::Toggle));
    assert_eq!(
        apply(&mut dispatcher, GpioState::High),
        Some(PinWrite { output: GpioOutput::Pump, state: GpioState::Low })
    );
    assert_eq!(dispatcher.level(GpioOutput::Pump), GpioState::Low);
    dispatcher.submit(pump(GpioAction::Toggle));
    assert_eq!(
        apply(&mut dispatcher, GpioState::Low),
        Some(PinWrite { output: GpioOutput::Pump, state: GpioState::High })
    );
    assert_eq!(dispatcher.level(GpioOutput::Pump), GpioState::High);
}

#[test]
fn commands_are_taken_in_order() {
    let mut dispatcher = Dispatcher::new(GpioState::Low, GpioState::Low);
    dispatcher.submit(led(GpioAction::On));
    dispatcher.submit(pump(GpioAction::On));
    dispatcher.submit(led(GpioAction::Off));
    assert_eq!(dispatcher.pending(), Some(led(GpioAction::On)));
    assert_eq!(apply(&mut dispatcher, GpioState::Low).unwrap().output, GpioOutput::Led);
    assert_eq!(dispatcher.pending(), Some(pump(GpioAction::On)));
    assert_eq!(apply(&mut dispatcher, GpioState::Low).unwrap().output, GpioOutput::Pump);
    assert_eq!(dispatcher.pending(), Some(led(GpioAction::Off)));
    assert_eq!(
        apply(&mut dispatcher, GpioState::High),
        Some(PinWrite { output: GpioOutput::Led, state: GpioState::Low })
    );
    assert_eq!(dispatcher.pending(), None);
    assert_eq!(dispatcher.process(GpioState::Low), None);
}

#[test]
fn pulse_is_on_now_and_off_no_earlier_than_its_length() {
    let mut dispatcher = Dispatcher::new(GpioState::Low, GpioState::Low);
    dispatcher.advance(10_500);
    dispatcher.submit(led(GpioAction::Pulse(2)));
    assert_eq!(
        apply(&mut dispatcher, GpioState::Low),
        Some(PinWrite { output: GpioOutput::Led, state: GpioState::High })
    );
    assert_eq!(dispatcher.level(GpioOutput::Led), GpioState::High);
    assert_eq!(dispatcher.next_due(), Some(12_500));

    // an unrelated command for the other output in the interval
    dispatcher.submit(pump(GpioAction::On));
    assert_eq!(
        apply(&mut dispatcher, GpioState::Low),
        Some(PinWrite { output: GpioOutput::Pump, state: GpioState::High })
    );
    dispatcher.advance(12_499);
    assert_eq!(dispatcher.pending(), None);
    assert_eq!(apply(&mut dispatcher, GpioState::High), None);
    assert_eq!(dispatcher.level(GpioOutput::Led), GpioState::High);
    assert_eq!(dispatcher.level(GpioOutput::Pump), GpioState::High);

    dispatcher.advance(12_500);
    assert_eq!(dispatcher.pending(), Some(led(GpioAction::Off)));
    assert_eq!(dispatcher.next_due(), None);
    assert_eq!(
        apply(&mut dispatcher, GpioState::High),
        Some(PinWrite { output: GpioOutput::Led, state: GpioState::Low })
    );
    assert_eq!(dispatcher.level(GpioOutput::Led), GpioState::Low);
    assert_eq!(dispatcher.level(GpioOutput::Pump), GpioState::High);
}

#[test]
fn deferred_off_queues_behind_waiting_commands() {
    let mut dispatcher = Dispatcher::new(GpioState::Low, GpioState::Low);
    dispatcher.submit(pump(GpioAction::Pulse(5)));
    apply(&mut dispatcher, GpioState::Low);
    dispatcher.submit(led(GpioAction::On));
    dispatcher.advance(5_000);
    assert_eq!(dispatcher.pending(), Some(led(GpioAction::On)));
    apply(&mut dispatcher, GpioState::Low);
    assert_eq!(dispatcher.pending(), Some(pump(GpioAction::Off)));
}

#[test]
fn pulse_is_not_cancelled_by_later_commands() {
    let mut dispatcher = Dispatcher::new(GpioState::Low, GpioState::Low);
    dispatcher.submit(led(GpioAction::Pulse(3)));
    apply(&mut dispatcher, GpioState::Low);
    dispatcher.submit(led(GpioAction::Off));
    apply(&mut dispatcher, GpioState::High);
    dispatcher.submit(led(GpioAction::On));
    apply(&mut dispatcher, GpioState::Low);
    assert_eq!(dispatcher.level(GpioOutput::Led), GpioState::High);
    dispatcher.advance(2_999);
    assert_eq!(dispatcher.pending(), None);
    dispatcher.advance(3_000);
    assert_eq!(
        apply(&mut dispatcher, GpioState::High),
        Some(PinWrite { output: GpioOutput::Led, state: GpioState::Low })
    );
    assert_eq!(dispatcher.level(GpioOutput::Led), GpioState::Low);
}

#[test]
fn failed_write_is_reported_and_pulse_still_ends() {
    let mut dispatcher = Dispatcher::new(GpioState::Low, GpioState::Low);
    dispatcher.submit(pump(GpioAction::Pulse(4)));
    dispatcher.submit(led(GpioAction::On));
    let write = dispatcher.process(GpioState::Low).unwrap();
    assert_eq!(write, PinWrite { output: GpioOutput::Pump, state: GpioState::High });
    assert_eq!(
        dispatcher.settle(write, false),
        Err(DispatchWriteError { output: GpioOutput::Pump })
    );
    assert_eq!(dispatcher.level(GpioOutput::Pump), GpioState::Low);
    assert_eq!(dispatcher.timers, vec![Timer { due: 4_000, command: pump(GpioAction::Off) }]);
    // the next command is still processed
    assert_eq!(
        apply(&mut dispatcher, GpioState::Low),
        Some(PinWrite { output: GpioOutput::Led, state: GpioState::High })
    );
    dispatcher.advance(4_000);
    assert_eq!(dispatcher.pending(), Some(pump(GpioAction::Off)));
}

#[test]
fn timers_come_due_in_the_order_they_were_set() {
    let mut dispatcher = Dispatcher::new(GpioState::Low, GpioState::Low);
    dispatcher.submit(led(GpioAction::Pulse(10)));
    dispatcher.submit(pump(GpioAction::Pulse(2)));
    apply(&mut dispatcher, GpioState::Low);
    apply(&mut dispatcher, GpioState::Low);
    assert_eq!(dispatcher.next_due(), Some(2_000));
    dispatcher.advance(1_999);
    assert_eq!(dispatcher.pending(), None);
    dispatcher.advance(20_000);
    assert_eq!(dispatcher.now, 20_000);
    assert_eq!(dispatcher.pending(), Some(led(GpioAction::Off)));
    apply(&mut dispatcher, GpioState::High);
    assert_eq!(dispatcher.pending(), Some(pump(GpioAction::Off)));
    apply(&mut dispatcher, GpioState::High);
    assert_eq!(dispatcher.pending(), None);
    assert!(dispatcher.timers.is_empty());
}

#[test]
fn clock_does_not_run_backwards() {
    let mut dispatcher = Dispatcher::new(GpioState::Low, GpioState::Low);
    dispatcher.advance(100);
    dispatcher.advance(50);
    assert_eq!(dispatcher.now, 100);
    dispatcher.submit(led(GpioAction::Pulse(0)));
    apply(&mut dispatcher, GpioState::Low);
    assert_eq!(dispatcher.next_due(), Some(100));
    dispatcher.advance(0);
    assert_eq!(dispatcher.pending(), Some(led(GpioAction::Off)));
}

#[test]
fn pulse_beyond_the_clock_ends_at_its_last_instant() {
    let mut dispatcher = Dispatcher::new(GpioState::Low, GpioState::Low);
    dispatcher.advance(1_000);
    dispatcher.submit(led(GpioAction::Pulse(u64::MAX)));
    dispatcher.submit(pump(GpioAction::Pulse(u64::MAX / 1000)));
    dispatcher.submit(pump(GpioAction::Pulse(u64::MAX / 1000 - 1)));
    apply(&mut dispatcher, GpioState::Low);
    assert_eq!(dispatcher.next_due(), Some(u64::MAX));
    apply(&mut dispatcher, GpioState::Low);
    assert_eq!(dispatcher.timers[1].due, u64::MAX);
    apply(&mut dispatcher, GpioState::Low);
    assert_eq!(dispatcher.timers[2].due, 18_446_744_073_709_551_000);
    assert_eq!(dispatcher.next_due(), Some(18_446_744_073_709_551_000));
    dispatcher.advance(18_446_744_073_709_550_999);
    assert_eq!(dispatcher.pending(), None);
    dispatcher.advance(u64::MAX - 1);
    assert_eq!(dispatcher.pending(), Some(pump(GpioAction::Off)));
    apply(&mut dispatcher, GpioState::High);
    assert_eq!(dispatcher.pending(), None);
    dispatcher.advance(u64::MAX);
    assert_eq!(dispatcher.pending(), Some(led(GpioAction::Off)));
    apply(&mut dispatcher, GpioState::High);
    assert_eq!(dispatcher.pending(), Some(pump(GpioAction::Off)));
}
