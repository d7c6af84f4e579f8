use spark::aggregator::{button_sequence_debounce_task, Poll, SequenceAggregator};
use spark::button::ButtonNumber;
use spark::sequence::ButtonSequence;

fn press(button: ButtonNumber, now: u64) -> Poll {
    Poll { received: Some(button), now }
}

fn idle(now: u64) -> Poll {
    Poll { received: None, now }
}

fn buttons(flushed: &Option<ButtonSequence>) -> Option<Vec<ButtonNumber>> {
    flushed.as_ref().map(|s| s.to_vec())
}

#[test]
fn three_presses_close_together_flush_as_one_gesture() {
    // Button 2 at 0 ms, 200 ms and 500 ms, then silence; the clock is looked
    // at every 50 ms.
    let mut polls = Vec::new();
    let mut now = 0;
    while now <= 1400 {
        if now == 0 || now == 200 || now == 500 {
            polls.push(press(ButtonNumber::Button2, now));
        } else {
            polls.push(idle(now));
        }
        now += 50;
    }
    let flushed = button_sequence_debounce_task(&polls);
    assert_eq!(flushed.len(), polls.len());
    for (poll, out) in polls.iter().zip(flushed.iter()) {
        if poll.now == 1200 {
            assert_eq!(
                buttons(out),
                Some(vec![ButtonNumber::Button2, ButtonNumber::Button2, ButtonNumber::Button2])
            );
        } else {
            assert_eq!(buttons(out), None, "at {} ms", poll.now);
        }
    }
}

#[test]
fn a_single_press_flushes_alone_after_the_quiet_period() {
    let mut aggregator = SequenceAggregator::new();
    assert!(aggregator.poll(press(ButtonNumber::Button4, 1000)).is_none());
    assert_eq!(aggregator.len(), 1);
    assert_eq!(aggregator.last_press_time(), Some(1000));
    assert!(aggregator.poll(idle(1050)).is_none());
    assert!(aggregator.poll(idle(1699)).is_none());
    let flushed = aggregator.poll(idle(1700));
    assert_eq!(buttons(&flushed), Some(vec![ButtonNumber::Button4]));
    assert_eq!(aggregator.len(), 0);
    assert_eq!(aggregator.last_press_time(), None);
    assert!(aggregator.poll(idle(1750)).is_none());
    assert!(aggregator.poll(idle(5000)).is_none());
}

#[test]
fn presses_far_apart_are_never_batched() {
    let mut polls = Vec::new();
    let order = [
        ButtonNumber::Button1,
        ButtonNumber::Button3,
        ButtonNumber::Button3,
        ButtonNumber::Button2,
    ];
    for (i, button) in order.iter().enumerate() {
        let start = i as u64 * 800;
        polls.push(press(*button, start));
        let mut now = start + 50;
        while now < start + 800 {
            polls.push(idle(now));
            now += 50;
        }
    }
    let flushed = button_sequence_debounce_task(&polls);
    let got: Vec<Vec<ButtonNumber>> = flushed.iter().filter_map(|f| buttons(f)).collect();
    assert_eq!(
        got,
        vec![
            vec![ButtonNumber::Button1],
            vec![ButtonNumber::Button3],
            vec![ButtonNumber::Button3],
            vec![ButtonNumber::Button2],
        ]
    );
    // Each is flushed by the tick 700 ms after its press.
    for (poll, out) in polls.iter().zip(flushed.iter()) {
        assert_eq!(out.is_some(), poll.now % 800 == 700);
    }
}

#[test]
fn the_fifth_press_flushes_without_waiting() {
    let order = [
        ButtonNumber::Button1,
        ButtonNumber::Button2,
        ButtonNumber::Button3,
        ButtonNumber::Button4,
        ButtonNumber::Button1,
        ButtonNumber::Button2,
        ButtonNumber::Button3,
    ];
    let mut polls = Vec::new();
    for (i, button) in order.iter().enumerate() {
        polls.push(press(*button, i as u64 * 100));
        polls.push(idle(i as u64 * 100 + 50));
    }
    let flushed = button_sequence_debounce_task(&polls);
    for (i, out) in flushed.iter().enumerate() {
        if i == 8 {
            // The turn that received the fifth press, at 400 ms.
            assert_eq!(polls[i].now, 400);
            assert_eq!(buttons(out), Some(order[..5].to_vec()));
        } else {
            assert_eq!(buttons(out), None);
        }
    }
}

#[test]
fn ten_presses_in_a_row_flush_twice() {
    let mut polls = Vec::new();
    for i in 0..10u64 {
        polls.push(press(ButtonNumber::Button1, i * 10));
    }
    let flushed = button_sequence_debounce_task(&polls);
    let at: Vec<usize> =
        flushed.iter().enumerate().filter(|(_, f)| f.is_some()).map(|(i, _)| i).collect();
    assert_eq!(at, vec![4, 9]);
    assert_eq!(flushed[4].as_ref().unwrap().len(), 5);
    assert_eq!(flushed[9].as_ref().unwrap().len(), 5);
}

#[test]
fn a_press_restarts_the_quiet_period() {
    let mut aggregator = SequenceAggregator::new();
    assert!(aggregator.poll(press(ButtonNumber::Button1, 0)).is_none());
    assert!(aggregator.poll(idle(650)).is_none());
    assert!(aggregator.poll(press(ButtonNumber::Button2, 690)).is_none());
    // 700 ms after the first press, 10 ms after the second.
    assert!(aggregator.poll(idle(700)).is_none());
    assert!(aggregator.poll(idle(1389)).is_none());
    let flushed = aggregator.poll(idle(1390));
    assert_eq!(buttons(&flushed), Some(vec![ButtonNumber::Button1, ButtonNumber::Button2]));
}

#[test]
fn a_press_that_arrives_with_a_late_clock_joins_the_gesture() {
    // No tick saw the quiet period pass before the second press arrived, so
    // the two are one gesture, and the quiet period starts at the second.
    let mut aggregator = SequenceAggregator::new();
    assert!(aggregator.poll(press(ButtonNumber::Button1, 0)).is_none());
    assert!(aggregator.poll(press(ButtonNumber::Button2, 900)).is_none());
    assert_eq!(aggregator.len(), 2);
    assert!(aggregator.poll(idle(1599)).is_none());
    let flushed = aggregator.poll(idle(1600));
    assert_eq!(buttons(&flushed), Some(vec![ButtonNumber::Button1, ButtonNumber::Button2]));
}

#[test]
fn an_empty_aggregator_never_flushes() {
    let mut aggregator = SequenceAggregator::new();
    assert!(aggregator.on_tick(0).is_none());
    assert!(aggregator.on_tick(700).is_none());
    assert!(aggregator.on_tick(u64::MAX).is_none());
    assert_eq!(button_sequence_debounce_task(&vec![]).len(), 0);
}

#[test]
fn a_clock_that_goes_back_does_not_flush() {
    let mut aggregator = SequenceAggregator::new();
    assert!(aggregator.on_press(ButtonNumber::Button1, 5000));
    assert!(aggregator.on_tick(100).is_none());
    assert!(aggregator.on_tick(5699).is_none());
    assert!(aggregator.on_tick(5700).is_some());
}

#[test]
fn a_full_sequence_drops_a_press_until_it_is_flushed() {
    let mut aggregator = SequenceAggregator::new();
    for i in 0..5 {
        assert!(aggregator.on_press(ButtonNumber::Button2, i));
    }
    assert!(!aggregator.on_press(ButtonNumber::Button3, 5));
    assert_eq!(aggregator.len(), 5);
    assert_eq!(aggregator.last_press_time(), Some(5));
    let flushed = aggregator.on_tick(5);
    assert_eq!(buttons(&flushed), Some(vec![ButtonNumber::Button2; 5]));
    assert!(aggregator.on_press(ButtonNumber::Button3, 6));
    assert_eq!(aggregator.len(), 1);
}

#[test]
fn sequence_keeps_order_and_stops_at_five() {
    let mut sequence = ButtonSequence::new();
    assert!(sequence.is_empty());
    assert!(!sequence.is_full());
    let order = [
        ButtonNumber::Button4,
        ButtonNumber::Button1,
        ButtonNumber::Button3,
        ButtonNumber::Button1,
        ButtonNumber::Button2,
    ];
    for (i, button) in order.iter().enumerate() {
        assert!(sequence.push(*button));
        assert_eq!(sequence.len(), i + 1);
    }
    assert!(sequence.is_full());
    assert!(!sequence.push(ButtonNumber::Button4));
    assert_eq!(sequence.len(), 5);
    assert_eq!(sequence.to_vec(), order.to_vec());
    for (i, button) in order.iter().enumerate() {
        assert_eq!(sequence.get(i), Some(*button));
    }
    assert_eq!(sequence.get(5), None);
}

#[test]
fn sequences_compare_by_their_buttons() {
    let a = ButtonSequence::from_slice(&[ButtonNumber::Button1, ButtonNumber::Button2]);
    let b = ButtonSequence::from_slice(&[ButtonNumber::Button1, ButtonNumber::Button2]);
    let c = ButtonSequence::from_slice(&[ButtonNumber::Button2, ButtonNumber::Button1]);
    let d = ButtonSequence::from_slice(&[ButtonNumber::Button1]);
    assert_eq!(a, b);
    assert_ne!(a, c);
    assert_ne!(a, d);
    assert_eq!(a.clone(), a);
    assert_eq!(a.duplicate().to_vec(), vec![ButtonNumber::Button1, ButtonNumber::Button2]);
    assert_eq!(ButtonSequence::new(), ButtonSequence::from_slice(&[]));
}

#[test]
fn a_slice_longer_than_a_sequence_is_cut() {
    let long = [ButtonNumber::Button3; 9];
    let sequence = ButtonSequence::from_slice(&long);
    assert_eq!(sequence.len(), 5);
    assert_eq!(sequence.to_vec(), vec![ButtonNumber::Button3; 5]);
}
