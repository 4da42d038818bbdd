// A ring of actors passing a counter: each actor forwards the value it
// receives, plus one, and terminates; the starter's final value is the length
// of the ring.

use system::internal::{ActorInternal, NextState, Sender};
use system::synchronous::SyncSystem;
use system::tasks::system::{Parameters, TokioSystem};
use system::tasks::ActorType;
use system::System;

#[derive(Debug)]
pub struct CycleInternal {
    input_key: Option<usize>,
    output_key: Option<usize>,
    starter: bool,
}

impl CycleInternal {
    pub fn new(starter: bool) -> Self {
        CycleInternal { input_key: None, output_key: None, starter }
    }
}

impl ActorInternal for CycleInternal {
    type Message = usize;
    type Key = usize;
    type Error = ();

    fn new_incoming_key(&mut self, key: &usize) {
        assert!(self.input_key.is_none());
        self.input_key = Some(*key);
    }

    fn new_outgoing_key(&mut self, key: &usize) {
        assert!(self.output_key.is_none());
        self.output_key = Some(*key);
    }

    fn start<T: Sender<Key = usize, Message = usize>>(
        &mut self,
        tx: &mut T,
    ) -> Result<NextState<usize>, ()> {
        if self.starter {
            let out = self.output_key.unwrap();
            tx.send(&out, 0).unwrap();
        }
        Ok(NextState::Get)
    }

    fn process_message<T: Sender<Key = usize, Message = usize>>(
        &mut self,
        message: Option<usize>,
        tx: &mut T,
    ) -> Result<NextState<usize>, ()> {
        assert!(message.is_some());
        let value = message.unwrap();
        let out = self.output_key.unwrap();
        // The next actor may legitimately be done already.
        let _ = tx.send(&out, value + 1);
        Ok(NextState::Terminate(Some(value + 1)))
    }
}

#[test]
fn cycle_of_three() {
    let mut cycle: SyncSystem<CycleInternal> = SyncSystem::new();
    cycle.add_actor(0, CycleInternal::new(true), None);
    cycle.add_actor(1, CycleInternal::new(false), None);
    cycle.add_actor(2, CycleInternal::new(false), None);
    cycle.add_channel(&0, &1);
    cycle.add_channel(&1, &2);
    cycle.add_channel(&2, &0);
    cycle.add_terminal(0);
    let values = cycle.run().unwrap();
    assert_eq!(values.get(&0), Some(&Some(3)));
}

#[test]
fn test_sync_cycle() {
    let n: usize = 80;
    let mut cycle: SyncSystem<CycleInternal> = SyncSystem::new();

    cycle.add_actor(0, CycleInternal::new(true), None);
    for i in 1..n {
        cycle.add_actor(i, CycleInternal::new(false), None);
        cycle.add_channel(&(i - 1), &i);
    }
    cycle.add_channel(&(n - 1), &0);
    cycle.add_terminal(0);

    let values = cycle.run().unwrap();
    assert_eq!(values.get(&0), Some(&Some(n)));
}

#[test]
fn test_tokio_cycle() {
    let n: usize = 1000;
    let mut cycle: TokioSystem<CycleInternal> = TokioSystem::new(n + 1);

    cycle.add_actor(
        0,
        CycleInternal::new(true),
        Some(Parameters::new(ActorType::Light, 2 * n, 2 * n)),
    );
    for i in 1..n {
        cycle.add_actor(
            i,
            CycleInternal::new(false),
            Some(Parameters::new(ActorType::Light, 2 * n, 2 * n)),
        );
        cycle.add_channel(&(i - 1), &i);
    }
    cycle.add_channel(&(n - 1), &0);
    cycle.add_terminal(0);

    let values = cycle.run().unwrap();
    assert_eq!(values[0], Some(n));
}
