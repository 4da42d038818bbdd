// The same ring, written against the queue-based agent layer: each hook
// returns its instructions instead of sending through a capability, and the
// adapter runs the queues on either backend.

use std::collections::VecDeque;

use system::internal::Instruction;
use system::synchronous::agent::{Internal, QueueActor};
use system::synchronous::SyncSystem;
use system::tasks::system::{Parameters, TokioSystem};
use system::tasks::ActorType;
use system::System;

#[derive(Debug)]
pub struct CycleInternal {
    input_key: Option<usize>,
    output_key: Option<usize>,
    starter: bool,
}

impl CycleInternal {
    pub fn new(starter: bool) -> Self {
        CycleInternal { input_key: None, output_key: None, starter }
    }
}

impl Internal for CycleInternal {
    type Message = usize;
    type Key = usize;
    type Error = ();
    type Queue = VecDeque<Instruction<usize, usize>>;

    fn new_incoming_key(&mut self, key: &usize) {
        assert!(self.input_key.is_none());
        self.input_key = Some(*key);
    }

    fn new_outgoing_key(&mut self, key: &usize) {
        assert!(self.output_key.is_none());
        self.output_key = Some(*key);
    }

    fn start(&mut self) -> Self::Queue {
        let mut queue = VecDeque::new();
        if self.starter {
            let out = self.output_key.unwrap();
            queue.push_back(Instruction::Send(out, 0));
        }
        queue.push_back(Instruction::Get);
        queue
    }

    fn process_message(&mut self, message: Option<usize>) -> Self::Queue {
        assert!(message.is_some());
        let value = message.unwrap();
        let out = self.output_key.unwrap();
        let mut queue = VecDeque::new();
        queue.push_back(Instruction::Send(out, value + 1));
        queue.push_back(Instruction::Terminate(Some(value + 1)));
        queue
    }
}

#[test]
fn test_synchronous_test_sync_cycle() {
    let n: usize = 100;
    let mut cycle: SyncSystem<QueueActor<CycleInternal>> = SyncSystem::new();

    cycle.add_actor(0, QueueActor::new(CycleInternal::new(true)), None);
    for i in 1..n {
        cycle.add_actor(i, QueueActor::new(CycleInternal::new(false)), None);
        cycle.add_channel(&(i - 1), &i);
    }
    cycle.add_channel(&(n - 1), &0);
    cycle.add_terminal(0);

    let values = cycle.run().unwrap();
    assert_eq!(values.get(&0), Some(&Some(n)));
}

#[test]
fn test_tokio_test_sync_cycle() {
    let n: usize = 1000;
    let mut cycle: TokioSystem<QueueActor<CycleInternal>> = TokioSystem::new(n + 1);

    cycle.add_actor(
        0,
        QueueActor::new(CycleInternal::new(true)),
        Some(Parameters::new(ActorType::Light, 2 * n, 2 * n)),
    );
    for i in 1..n {
        cycle.add_actor(
            i,
            QueueActor::new(CycleInternal::new(false)),
            Some(Parameters::new(ActorType::Light, 2 * n, 2 * n)),
        );
        cycle.add_channel(&(i - 1), &i);
    }
    cycle.add_channel(&(n - 1), &0);
    cycle.add_terminal(0);

    let values = cycle.run().unwrap();
    assert_eq!(values[0], Some(n));
}
