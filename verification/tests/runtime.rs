// Scenario checks of the runtime itself: timed waits, failed sends, the
// standalone actor driver, the agent driver, and the small verified
// collections around them.

use std::collections::VecDeque;

use system::channel::ChannelError;
use system::internal::{ActorInternal, Instruction, NextState, SendError, Sender};
use system::keymap::KeyMap;
use system::synchronous::actor::Actor;
use system::synchronous::agent::{Agent, AgentError, Internal};
use system::synchronous::SyncSystem;
use system::System;

// A single actor with no inbound channel: its timed wait must elapse and be
// delivered as the null message.
#[derive(Debug)]
struct TimeoutInternal;

impl ActorInternal for TimeoutInternal {
    type Message = usize;
    type Key = usize;
    type Error = ();

    fn new_incoming_key(&mut self, _key: &usize) {}

    fn new_outgoing_key(&mut self, _key: &usize) {}

    fn start<T: Sender<Key = usize, Message = usize>>(
        &mut self,
        _tx: &mut T,
    ) -> Result<NextState<usize>, ()> {
        Ok(NextState::GetTimeout(50))
    }

    fn process_message<T: Sender<Key = usize, Message = usize>>(
        &mut self,
        message: Option<usize>,
        _tx: &mut T,
    ) -> Result<NextState<usize>, ()> {
        // Nobody can send to this actor: only the elapsed deadline arrives.
        assert!(message.is_none());
        Ok(NextState::Terminate(Some(1)))
    }
}

#[test]
fn timeout_fires() {
    let mut system: SyncSystem<TimeoutInternal> = SyncSystem::new();
    system.add_actor(0, TimeoutInternal, None);
    system.add_terminal(0);
    let values = system.run().unwrap();
    assert_eq!(values.get(&0), Some(&Some(1)));
}

// An actor that sends to a key it never declared: the send must fail
// synchronously, handing the message back, and the actor goes on normally.
#[derive(Debug)]
struct UnknownPeerInternal;

impl ActorInternal for UnknownPeerInternal {
    type Message = usize;
    type Key = usize;
    type Error = ();

    fn new_incoming_key(&mut self, _key: &usize) {}

    fn new_outgoing_key(&mut self, _key: &usize) {}

    fn start<T: Sender<Key = usize, Message = usize>>(
        &mut self,
        tx: &mut T,
    ) -> Result<NextState<usize>, ()> {
        let outcome = match tx.send(&99, 7) {
            Err(SendError((99, 7))) => 7,
            _ => 0,
        };
        Ok(NextState::Terminate(Some(outcome)))
    }

    fn process_message<T: Sender<Key = usize, Message = usize>>(
        &mut self,
        _message: Option<usize>,
        _tx: &mut T,
    ) -> Result<NextState<usize>, ()> {
        Ok(NextState::Get)
    }
}

#[test]
fn send_to_unknown() {
    let mut system: SyncSystem<UnknownPeerInternal> = SyncSystem::new();
    system.add_actor(0, UnknownPeerInternal, None);
    system.add_terminal(0);
    let values = system.run().unwrap();
    assert_eq!(values.get(&0), Some(&Some(7)));
}

#[test]
fn standalone_actor_runs_to_termination() {
    let actor = Actor::new(TimeoutInternal);
    let (result, _) = actor.run(100);
    assert_eq!(result.unwrap(), Some(1));
}

// A queue-based agent whose instructions run out without a termination.
#[derive(Debug)]
struct SilentInternal;

impl Internal for SilentInternal {
    type Message = usize;
    type Key = usize;
    type Error = ();
    type Queue = VecDeque<Instruction<usize, usize>>;

    fn new_incoming_key(&mut self, _key: &usize) {}

    fn new_outgoing_key(&mut self, _key: &usize) {}

    fn start(&mut self) -> Self::Queue {
        VecDeque::new()
    }

    fn process_message(&mut self, _message: Option<usize>) -> Self::Queue {
        VecDeque::new()
    }
}

#[test]
fn agent_without_terminate_exits_without_value() {
    let mut agent = Agent::new(SilentInternal);
    let (result, _) = agent.run(1000);
    assert_eq!(result, Err(AgentError::ExitedWithoutValue));
}

// A queue-based agent that terminates immediately with a value.
#[derive(Debug)]
struct OneShotInternal;

impl Internal for OneShotInternal {
    type Message = usize;
    type Key = usize;
    type Error = ();
    type Queue = VecDeque<Instruction<usize, usize>>;

    fn new_incoming_key(&mut self, _key: &usize) {}

    fn new_outgoing_key(&mut self, _key: &usize) {}

    fn start(&mut self) -> Self::Queue {
        let mut queue = VecDeque::new();
        queue.push_back(Instruction::Terminate(Some(42)));
        queue
    }

    fn process_message(&mut self, _message: Option<usize>) -> Self::Queue {
        VecDeque::new()
    }
}

#[test]
fn agent_terminates_with_value() {
    let mut agent = Agent::new(OneShotInternal);
    let (result, _) = agent.run(1000);
    assert_eq!(result, Ok(Some(42)));
}

#[test]
fn instruction_from_next_state() {
    let get: Instruction<usize, usize> = Instruction::from(NextState::Get);
    assert_eq!(get, Instruction::Get);
    let timed: Instruction<usize, usize> = Instruction::from(NextState::GetTimeout(9));
    assert_eq!(timed, Instruction::GetTimeout(9));
    let done: Instruction<usize, usize> = Instruction::from(NextState::Terminate(Some(3)));
    assert_eq!(done, Instruction::Terminate(Some(3)));
}

#[test]
fn channel_error_keeps_payload()
{
    let e: ChannelError<usize> = ChannelError::from(SendError(5));
    assert_eq!(e, ChannelError::SendError(5));
}

#[test]
fn keymap_lookup() {
    let mut map: KeyMap<usize, usize> = KeyMap::new();
    assert_eq!(map.get(&1), None);
    map.insert(1, 10);
    map.insert(2, 20);
    assert_eq!(map.get(&1), Some(&10));
    assert_eq!(map.get(&2), Some(&20));
    map.insert(1, 11);
    assert_eq!(map.get(&1), Some(&11));
    assert_eq!(map.get(&3), None);
}

// One sender streams a burst of messages to one receiver: the receiver must
// see them in send order.
#[derive(Debug)]
struct BurstSender;

impl ActorInternal for BurstSender {
    type Message = usize;
    type Key = usize;
    type Error = ();

    fn new_incoming_key(&mut self, _key: &usize) {}

    fn new_outgoing_key(&mut self, _key: &usize) {}

    fn start<T: Sender<Key = usize, Message = usize>>(
        &mut self,
        tx: &mut T,
    ) -> Result<NextState<usize>, ()> {
        for v in 1..=3 {
            tx.send(&1, v).unwrap();
        }
        Ok(NextState::Terminate(None))
    }

    fn process_message<T: Sender<Key = usize, Message = usize>>(
        &mut self,
        _message: Option<usize>,
        _tx: &mut T,
    ) -> Result<NextState<usize>, ()> {
        Ok(NextState::Get)
    }
}

#[derive(Debug)]
struct OrderedReceiver {
    seen: Vec<usize>,
}

impl ActorInternal for OrderedReceiver {
    type Message = usize;
    type Key = usize;
    type Error = ();

    fn new_incoming_key(&mut self, _key: &usize) {}

    fn new_outgoing_key(&mut self, _key: &usize) {}

    fn start<T: Sender<Key = usize, Message = usize>>(
        &mut self,
        _tx: &mut T,
    ) -> Result<NextState<usize>, ()> {
        Ok(NextState::Get)
    }

    fn process_message<T: Sender<Key = usize, Message = usize>>(
        &mut self,
        message: Option<usize>,
        _tx: &mut T,
    ) -> Result<NextState<usize>, ()> {
        let value = message.unwrap();
        self.seen.push(value);
        if self.seen.len() == 3 {
            // Encode the order of arrival in the final value.
            let code = self.seen[0] * 100 + self.seen[1] * 10 + self.seen[2];
            Ok(NextState::Terminate(Some(code)))
        } else {
            Ok(NextState::Get)
        }
    }
}

// Both kinds in one ring: an enum dispatching to the active variant, as the
// consensus workload does.
#[derive(Debug)]
enum BurstActor {
    Tx(BurstSender),
    Rx(OrderedReceiver),
}

impl ActorInternal for BurstActor {
    type Message = usize;
    type Key = usize;
    type Error = ();

    fn new_incoming_key(&mut self, key: &usize) {
        match self {
            BurstActor::Tx(a) => a.new_incoming_key(key),
            BurstActor::Rx(a) => a.new_incoming_key(key),
        }
    }

    fn new_outgoing_key(&mut self, key: &usize) {
        match self {
            BurstActor::Tx(a) => a.new_outgoing_key(key),
            BurstActor::Rx(a) => a.new_outgoing_key(key),
        }
    }

    fn start<T: Sender<Key = usize, Message = usize>>(
        &mut self,
        tx: &mut T,
    ) -> Result<NextState<usize>, ()> {
        match self {
            BurstActor::Tx(a) => a.start(tx),
            BurstActor::Rx(a) => a.start(tx),
        }
    }

    fn process_message<T: Sender<Key = usize, Message = usize>>(
        &mut self,
        message: Option<usize>,
        tx: &mut T,
    ) -> Result<NextState<usize>, ()> {
        match self {
            BurstActor::Tx(a) => a.process_message(message, tx),
            BurstActor::Rx(a) => a.process_message(message, tx),
        }
    }
}

#[test]
fn messages_arrive_in_send_order() {
    let mut system: SyncSystem<BurstActor> = SyncSystem::new();
    system.add_actor(0, BurstActor::Tx(BurstSender), None);
    system.add_actor(1, BurstActor::Rx(OrderedReceiver { seen: Vec::new() }), None);
    system.add_channel(&0, &1);
    system.add_terminal(1);
    let values = system.run().unwrap();
    assert_eq!(values.get(&1), Some(&Some(123)));
}

#[test]
fn registering_a_key_twice_replaces_the_actor() {
    let mut system: SyncSystem<TimeoutInternal> = SyncSystem::new();
    system.add_actor(0, TimeoutInternal, None);
    system.add_actor(0, TimeoutInternal, None);
    system.add_terminal(0);
    let values = system.run().unwrap();
    // Exactly one entry: the second registration replaced the first.
    assert_eq!(values.get(&0), Some(&Some(1)));
}
