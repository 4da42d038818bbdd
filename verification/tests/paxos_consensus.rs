// The consensus workload, on both backends, and unit checks of the proposer,
// acceptor and learner state machines through instruction-queue senders.

use std::collections::VecDeque;

use system::internal::{ActorInternal, Instruction, NextState};
use system::paxos::acceptor::AcceptorInternal;
use system::paxos::learner::LearnerInternal;
use system::paxos::proposer::ProposerInternal;
use system::paxos::{setup_paxos, AgentID, Message, PaxosInternal};
use system::synchronous::SyncSystem;
use system::tasks::system::TokioSystem;
use system::tasks::ActorType;

type Queue = VecDeque<Instruction<AgentID, Message>>;

fn terminated_value(msg: &Message) -> String {
    match msg {
        Message::Terminated(_, val) => val.clone(),
        _ => panic!("a learner must terminate with a decision"),
    }
}

#[test]
fn paxos_small() {
    let system: SyncSystem<PaxosInternal> = SyncSystem::new();
    let initial: Vec<(String, u32, u64)> = vec![
        (String::from("A"), 100, 1000),
        (String::from("B"), 100, 1000),
    ];
    let paxos = setup_paxos(system, initial, 3, 1, ActorType::Light);
    let values = paxos.run().unwrap();
    let decision = values.get(&AgentID::Learner(0)).unwrap().as_ref().unwrap();
    let val = terminated_value(decision);
    assert!(val == "A" || val == "B");
}

#[test]
fn paxos_large() {
    let system: TokioSystem<PaxosInternal> = TokioSystem::new(30);
    let initial: Vec<(String, u32, u64)> = (0..10)
        .map(|i| (format!("The answer is {}", i % 17), 500, 1000))
        .collect();
    let paxos = setup_paxos(system, initial, 20, 30, ActorType::Light);
    let values = paxos.run().unwrap();
    assert_eq!(values.len(), 30);
    let verdicts: Vec<String> = values
        .iter()
        .map(|v| terminated_value(v.as_ref().unwrap()))
        .collect();
    assert!(verdicts.windows(2).all(|a| a[0] == a[1]));
}

#[test]
fn test_parse_new_time() {
    let mut acceptor = AcceptorInternal::new(0);
    let prop_id = AgentID::Proposer(0);
    let mut instructions: Queue = VecDeque::new();

    let next_state = acceptor
        .process_message(Some(Message::NewTime(1, prop_id)), &mut instructions)
        .unwrap();
    assert_eq!(next_state, NextState::Get);
    let sent = match instructions.pop_front().unwrap() {
        Instruction::Send(to, m) => {
            assert_eq!(to, prop_id);
            m
        }
        _ => panic!("the acceptor must answer the proposer"),
    };
    assert_eq!(
        sent,
        Message::UpdatedTime(1, None, None, AgentID::Acceptor(0))
    );

    // A ballot not above the promise is ignored.
    let next_state = acceptor
        .process_message(Some(Message::NewTime(0, prop_id)), &mut instructions)
        .unwrap();
    assert_eq!(next_state, NextState::Get);
    assert!(instructions.pop_front().is_none());
}

#[test]
fn test_parse_proposal() {
    let mut acceptor = AcceptorInternal::new(0);
    let mut instructions: Queue = VecDeque::new();

    acceptor.new_outgoing_key(&AgentID::Learner(0));
    acceptor.new_incoming_key(&AgentID::Proposer(0));

    acceptor
        .process_message(
            Some(Message::Proposal(
                1,
                String::from("apple"),
                AgentID::Proposer(0),
            )),
            &mut instructions,
        )
        .unwrap();

    match instructions.pop_front().unwrap() {
        Instruction::Send(to, m) => {
            assert_eq!(to, AgentID::Learner(0));
            assert_eq!(
                m,
                Message::NewVote(AgentID::Acceptor(0), 1, String::from("apple"))
            );
        }
        _ => panic!("the acceptor must announce its vote"),
    }
}

#[test]
fn test_parse_message() {
    let mut internal = LearnerInternal::new(0);
    internal.set_num_of_acceptors(4);

    let id = AgentID::Acceptor;
    internal
        .parse_message(Message::NewVote(id(0), 1, String::from("Hello")))
        .unwrap();
    internal
        .parse_message(Message::NewVote(id(1), 1, String::from("Hello")))
        .unwrap();
    assert_eq!(internal.value(), None);
    internal
        .parse_message(Message::NewVote(id(2), 1, String::from("Hello")))
        .unwrap();

    assert_eq!(internal.value(), Some(String::from("Hello")));
}

#[test]
fn learner_rejects_foreign_messages() {
    let mut internal = LearnerInternal::new(0);
    internal.set_num_of_acceptors(3);
    let r = internal.parse_message(Message::Accept(4));
    assert!(r.is_err());
    assert_eq!(internal.value(), None);
}

#[test]
fn duplicate_votes_count_once() {
    let mut internal = LearnerInternal::new(0);
    internal.set_num_of_acceptors(3);
    let id = AgentID::Acceptor;
    for _ in 0..5 {
        internal
            .parse_message(Message::NewVote(id(0), 2, String::from("x")))
            .unwrap();
    }
    // One acceptor, however often it repeats itself, is not a majority of 3.
    assert_eq!(internal.value(), None);
}

#[test]
fn proposer_ballots_stay_in_range() {
    let mut proposer = ProposerInternal::new(0, String::from("A"), 100, 1000);
    proposer.new_outgoing_key(&AgentID::Acceptor(0));
    proposer.new_outgoing_key(&AgentID::Acceptor(1));
    let mut instructions: Queue = VecDeque::new();
    let next_state = proposer.start(&mut instructions).unwrap();
    assert_eq!(next_state, NextState::GetTimeout(1000));
    let mut announced = 0;
    while let Some(inst) = instructions.pop_front() {
        match inst {
            Instruction::Send(_, Message::NewTime(t, from)) => {
                assert!(t < 100);
                assert_eq!(from, AgentID::Proposer(0));
                announced += 1;
            }
            other => panic!("unexpected instruction {:?}", other),
        }
    }
    assert_eq!(announced, 2);
}

#[test]
fn proposer_quorum_adopts_answer() {
    let mut proposer = ProposerInternal::new(0, String::from("mine"), 100, 1000);
    for i in 0..3 {
        proposer.new_outgoing_key(&AgentID::Acceptor(i));
    }
    let _ = proposer.set_new_time(7);
    // Two of three answers form a majority; the second carries an earlier
    // acceptance, which the proposer must adopt.
    assert!(!proposer.parse_updated_time(7, None, None, 0));
    assert!(proposer.parse_updated_time(7, Some(String::from("theirs")), Some(3), 1));
    assert_eq!(
        proposer.make_proposal(),
        Message::Proposal(7, String::from("theirs"), AgentID::Proposer(0))
    );
}
