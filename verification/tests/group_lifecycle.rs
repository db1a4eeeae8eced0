//! Lifecycle flows over a roster whose owner holds one unit of weight,
//! as a token-backed group would assign it: passed and rejected
//! readings stay revisitable while a proposal lives.

use sg_gov::dao::{Config, Dao, Metadata};
use sg_gov::error::ContractError;
use sg_gov::expiration::{BlockInfo, Duration, Expiration};
use sg_gov::math::Fraction;
use sg_gov::members::Member;
use sg_gov::threshold::{Status, Threshold, ThresholdResponse};
use sg_gov::votes::Vote;

const OWNER: &str = "admin0001";
const VOTER1: &str = "voter0001";
const VOTER2: &str = "voter0002";
const VOTER3: &str = "voter0003";
const VOTER4: &str = "voter0004";
const VOTER5: &str = "voter0005";
const SOMEBODY: &str = "somebody";

fn member(addr: &str, weight: u64) -> Member {
    Member { addr: addr.to_string(), weight }
}

fn metadata() -> Metadata {
    Metadata {
        name: "name".to_string(),
        description: "description".to_string(),
        image: "image".to_string(),
    }
}

fn start_block() -> BlockInfo {
    BlockInfo { height: 12_345, time: 1_571_797_419_879_305_533 }
}

fn next_block(block: &mut BlockInfo) {
    block.height += 1;
    block.time += 5_000_000_000;
}

fn expire(voting_period: Duration, block: &mut BlockInfo) {
    match voting_period {
        Duration::Time(d) => block.time += (d + 1) * 1_000_000_000,
        Duration::Height(d) => block.height += d + 1,
    }
}

fn unexpire(voting_period: Duration, block: &mut BlockInfo) {
    match voting_period {
        Duration::Time(d) => block.time -= d * 1_000_000_000,
        Duration::Height(d) => block.height -= d,
    }
}

fn members() -> Vec<Member> {
    vec![
        member(OWNER, 1),
        member(VOTER1, 1),
        member(VOTER2, 2),
        member(VOTER3, 3),
        member(VOTER4, 12),
        member(VOTER5, 5),
    ]
}

fn setup_test_case(threshold: Threshold, max_voting_period: Duration, block: &BlockInfo) -> Dao {
    let config = Config { threshold, max_voting_period, executor: None };
    Dao::instantiate(config, metadata(), OWNER.to_string(), &members(), block).unwrap()
}

fn pay_somebody_payload() -> Vec<Vec<u8>> {
    vec![b"send 1 BTC to somebody".to_vec()]
}

fn propose_pay_somebody(
    dao: &mut Dao,
    sender: &str,
    block: &BlockInfo,
) -> Result<sg_gov::dao::ProposeResponse, ContractError> {
    dao.propose(
        &sender.to_string(),
        "Pay somebody".to_string(),
        "Do I pay her?".to_string(),
        pay_somebody_payload(),
        None,
        block,
    )
}

fn get_tally(dao: &Dao, proposal_id: u64) -> u64 {
    let votes = dao.list_votes(proposal_id, None, None).unwrap();
    votes
        .votes
        .iter()
        .filter(|v| v.vote == Vote::Yes)
        .map(|v| v.weight)
        .sum()
}

#[test]
fn integration_nft_group_tests_test_propose_works() {
    let mut block = start_block();
    let voting_period = Duration::Time(2000000);
    let mut dao = setup_test_case(Threshold::AbsoluteCount { weight: 4 }, voting_period, &block);
    next_block(&mut block);

    let err = propose_pay_somebody(&mut dao, SOMEBODY, &block).unwrap_err();
    assert_eq!(err, ContractError::Unauthorized);

    let err = dao
        .propose(
            &VOTER1.to_string(),
            "Rewarding somebody".to_string(),
            "Do we reward her?".to_string(),
            pay_somebody_payload(),
            Some(Expiration::AtHeight(123456)),
            &block,
        )
        .unwrap_err();
    assert_eq!(err, ContractError::WrongExpiration);

    let res = propose_pay_somebody(&mut dao, VOTER3, &block).unwrap();
    assert_eq!(res.id, 1);
    assert_eq!(res.status, Status::Open);

    let res = propose_pay_somebody(&mut dao, VOTER4, &block).unwrap();
    assert_eq!(res.id, 2);
    assert_eq!(res.status, Status::Passed);
}

#[test]
fn integration_nft_group_tests_test_proposal_queries() {
    let mut block = start_block();
    let voting_period = Duration::Time(2000000);
    let threshold = Threshold::ThresholdQuorum {
        threshold: Fraction::percent(80),
        quorum: Fraction::percent(20),
    };
    let mut dao = setup_test_case(threshold, voting_period, &block);
    next_block(&mut block);

    let proposal_id1 = propose_pay_somebody(&mut dao, VOTER1, &block).unwrap().id;
    next_block(&mut block);
    let proposal_id2 = propose_pay_somebody(&mut dao, VOTER4, &block).unwrap().id;
    expire(voting_period, &mut block);
    let proposal_id3 = propose_pay_somebody(&mut dao, VOTER2, &block).unwrap().id;
    let proposed_at = block;

    next_block(&mut block);
    let list = dao.list_proposals(None, None, &block);
    assert_eq!(3, list.proposals.len());
    let info: Vec<_> = list.proposals.iter().map(|p| (p.id, p.status)).collect();
    assert_eq!(
        info,
        vec![
            (proposal_id1, Status::Rejected),
            (proposal_id2, Status::Passed),
            (proposal_id3, Status::Open),
        ]
    );

    let list = dao.reverse_proposals(None, Some(1), &block);
    assert_eq!(1, list.proposals.len());
    let prop = &list.proposals[0];
    assert_eq!(prop.id, proposal_id3);
    assert_eq!(prop.expires, voting_period.after(&proposed_at));
    assert_eq!(prop.status, Status::Open);
    assert_eq!(
        prop.threshold,
        ThresholdResponse::ThresholdQuorum {
            threshold: Fraction::percent(80),
            quorum: Fraction::percent(20),
            total_weight: 24,
        }
    );
}

#[test]
fn integration_nft_group_tests_test_vote_works() {
    let mut block = start_block();
    let voting_period = Duration::Time(2000000);
    let threshold = Threshold::ThresholdQuorum {
        threshold: Fraction::percent(51),
        quorum: Fraction::percent(1),
    };
    let mut dao = setup_test_case(threshold, voting_period, &block);
    next_block(&mut block);

    let res = propose_pay_somebody(&mut dao, OWNER, &block).unwrap();
    let proposal_id = res.id;

    // Without voting weight there is no voting.
    let err = dao.vote(&SOMEBODY.to_string(), proposal_id, Vote::Yes, &block).unwrap_err();
    assert_eq!(err, ContractError::Unauthorized);

    // A member votes,
    let status = dao.vote(&VOTER1.to_string(), proposal_id, Vote::Yes, &block).unwrap();
    assert_eq!(status, Status::Open);

    // but only once.
    let err = dao.vote(&VOTER1.to_string(), proposal_id, Vote::Yes, &block).unwrap_err();
    assert_eq!(err, ContractError::AlreadyVoted);

    // Only yes weight counts toward the tally.
    let tally = get_tally(&dao, proposal_id);
    assert_eq!(tally, 2);
    dao.vote(&VOTER2.to_string(), proposal_id, Vote::No, &block).unwrap();
    dao.vote(&VOTER3.to_string(), proposal_id, Vote::Veto, &block).unwrap();
    assert_eq!(tally, get_tally(&dao, proposal_id));

    // A no or veto ballot blocks a later yes just the same.
    let err = dao.vote(&VOTER3.to_string(), proposal_id, Vote::Yes, &block).unwrap_err();
    assert_eq!(err, ContractError::AlreadyVoted);

    // Expired proposals take no votes.
    expire(voting_period, &mut block);
    let err = dao.vote(&VOTER4.to_string(), proposal_id, Vote::Yes, &block).unwrap_err();
    assert_eq!(err, ContractError::Expired);
    unexpire(voting_period, &mut block);

    // The powerful voter supports it, so it passes.
    let status = dao.vote(&VOTER4.to_string(), proposal_id, Vote::Yes, &block).unwrap();
    assert_eq!(status, Status::Passed);

    // Passed proposals can still be voted while they live.
    let status = dao.vote(&VOTER5.to_string(), proposal_id, Vote::Yes, &block).unwrap();
    assert_eq!(status, Status::Passed);

    // Individual ballots are readable, with the weight they were cast
    // with.
    let vote = dao.query_vote(proposal_id, &OWNER.to_string()).unwrap().vote.unwrap();
    assert_eq!(vote.proposal_id, proposal_id);
    assert_eq!(vote.voter, OWNER);
    assert_eq!(vote.vote, Vote::Yes);
    assert_eq!(vote.weight, 1);

    let vote = dao.query_vote(proposal_id, &VOTER2.to_string()).unwrap().vote.unwrap();
    assert_eq!(vote.voter, VOTER2);
    assert_eq!(vote.vote, Vote::No);
    assert_eq!(vote.weight, 2);

    assert!(dao.query_vote(proposal_id, &SOMEBODY.to_string()).unwrap().vote.is_none());

    // A second proposal is opposed by the powerful voter and rejects.
    let res = propose_pay_somebody(&mut dao, OWNER, &block).unwrap();
    let proposal_id = res.id;
    dao.vote(&VOTER2.to_string(), proposal_id, Vote::No, &block).unwrap();
    let status = dao.vote(&VOTER4.to_string(), proposal_id, Vote::No, &block).unwrap();
    assert_eq!(status, Status::Rejected);

    // Rejected proposals can still be voted while they are not expired.
    let status = dao.vote(&VOTER5.to_string(), proposal_id, Vote::Yes, &block).unwrap();
    assert_eq!(status, Status::Rejected);
}

#[test]
fn integration_nft_group_tests_test_execute_works() {
    let mut block = start_block();
    let voting_period = Duration::Time(2000000);
    let threshold = Threshold::ThresholdQuorum {
        threshold: Fraction::percent(51),
        quorum: Fraction::percent(1),
    };
    let mut dao = setup_test_case(threshold, voting_period, &block);
    next_block(&mut block);

    let res = propose_pay_somebody(&mut dao, OWNER, &block).unwrap();
    let proposal_id = res.id;

    let err = dao.execute(&OWNER.to_string(), proposal_id, &block).unwrap_err();
    assert_eq!(err, ContractError::WrongExecuteStatus);

    let status = dao.vote(&VOTER4.to_string(), proposal_id, Vote::Yes, &block).unwrap();
    assert_eq!(status, Status::Passed);

    let err = dao.close(proposal_id, &block).unwrap_err();
    assert_eq!(err, ContractError::WrongCloseStatus);

    let msgs = dao.execute(&SOMEBODY.to_string(), proposal_id, &block).unwrap();
    assert_eq!(msgs, pay_somebody_payload());
    assert_eq!(
        dao.query_proposal(proposal_id, &block).unwrap().status,
        Status::Executed
    );

    let err = dao.close(proposal_id, &block).unwrap_err();
    assert_eq!(err, ContractError::WrongCloseStatus);
    let err = dao.execute(&SOMEBODY.to_string(), proposal_id, &block).unwrap_err();
    assert_eq!(err, ContractError::WrongExecuteStatus);
}

#[test]
fn integration_nft_group_tests_proposal_pass_on_expiration() {
    let mut block = start_block();
    let voting_period = 2000000u64;
    let threshold = Threshold::ThresholdQuorum {
        threshold: Fraction::percent(51),
        quorum: Fraction::percent(1),
    };
    let mut dao = setup_test_case(threshold, Duration::Time(voting_period), &block);
    next_block(&mut block);

    let res = propose_pay_somebody(&mut dao, OWNER, &block).unwrap();
    let proposal_id = res.id;

    let status = dao.vote(&VOTER3.to_string(), proposal_id, Vote::Yes, &block).unwrap();
    assert_eq!(status, Status::Open);

    block.time += voting_period * 1_000_000_000;
    block.height += voting_period / 5;

    let prop = dao.query_proposal(proposal_id, &block).unwrap();
    assert_eq!(prop.status, Status::Passed);

    let msgs = dao.execute(&SOMEBODY.to_string(), proposal_id, &block).unwrap();
    assert_eq!(msgs, pay_somebody_payload());
}

#[test]
fn integration_nft_group_tests_test_close_works() {
    let mut block = start_block();
    let voting_period = Duration::Height(2000000);
    let mut dao = setup_test_case(Threshold::AbsoluteCount { weight: 2 }, voting_period, &block);
    next_block(&mut block);

    let res = propose_pay_somebody(&mut dao, OWNER, &block).unwrap();
    let proposal_id = res.id;

    let err = dao.close(proposal_id, &block).unwrap_err();
    assert_eq!(err, ContractError::NotExpired);

    expire(voting_period, &mut block);
    dao.close(proposal_id, &block).unwrap();

    let err = dao.close(proposal_id, &block).unwrap_err();
    assert_eq!(err, ContractError::WrongCloseStatus);
}

#[test]
fn integration_nft_group_tests_quorum_enforced_even_if_absolute_threshold_met() {
    let mut block = start_block();
    let voting_period = Duration::Time(20000);
    let mut dao = setup_test_case(
        Threshold::ThresholdQuorum {
            threshold: Fraction::percent(60),
            quorum: Fraction::percent(80),
        },
        voting_period,
        &block,
    );
    next_block(&mut block);

    let res = propose_pay_somebody(&mut dao, VOTER5, &block).unwrap();
    let proposal_id = res.id;
    assert_eq!(res.status, Status::Open);
    block.height += 3;

    let status = dao.vote(&VOTER4.to_string(), proposal_id, Vote::Yes, &block).unwrap();
    assert_eq!(status, Status::Open);

    let status = dao.vote(&VOTER3.to_string(), proposal_id, Vote::No, &block).unwrap();
    assert_eq!(status, Status::Passed);
}
