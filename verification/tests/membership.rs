//! Membership changes and the height-indexed snapshot store: votes are
//! tallied against the membership that existed when a proposal was
//! opened, never the membership at vote time.

use sg_gov::dao::{Config, Dao, Metadata};
use sg_gov::error::ContractError;
use sg_gov::expiration::{BlockInfo, Duration};
use sg_gov::math::Fraction;
use sg_gov::members::{Member, MemberStore};
use sg_gov::threshold::{Status, Threshold, ThresholdResponse};
use sg_gov::votes::Vote;

const OWNER: &str = "admin0001";
const VOTER1: &str = "voter0001";
const VOTER2: &str = "voter0002";
const VOTER3: &str = "voter0003";
const VOTER4: &str = "voter0004";
const VOTER5: &str = "voter0005";
const NEWBIE: &str = "newbie";

fn member(addr: &str, weight: u64) -> Member {
    Member { addr: addr.to_string(), weight }
}

fn metadata() -> Metadata {
    Metadata {
        name: "name".to_string(),
        description: "description".to_string(),
        image: "image".to_string(),
    }
}

fn start_block() -> BlockInfo {
    BlockInfo { height: 12_345, time: 1_571_797_419_879_305_533 }
}

fn roster() -> Vec<Member> {
    vec![
        member(OWNER, 0),
        member(VOTER1, 1),
        member(VOTER2, 2),
        member(VOTER3, 3),
        member(VOTER4, 12),
        member(VOTER5, 5),
    ]
}

fn setup_test_case(threshold: Threshold, max_voting_period: Duration, block: &BlockInfo) -> Dao {
    let config = Config { threshold, max_voting_period, executor: None };
    Dao::instantiate(config, metadata(), OWNER.to_string(), &roster(), block).unwrap()
}

fn pay_somebody_payload() -> Vec<Vec<u8>> {
    vec![b"send 1 BTC to somebody".to_vec()]
}

fn propose_pay_somebody(
    dao: &mut Dao,
    sender: &str,
    block: &BlockInfo,
) -> Result<sg_gov::dao::ProposeResponse, ContractError> {
    dao.propose(
        &sender.to_string(),
        "Pay somebody".to_string(),
        "Do I pay her?".to_string(),
        pay_somebody_payload(),
        None,
        block,
    )
}

fn prop_status(dao: &Dao, proposal_id: u64, block: &BlockInfo) -> Status {
    dao.query_proposal(proposal_id, block).unwrap().status
}

// Votes use the power snapshotted at the beginning of the voting period.
#[test]
fn execute_group_changes_from_external() {
    let mut block = start_block();
    let voting_period = Duration::Time(20000);
    let threshold = Threshold::ThresholdQuorum {
        threshold: Fraction::percent(51),
        quorum: Fraction::percent(1),
    };
    let mut dao = setup_test_case(threshold, voting_period, &block);
    block.height += 1;

    // A light voter opens a proposal.
    let proposal_id = propose_pay_somebody(&mut dao, VOTER1, &block).unwrap().id;
    assert_eq!(prop_status(&dao, proposal_id, &block), Status::Open);

    assert_eq!(
        dao.query_threshold(),
        ThresholdResponse::ThresholdQuorum {
            threshold: Fraction::percent(51),
            quorum: Fraction::percent(1),
            total_weight: 23,
        }
    );

    // A few blocks later the provider changes the group: one voter
    // grows mighty, a newcomer joins, one voter is removed.
    block.height += 2;
    dao.update_members(
        &OWNER.to_string(),
        &vec![VOTER3.to_string()],
        &vec![member(VOTER2, 21), member(NEWBIE, 2)],
        &block,
    )
    .unwrap();

    // The removed voter has no current weight,
    assert_eq!(dao.query_voter(&VOTER3.to_string()).weight, None);
    assert_eq!(dao.query_member(&VOTER3.to_string(), None).weight, None);
    // but the snapshot from before the change still shows it.
    assert_eq!(
        dao.query_member(&VOTER3.to_string(), Some(block.height - 1)).weight,
        Some(3)
    );
    assert_eq!(dao.query_total_weight().weight, 41);
    assert_eq!(dao.list_members(None, None).members.len(), 6);
    // and the old proposal is still open.
    assert_eq!(prop_status(&dao, proposal_id, &block), Status::Open);

    // A proposal opened after the change sees the new weights: the
    // grown voter passes it alone.
    block.height += 3;
    let proposal_id2 = propose_pay_somebody(&mut dao, VOTER1, &block).unwrap().id;
    dao.vote(&VOTER2.to_string(), proposal_id2, Vote::Yes, &block).unwrap();
    assert_eq!(prop_status(&dao, proposal_id2, &block), Status::Passed);

    // On the old proposal the same voter still weighs what the snapshot
    // says, which is not enough.
    dao.vote(&VOTER2.to_string(), proposal_id, Vote::Yes, &block).unwrap();
    assert_eq!(prop_status(&dao, proposal_id, &block), Status::Open);

    // The newcomer has no weight at the old snapshot and cannot vote
    // there.
    let err = dao.vote(&NEWBIE.to_string(), proposal_id, Vote::Yes, &block).unwrap_err();
    assert_eq!(err, ContractError::Unauthorized);

    // The removed voter still can: removal came after the snapshot.
    dao.vote(&VOTER3.to_string(), proposal_id, Vote::Yes, &block).unwrap();

    // The global threshold view follows the live total.
    assert_eq!(
        dao.query_threshold(),
        ThresholdResponse::ThresholdQuorum {
            threshold: Fraction::percent(51),
            quorum: Fraction::percent(1),
            total_weight: 41,
        }
    );
}

// A passed proposal's payload can carry the membership change itself;
// the host dispatches it back into the engine.
#[test]
fn execute_group_changes_from_proposal() {
    let mut block = start_block();
    let voting_period = Duration::Time(20000);
    let mut dao = setup_test_case(Threshold::AbsoluteCount { weight: 4 }, voting_period, &block);
    block.height += 1;

    // Propose removing a voter from the group.
    let update_proposal_id = dao
        .propose(
            &VOTER1.to_string(),
            "Kick out the voter".to_string(),
            "He's trying to steal our money".to_string(),
            vec![b"update members: remove voter0003".to_vec()],
            None,
            &block,
        )
        .unwrap()
        .id;

    block.height += 1;
    let cash_proposal_id = propose_pay_somebody(&mut dao, VOTER1, &block).unwrap().id;
    assert_ne!(cash_proposal_id, update_proposal_id);
    assert_eq!(prop_status(&dao, cash_proposal_id, &block), Status::Open);
    assert_eq!(prop_status(&dao, update_proposal_id, &block), Status::Open);

    // Pass and execute the removal; the host carries the payload out by
    // updating the membership.
    block.height += 1;
    dao.vote(&VOTER4.to_string(), update_proposal_id, Vote::Yes, &block).unwrap();
    let msgs = dao.execute(&VOTER4.to_string(), update_proposal_id, &block).unwrap();
    assert_eq!(msgs, vec![b"update members: remove voter0003".to_vec()]);
    dao.update_members(&OWNER.to_string(), &vec![VOTER3.to_string()], &vec![], &block).unwrap();

    assert_eq!(prop_status(&dao, update_proposal_id, &block), Status::Executed);
    assert_eq!(prop_status(&dao, cash_proposal_id, &block), Status::Open);

    // The removed voter still passes the older proposal with his
    // snapshotted weight,
    block.height += 1;
    dao.vote(&VOTER3.to_string(), cash_proposal_id, Vote::Yes, &block).unwrap();
    assert_eq!(prop_status(&dao, cash_proposal_id, &block), Status::Passed);

    // but cannot open a new one,
    let err = propose_pay_somebody(&mut dao, VOTER3, &block).unwrap_err();
    assert_eq!(err, ContractError::Unauthorized);

    // and nobody but the provider may touch the membership.
    let err = dao
        .update_members(&VOTER2.to_string(), &vec![VOTER1.to_string()], &vec![], &block)
        .unwrap_err();
    assert_eq!(err, ContractError::Unauthorized);
}

// Votes use the power from the beginning of the voting period.
#[test]
fn percentage_handles_group_changes() {
    let mut block = start_block();
    let voting_period = Duration::Time(20000);
    let threshold = Threshold::ThresholdQuorum {
        threshold: Fraction::percent(51),
        quorum: Fraction::percent(1),
    };
    let mut dao = setup_test_case(threshold, voting_period, &block);
    block.height += 1;

    // The proposer holds three of twenty-three units.
    let proposal_id = propose_pay_somebody(&mut dao, VOTER3, &block).unwrap().id;
    assert_eq!(prop_status(&dao, proposal_id, &block), Status::Open);

    // The provider reshapes the group.
    block.height += 2;
    dao.update_members(
        &OWNER.to_string(),
        &vec![VOTER3.to_string()],
        &vec![member(VOTER2, 9), member(NEWBIE, 29)],
        &block,
    )
    .unwrap();

    // Under the snapshot the supporting vote stays below the bar.
    block.height += 3;
    dao.vote(&VOTER2.to_string(), proposal_id, Vote::Yes, &block).unwrap();
    assert_eq!(prop_status(&dao, proposal_id, &block), Status::Open);

    // A fresh proposal is passed single-handedly by the newcomer.
    let res = propose_pay_somebody(&mut dao, NEWBIE, &block).unwrap();
    assert_eq!(prop_status(&dao, res.id, &block), Status::Passed);
}

// Quorum is measured against the total weight from the proposal's
// creation.
#[test]
fn quorum_handles_group_changes() {
    let mut block = start_block();
    let voting_period = Duration::Time(20000);
    let mut dao = setup_test_case(
        Threshold::ThresholdQuorum {
            threshold: Fraction::percent(51),
            quorum: Fraction::percent(33),
        },
        voting_period,
        &block,
    );
    block.height += 1;

    let proposal_id = propose_pay_somebody(&mut dao, VOTER3, &block).unwrap().id;
    assert_eq!(prop_status(&dao, proposal_id, &block), Status::Open);

    block.height += 2;
    dao.update_members(
        &OWNER.to_string(),
        &vec![VOTER3.to_string()],
        &vec![member(VOTER2, 9), member(NEWBIE, 29)],
        &block,
    )
    .unwrap();

    // The snapshotted participation stays below the quorum,
    block.height += 3;
    dao.vote(&VOTER2.to_string(), proposal_id, Vote::Yes, &block).unwrap();
    assert_eq!(prop_status(&dao, proposal_id, &block), Status::Open);

    // so at expiry the proposal is rejected.
    block.time += 20001 * 1_000_000_000;
    assert_eq!(prop_status(&dao, proposal_id, &block), Status::Rejected);
}

#[test]
fn weight_at_answers_from_the_latest_checkpoint_at_or_below() {
    let a = "alice".to_string();
    let mut store = MemberStore::new();
    store.set(&a, Some(5), 100).unwrap();
    store.set(&a, Some(7), 200).unwrap();
    store.set(&a, None, 300).unwrap();
    store.set(&a, Some(2), 400).unwrap();

    // Below the first checkpoint there is nothing.
    assert_eq!(store.weight_at(&a, 99), None);
    // From each checkpoint on, its value holds until the next one.
    assert_eq!(store.weight_at(&a, 100), Some(5));
    assert_eq!(store.weight_at(&a, 199), Some(5));
    assert_eq!(store.weight_at(&a, 200), Some(7));
    assert_eq!(store.weight_at(&a, 299), Some(7));
    // A removal is a checkpoint like any other.
    assert_eq!(store.weight_at(&a, 300), None);
    assert_eq!(store.weight_at(&a, 400), Some(2));
    assert_eq!(store.weight_at(&a, u64::MAX), Some(2));
    assert_eq!(store.weight(&a), Some(2));

    // Checkpoints written later never change an answer below them.
    let asked = store.weight_at(&a, 250);
    store.set(&a, Some(90), 500).unwrap();
    assert_eq!(store.weight_at(&a, 250), asked);

    // Writing below the latest checkpoint is a fatal internal error.
    assert_eq!(store.set(&a, Some(1), 450), Err(ContractError::InvalidHeight));

    // A second write within one height replaces the checkpoint.
    store.set(&a, Some(91), 500).unwrap();
    assert_eq!(store.weight_at(&a, 500), Some(91));
    assert_eq!(store.weight_at(&a, 499), Some(2));
}

#[test]
fn total_weight_tracks_every_update() {
    let mut store = MemberStore::new();
    let a = "alice".to_string();
    let b = "bob".to_string();
    let c = "carol".to_string();
    assert_eq!(store.total_weight(), 0);

    store.set(&a, Some(5), 10).unwrap();
    store.set(&b, Some(7), 10).unwrap();
    assert_eq!(store.total_weight(), 12);

    // Replacing a weight moves the total by the difference.
    store.set(&a, Some(1), 20).unwrap();
    assert_eq!(store.total_weight(), 8);

    // A removal subtracts the whole weight; zero is a weight like any
    // other and distinct from absence.
    store.set(&b, None, 30).unwrap();
    store.set(&c, Some(0), 30).unwrap();
    assert_eq!(store.total_weight(), 1);
    assert_eq!(store.weight(&b), None);
    assert_eq!(store.weight(&c), Some(0));

    // The aggregate never exceeds its range silently.
    store.set(&c, Some(u64::MAX - 1), 40).unwrap();
    assert_eq!(store.total_weight(), u64::MAX);
    assert_eq!(store.set(&a, Some(2), 50), Err(ContractError::Overflow));
    assert_eq!(store.total_weight(), u64::MAX);
}

#[test]
fn listing_reports_current_members_in_first_seen_order() {
    let mut store = MemberStore::new();
    store.set(&"alice".to_string(), Some(5), 10).unwrap();
    store.set(&"bob".to_string(), Some(0), 10).unwrap();
    store.set(&"carol".to_string(), Some(3), 10).unwrap();
    store.set(&"bob".to_string(), None, 20).unwrap();

    // The removed member is gone, the zero-weight one would stay.
    let all = store.list_members(None, None);
    let pairs: Vec<(String, u64)> = all.iter().map(|m| (m.addr.clone(), m.weight)).collect();
    assert_eq!(pairs, vec![("alice".to_string(), 5), ("carol".to_string(), 3)]);

    // The page size caps the answer.
    let page = store.list_members(None, Some(1));
    assert_eq!(page.len(), 1);
    assert_eq!(page[0].addr, "alice");

    // The cursor is exclusive: everything sorting strictly after it,
    // whether or not the cursor itself is listed.
    let page = store.list_members(Some(&"alice".to_string()), None);
    assert_eq!(page.len(), 1);
    assert_eq!(page[0].addr, "carol");
    let page = store.list_members(Some(&"aaa".to_string()), None);
    assert_eq!(page.len(), 2);
    assert_eq!(page[0].addr, "alice");
    let page = store.list_members(Some(&"zzz".to_string()), None);
    assert!(page.is_empty());
}

#[test]
fn resync_rebuilds_the_roster_idempotently() {
    let mut block = start_block();
    let voting_period = Duration::Time(20000);
    let mut dao = setup_test_case(Threshold::AbsoluteCount { weight: 4 }, voting_period, &block);
    block.height += 1;

    // The source of truth now says: one grown member, one newcomer,
    // everyone else gone.
    let truth = vec![member(VOTER2, 9), member(NEWBIE, 7)];
    let err = dao.resync(&VOTER1.to_string(), &truth, &block).unwrap_err();
    assert_eq!(err, ContractError::Unauthorized);
    dao.resync(&OWNER.to_string(), &truth, &block).unwrap();

    assert_eq!(dao.query_voter(&VOTER2.to_string()).weight, Some(9));
    assert_eq!(dao.query_voter(&NEWBIE.to_string()).weight, Some(7));
    assert_eq!(dao.query_voter(&VOTER1.to_string()).weight, None);
    assert_eq!(dao.query_voter(&VOTER4.to_string()).weight, None);
    assert_eq!(dao.members.total, 16);

    // Snapshots below the sweep still answer from the old roster.
    assert_eq!(dao.members.weight_at(&VOTER4.to_string(), block.height - 1), Some(12));

    // Running the same sweep again changes nothing observable.
    let listing_once: Vec<(String, u64)> = dao
        .list_voters(None, None)
        .voters
        .iter()
        .map(|v| (v.addr.clone(), v.weight))
        .collect();
    dao.resync(&OWNER.to_string(), &truth, &block).unwrap();
    let listing_twice: Vec<(String, u64)> = dao
        .list_voters(None, None)
        .voters
        .iter()
        .map(|v| (v.addr.clone(), v.weight))
        .collect();
    assert_eq!(listing_once, listing_twice);
    assert_eq!(dao.members.total, 16);
    assert_eq!(dao.members.weight_at(&VOTER4.to_string(), block.height - 1), Some(12));
}

#[test]
fn token_counts_move_member_weights_one_by_one() {
    let block = start_block();
    let config = Config {
        threshold: Threshold::AbsoluteCount { weight: 1 },
        max_voting_period: Duration::Time(2000000),
        executor: None,
    };
    let mut dao =
        Dao::instantiate(config, metadata(), OWNER.to_string(), &vec![member(OWNER, 1)], &block)
            .unwrap();
    let mut block = block;
    block.height += 1;

    // Receiving a token makes a first-time sender a member of weight
    // one; further tokens add one each.
    let staker = "staker".to_string();
    assert_eq!(dao.add_member_weight(&OWNER.to_string(), &staker, &block), Ok(1));
    block.height += 1;
    assert_eq!(dao.add_member_weight(&OWNER.to_string(), &staker, &block), Ok(2));
    assert_eq!(dao.query_staked(&staker).num_tokens, 2);

    // Giving a token back lowers the weight; the last one leaves a
    // non-voting member of weight zero, not an absent one.
    block.height += 1;
    assert_eq!(dao.remove_member_weight(&OWNER.to_string(), &staker, &block), Ok(1));
    assert_eq!(dao.remove_member_weight(&OWNER.to_string(), &staker, &block), Ok(0));
    assert_eq!(dao.query_voter(&staker).weight, Some(0));

    // Below zero there is nothing to give back.
    let err = dao.remove_member_weight(&OWNER.to_string(), &staker, &block).unwrap_err();
    assert_eq!(err, ContractError::Overflow);

    // Only the provider may move weights.
    let err = dao.add_member_weight(&staker.clone(), &staker, &block).unwrap_err();
    assert_eq!(err, ContractError::Unauthorized);
}
