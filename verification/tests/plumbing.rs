//! The plain value types around the engine: fractions, durations and
//! expirations, threshold validation, sibling-contract instantiation
//! messages, pagination cursors and the query dispatcher.

use sg_gov::dao::{Config, Dao, Metadata};
use sg_gov::error::ContractError;
use sg_gov::expiration::{BlockInfo, Duration, Expiration};
use sg_gov::math::Fraction;
use sg_gov::members::Member;
use sg_gov::msg::{Admin, Cw4Instantiate, Group, QueryMsg, QueryResponse, WasmMsg};
use sg_gov::threshold::{Status, Threshold, ThresholdResponse};

fn member(addr: &str, weight: u64) -> Member {
    Member { addr: addr.to_string(), weight }
}

fn metadata() -> Metadata {
    Metadata {
        name: "name".to_string(),
        description: "description".to_string(),
        image: "image".to_string(),
    }
}

fn block(height: u64, time: u64) -> BlockInfo {
    BlockInfo { height, time }
}

#[test]
fn fraction_percent_is_exact() {
    let f = Fraction::percent(80);
    assert_eq!(f.numerator, 80);
    assert_eq!(f.denominator, 100);
    assert!(f.is_valid_share());
    assert!(!Fraction::percent(0).is_valid_share());
    assert!(!Fraction::percent(101).is_valid_share());
    assert!(Fraction::percent(100).is_valid_share());
}

#[test]
fn threshold_validation_names_each_fault() {
    assert_eq!(
        Threshold::AbsoluteCount { weight: 0 }.validate(23),
        Err(ContractError::InvalidThreshold)
    );
    assert_eq!(
        Threshold::AbsoluteCount { weight: 24 }.validate(23),
        Err(ContractError::UnreachableWeight)
    );
    assert_eq!(Threshold::AbsoluteCount { weight: 23 }.validate(23), Ok(()));
    assert_eq!(
        Threshold::ThresholdQuorum {
            threshold: Fraction::percent(51),
            quorum: Fraction::percent(0),
        }
        .validate(23),
        Err(ContractError::InvalidThreshold)
    );
    assert_eq!(
        Threshold::ThresholdQuorum {
            threshold: Fraction::percent(101),
            quorum: Fraction::percent(10),
        }
        .validate(23),
        Err(ContractError::InvalidThreshold)
    );
    assert_eq!(
        Threshold::ThresholdQuorum {
            threshold: Fraction::percent(51),
            quorum: Fraction::percent(1),
        }
        .validate(23),
        Ok(())
    );
    assert_eq!(
        Threshold::AbsoluteCount { weight: 4 }.to_response(23),
        ThresholdResponse::AbsoluteCount { weight: 4, total_weight: 23 }
    );
}

#[test]
fn durations_resolve_and_expire_at_their_boundary() {
    let b = block(100, 1_000_000_000_000);

    let exp = Duration::Height(5).after(&b);
    assert_eq!(exp, Expiration::AtHeight(105));
    assert!(!exp.is_expired(&block(104, 0)));
    assert!(exp.is_expired(&block(105, 0)));

    let exp = Duration::Time(2).after(&b);
    assert_eq!(exp, Expiration::AtTime(1_002_000_000_000));
    assert!(!exp.is_expired(&block(0, 1_001_999_999_999)));
    assert!(exp.is_expired(&block(0, 1_002_000_000_000)));

    assert!(!Expiration::Never.is_expired(&block(u64::MAX, u64::MAX)));

    // An overflowing resolution saturates instead of wrapping.
    let exp = Duration::Height(u64::MAX).after(&b);
    assert_eq!(exp, Expiration::AtHeight(u64::MAX));

    // Only expirations of one unit compare.
    let h = Expiration::AtHeight(10);
    let t = Expiration::AtTime(10);
    assert_eq!(h.comparable_and_le(&Expiration::AtHeight(11)), Some(true));
    assert_eq!(h.comparable_and_le(&Expiration::AtHeight(9)), Some(false));
    assert_eq!(h.comparable_and_le(&t), None);
    assert_eq!(Expiration::Never.comparable_and_le(&t), None);
}

#[test]
fn explicit_expirations_are_capped_at_the_maximum() {
    let b = block(100, 1_000_000_000_000);
    let config = Config {
        threshold: Threshold::AbsoluteCount { weight: 1 },
        max_voting_period: Duration::Height(50),
        executor: None,
    };
    let mut dao =
        Dao::instantiate(config, metadata(), "admin".to_string(), &vec![member("alice", 1)], &b)
            .unwrap();

    // An explicit expiration below the maximum is kept,
    let id = dao
        .propose(
            &"alice".to_string(),
            "early".to_string(),
            "ends soon".to_string(),
            vec![],
            Some(Expiration::AtHeight(120)),
            &b,
        )
        .unwrap()
        .id;
    assert_eq!(dao.query_proposal(id, &b).unwrap().expires, Expiration::AtHeight(120));

    // one above it is clamped to the configured maximum,
    let id = dao
        .propose(
            &"alice".to_string(),
            "late".to_string(),
            "would end late".to_string(),
            vec![],
            Some(Expiration::AtHeight(500)),
            &b,
        )
        .unwrap()
        .id;
    assert_eq!(dao.query_proposal(id, &b).unwrap().expires, Expiration::AtHeight(150));

    // and a wall-clock expiration under a height-based period does not
    // fit at all.
    let err = dao
        .propose(
            &"alice".to_string(),
            "wrong unit".to_string(),
            "time against height".to_string(),
            vec![],
            Some(Expiration::AtTime(2_000_000_000_000)),
            &b,
        )
        .unwrap_err();
    assert_eq!(err, ContractError::WrongExpiration);
}

#[test]
fn into_wasm_msg_resolves_the_admin() {
    let init = Cw4Instantiate {
        code_id: 7,
        msg: b"group init".to_vec(),
        admin: Some(Admin::Address { addr: "boss".to_string() }),
        label: "test-group".to_string(),
    };
    match init.into_wasm_msg("creator".to_string()) {
        WasmMsg::Instantiate { admin, code_id, msg, label, funds } => {
            assert_eq!(admin, Some("boss".to_string()));
            assert_eq!(code_id, 7);
            assert_eq!(msg, b"group init".to_vec());
            assert_eq!(label, "test-group");
            assert!(funds.is_empty());
        },
    }

    let init = Cw4Instantiate {
        code_id: 8,
        msg: vec![],
        admin: Some(Admin::Creator),
        label: "creator-admin".to_string(),
    };
    match init.into_wasm_msg("creator".to_string()) {
        WasmMsg::Instantiate { admin, .. } => assert_eq!(admin, Some("creator".to_string())),
    }

    let init =
        Cw4Instantiate { code_id: 9, msg: vec![], admin: None, label: "no-admin".to_string() };
    match init.into_wasm_msg("creator".to_string()) {
        WasmMsg::Instantiate { admin, .. } => assert_eq!(admin, None),
    }

    // The group reference either instantiates or names an address.
    let group = Group::Cw4Address("group-contract".to_string());
    match group {
        Group::Cw4Address(addr) => assert_eq!(addr, "group-contract"),
        Group::Cw4Instantiate(_) => panic!("wrong variant"),
    }
}

#[test]
fn proposal_pages_follow_their_cursors() {
    let b = block(100, 1_000_000_000_000);
    let config = Config {
        threshold: Threshold::AbsoluteCount { weight: 1 },
        max_voting_period: Duration::Height(50),
        executor: None,
    };
    let mut dao =
        Dao::instantiate(config, metadata(), "admin".to_string(), &vec![member("alice", 1)], &b)
            .unwrap();
    for i in 0..12u64 {
        dao.propose(
            &"alice".to_string(),
            format!("proposal {}", i),
            "one of many".to_string(),
            vec![],
            None,
            &b,
        )
        .unwrap();
    }

    // The default page holds ten entries, ascending from one.
    let ids: Vec<u64> = dao.list_proposals(None, None, &b).proposals.iter().map(|p| p.id).collect();
    assert_eq!(ids, (1..=10).collect::<Vec<u64>>());

    // The cursor is exclusive.
    let ids: Vec<u64> =
        dao.list_proposals(Some(10), None, &b).proposals.iter().map(|p| p.id).collect();
    assert_eq!(ids, vec![11, 12]);

    // The reverse listing walks down, before its cursor.
    let ids: Vec<u64> =
        dao.reverse_proposals(None, Some(3), &b).proposals.iter().map(|p| p.id).collect();
    assert_eq!(ids, vec![12, 11, 10]);
    let ids: Vec<u64> =
        dao.reverse_proposals(Some(3), None, &b).proposals.iter().map(|p| p.id).collect();
    assert_eq!(ids, vec![2, 1]);

    // An oversized page wish is capped at thirty.
    for i in 12..40u64 {
        dao.propose(
            &"alice".to_string(),
            format!("proposal {}", i),
            "one of many".to_string(),
            vec![],
            None,
            &b,
        )
        .unwrap();
    }
    assert_eq!(dao.list_proposals(None, Some(99), &b).proposals.len(), 30);
}

#[test]
fn ballot_pages_follow_their_cursors() {
    let b = block(100, 1_000_000_000_000);
    let config = Config {
        threshold: Threshold::AbsoluteCount { weight: 6 },
        max_voting_period: Duration::Height(50),
        executor: None,
    };
    let roster = vec![member("alice", 1), member("bob", 2), member("carol", 3)];
    let mut dao =
        Dao::instantiate(config, metadata(), "admin".to_string(), &roster, &b).unwrap();
    dao.propose(
        &"alice".to_string(),
        "a title".to_string(),
        "a description".to_string(),
        vec![],
        None,
        &b,
    )
    .unwrap();
    dao.vote(&"bob".to_string(), 1, sg_gov::votes::Vote::No, &b).unwrap();
    dao.vote(&"carol".to_string(), 1, sg_gov::votes::Vote::Abstain, &b).unwrap();

    // Ballots come back in cast order; the cursor is exclusive.
    let all = dao.list_votes(1, None, None).unwrap();
    let voters: Vec<String> = all.votes.iter().map(|v| v.voter.clone()).collect();
    assert_eq!(voters, vec!["alice".to_string(), "bob".to_string(), "carol".to_string()]);

    let page = dao.list_votes(1, Some(&"alice".to_string()), Some(1)).unwrap();
    assert_eq!(page.votes.len(), 1);
    assert_eq!(page.votes[0].voter, "bob");
    assert_eq!(page.votes[0].weight, 2);

    // An unknown cursor yields an empty page.
    let page = dao.list_votes(1, Some(&"nobody".to_string()), None).unwrap();
    assert!(page.votes.is_empty());
}

#[test]
fn query_dispatcher_answers_each_variant() {
    let b = block(100, 1_000_000_000_000);
    let config = Config {
        threshold: Threshold::AbsoluteCount { weight: 1 },
        max_voting_period: Duration::Height(50),
        executor: None,
    };
    let mut dao =
        Dao::instantiate(config, metadata(), "admin".to_string(), &vec![member("alice", 1)], &b)
            .unwrap();
    dao.propose(
        &"alice".to_string(),
        "a title".to_string(),
        "a description".to_string(),
        vec![b"payload".to_vec()],
        None,
        &b,
    )
    .unwrap();

    match dao.query(&QueryMsg::Threshold, &b).unwrap() {
        QueryResponse::Threshold(t) => {
            assert_eq!(t, ThresholdResponse::AbsoluteCount { weight: 1, total_weight: 1 });
        },
        _ => panic!("wrong answer variant"),
    }
    match dao.query(&QueryMsg::Proposal { proposal_id: 1 }, &b).unwrap() {
        QueryResponse::Proposal(p) => {
            assert_eq!(p.id, 1);
            assert_eq!(p.title, "a title");
            assert_eq!(p.status, Status::Passed);
        },
        _ => panic!("wrong answer variant"),
    }
    match dao.query(&QueryMsg::Vote { proposal_id: 1, voter: "alice".to_string() }, &b).unwrap() {
        QueryResponse::Vote(v) => {
            let info = v.vote.unwrap();
            assert_eq!(info.weight, 1);
        },
        _ => panic!("wrong answer variant"),
    }
    match dao.query(&QueryMsg::Voter { address: "nobody".to_string() }, &b).unwrap() {
        QueryResponse::Voter(v) => assert_eq!(v.weight, None),
        _ => panic!("wrong answer variant"),
    }
    match dao.query(&QueryMsg::ListVoters { start_after: None, limit: None }, &b).unwrap() {
        QueryResponse::Voters(v) => assert_eq!(v.voters.len(), 1),
        _ => panic!("wrong answer variant"),
    }
    match dao.query(&QueryMsg::Group, &b).unwrap() {
        QueryResponse::Group(g) => assert_eq!(g.group, "admin"),
        _ => panic!("wrong answer variant"),
    }
    match dao.query(&QueryMsg::Metadata, &b).unwrap() {
        QueryResponse::Metadata(m) => {
            assert_eq!(m.name, "name");
            assert_eq!(m.description, "description");
            assert_eq!(m.image, "image");
        },
        _ => panic!("wrong answer variant"),
    }
    let err = dao.query(&QueryMsg::Proposal { proposal_id: 9 }, &b).unwrap_err();
    assert_eq!(err, ContractError::NoSuchProposal);

    let cfg = dao.query_config();
    assert_eq!(cfg.threshold, Threshold::AbsoluteCount { weight: 1 });
    assert_eq!(cfg.max_voting_period, Duration::Height(50));
    assert!(cfg.executor.is_none());

    assert_eq!(dao.query_staked(&"alice".to_string()).num_tokens, 1);
    assert_eq!(dao.query_staked(&"nobody".to_string()).num_tokens, 0);
}
