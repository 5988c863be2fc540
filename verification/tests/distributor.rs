use basic_distributor::ContractError;
use basic_distributor::ContractEvents;
use basic_distributor::Distributor;
use basic_distributor::Identity;
use basic_distributor::ONE_DAY_LEDGERS;

#[test]
fn test_distribute() {
    let mut now: u32 = 100;
    let mut dist = Distributor::new();

    let token = Identity { id: 1 };
    let admin = Identity { id: 2 };
    let deadline = now + 90 * ONE_DAY_LEDGERS;

    let addr1 = Identity { id: 11 };
    let amount1: i128 = 1342345;
    let addr2 = Identity { id: 12 };
    let amount2: i128 = 89657234523425;
    let addr3 = Identity { id: 13 };
    let amount3: i128 = 7823412341;
    let addr4_no_claim = Identity { id: 14 };
    let amount4: i128 = 234521124;
    let addr5 = Identity { id: 15 };
    let amount5: i128 = 43512351345;
    let addr6_no_dist = Identity { id: 16 };

    // the host mints the full amount onto the contract's own token balance;
    // the balances are tracked here as the host's token service would
    let total_amount = amount1 + amount2 + amount3 + amount4 + amount5;
    let mut balance_dist: i128 = total_amount;
    let mut balance_addr1: i128 = 0;
    let mut balance_addr2: i128 = 0;
    let mut balance_addr3: i128 = 0;
    let balance_addr4: i128 = 0;
    let mut balance_addr5: i128 = 0;
    let mut balance_admin: i128 = 0;

    dist.initialize(now, token, deadline, admin).unwrap();

    dist.set_distribution(
        admin,
        vec![
            (addr1, amount1),
            (addr2, amount2),
            (addr3, amount3),
            (addr4_no_claim, amount4),
        ],
        now,
    )
    .unwrap();
    dist.set_distribution(admin, vec![(addr5, amount5)], now).unwrap();

    now += ONE_DAY_LEDGERS;

    // verify claim is blocked pre-finalize
    let result = dist.claim(addr1, addr1, now);
    assert_eq!(result.err(), Some(ContractError::NotFinalizedError));

    dist.finalize(admin, now).unwrap();

    // verify finalize and set_distribution cannot be called again
    let result = dist.finalize(admin, now);
    assert_eq!(result.err(), Some(ContractError::AlreadyFinalizedError));

    let result = dist.set_distribution(admin, vec![(addr6_no_dist, 1)], now);
    assert_eq!(result.err(), Some(ContractError::AlreadyFinalizedError));

    // verify claim
    let claim_amount_1 = dist.claim(addr1, addr1, now).unwrap();
    assert_eq!(claim_amount_1, amount1);
    // the host performs the transfer a successful claim calls for
    balance_dist -= claim_amount_1;
    balance_addr1 += claim_amount_1;

    // claim - validate the event handed to the host's sink
    let ev = ContractEvents::claim(addr1, claim_amount_1);
    assert_eq!(ev.topic(), "dist_claim");
    assert_eq!(ev.user, addr1);
    assert_eq!(ev.amount, claim_amount_1);

    // claim - validate chain results
    assert_eq!(balance_addr1, amount1);
    assert_eq!(balance_dist, total_amount - amount1);
    assert_eq!(dist.get_claimed(addr1), true);
    assert_eq!(dist.get_claimed(addr2), false);

    now += 89 * ONE_DAY_LEDGERS;

    assert_eq!(now, deadline);

    // verify claim cannot be re-run
    let result = dist.claim(addr1, addr1, now);
    assert_eq!(result.err(), Some(ContractError::AlreadyClaimedError));

    // verify claim errors for user without distribution
    let result = dist.claim(addr6_no_dist, addr6_no_dist, now);
    assert_eq!(result.err(), Some(ContractError::NoDistributionError));

    // claim for all users but addr4_no_claim
    let claim_amount_2 = dist.claim(addr2, addr2, now).unwrap();
    balance_dist -= claim_amount_2;
    balance_addr2 += claim_amount_2;
    let claim_amount_3 = dist.claim(addr3, addr3, now).unwrap();
    balance_dist -= claim_amount_3;
    balance_addr3 += claim_amount_3;
    let claim_amount_5 = dist.claim(addr5, addr5, now).unwrap();
    balance_dist -= claim_amount_5;
    balance_addr5 += claim_amount_5;

    // verify unclaimed tokens cannot be removed until after the deadline
    let result = dist.refund(now, balance_dist);
    assert_eq!(result.err(), Some(ContractError::DeadlineError));

    now += 1;

    // verify claim fails after deadline
    let result = dist.claim(addr4_no_claim, addr4_no_claim, now);
    assert_eq!(result.err(), Some(ContractError::DeadlineError));

    // verify refund; the host transfers the returned amount to the admin
    let refund_amount = dist.refund(now, balance_dist).unwrap();
    balance_dist -= refund_amount;
    balance_admin += refund_amount;

    // ***** verify tokens are correctly distributed *****

    assert_eq!(balance_addr1, amount1);
    assert_eq!(amount1, claim_amount_1);
    assert_eq!(balance_addr2, amount2);
    assert_eq!(amount2, claim_amount_2);
    assert_eq!(balance_addr3, amount3);
    assert_eq!(amount3, claim_amount_3);
    assert_eq!(balance_addr4, 0);
    assert_eq!(balance_addr5, amount5);
    assert_eq!(amount5, claim_amount_5);
    assert_eq!(balance_dist, 0);
    assert_eq!(balance_admin, refund_amount);
    assert_eq!(refund_amount, amount4);
}

#[test]
fn test_valid_initialize() {
    let now: u32 = 100;
    let mut dist = Distributor::new();

    let token = Identity { id: 1 };
    let admin = Identity { id: 2 };

    let low_deadline = now + 30 * ONE_DAY_LEDGERS - 1;
    let result_low = dist.initialize(now, token, low_deadline, admin);
    assert_eq!(result_low.err(), Some(ContractError::DeadlineError));

    let high_deadline = now + 90 * ONE_DAY_LEDGERS + 1;
    let result_high = dist.initialize(now, token, high_deadline, admin);
    assert_eq!(result_high.err(), Some(ContractError::DeadlineError));

    dist.initialize(now, token, low_deadline + 1, admin).unwrap();

    assert_eq!(dist.get_admin(), admin);
    assert_eq!(dist.get_deadline(), low_deadline + 1);
    assert_eq!(dist.get_token(), token);
}

#[test]
fn test_admin_only_functions() {
    let mut now: u32 = 100;
    let mut dist = Distributor::new();

    let token = Identity { id: 1 };
    let admin = Identity { id: 2 };
    let deadline = now + 45 * ONE_DAY_LEDGERS;

    dist.initialize(now, token, deadline, admin).unwrap();

    let amount: i128 = 123145;
    // minted to the contract by the host
    let mut balance_dist: i128 = amount;
    let addr1 = Identity { id: 11 };
    let distributions = vec![(addr1, amount)];

    // the authorization evidence is the caller identity each call carries:
    // with the admin as caller, the gated calls go through
    dist.set_distribution(admin, distributions, now).unwrap();

    dist.finalize(admin, now).unwrap();

    now += 45 * ONE_DAY_LEDGERS + 1;

    let new_admin = Identity { id: 3 };
    dist.set_admin(admin, new_admin).unwrap();

    // validate chain
    assert_eq!(dist.get_admin(), new_admin);

    // validate refund goes to current admin; refund itself needs no caller
    let refund_amount = dist.refund(now, balance_dist).unwrap();
    balance_dist -= refund_amount;
    let balance_new_admin: i128 = refund_amount;
    let balance_old_admin: i128 = 0;
    assert_eq!(balance_new_admin, refund_amount);
    assert_eq!(balance_old_admin, 0);
    assert_eq!(refund_amount, amount);
    assert_eq!(balance_dist, 0);
}
