use crowdfunding::contract::CrowdfundingContract;
use crowdfunding::progress::funding_progress;
use crowdfunding::types::{Address, Authorization, CrowdfundingError, Investment};

fn open_company(
    ledger: &mut CrowdfundingContract,
    founder: Address,
    target: i128,
    category: &str,
) -> u64 {
    ledger
        .create_company(
            &Authorization::new(founder),
            founder,
            String::from("Test Company"),
            String::from("Test Description"),
            target,
            String::from(category),
        )
        .unwrap()
}

fn invest(
    ledger: &mut CrowdfundingContract,
    investor: Address,
    company_id: u64,
    amount: i128,
) -> Result<bool, CrowdfundingError> {
    ledger.invest(&Authorization::new(investor), investor, company_id, amount, 0)
}

#[test]
fn test_create_company() {
    let mut ledger = CrowdfundingContract::initialize();
    let founder = Address::new(1);
    let company_id = open_company(&mut ledger, founder, 1000000, "teknoloji");
    assert_eq!(company_id, 1);

    let company = ledger.get_company(company_id).unwrap();
    assert_eq!(company.name, String::from("Test Company"));
    assert_eq!(company.target_amount, 1000000i128);
    assert_eq!(company.current_amount, 0i128);
    assert_eq!(company.founder, founder);
    assert!(company.is_active);
}

#[test]
fn test_invest() {
    let mut ledger = CrowdfundingContract::initialize();
    let founder = Address::new(1);
    let investor = Address::new(2);
    let company_id = open_company(&mut ledger, founder, 1000000, "teknoloji");

    assert_eq!(invest(&mut ledger, investor, company_id, 50000), Ok(true));

    let company = ledger.get_company(company_id).unwrap();
    assert_eq!(company.current_amount, 50000i128);
    assert!(company.is_active);
    assert_eq!(ledger.get_investor_investment(company_id, investor), 50000i128);
}

#[test]
fn test_funding_completion() {
    let mut ledger = CrowdfundingContract::initialize();
    let founder = Address::new(1);
    let investor = Address::new(2);
    let company_id = open_company(&mut ledger, founder, 100000, "teknoloji");

    assert_eq!(invest(&mut ledger, investor, company_id, 100000), Ok(true));

    let company = ledger.get_company(company_id).unwrap();
    assert_eq!(company.current_amount, 100000i128);
    assert!(!company.is_active);
    assert!(ledger.is_funding_completed(company_id));
    assert_eq!(ledger.get_funding_progress(company_id), 10000);
}

#[test]
fn test_investment_exceeds_target() {
    let mut ledger = CrowdfundingContract::initialize();
    let founder = Address::new(1);
    let investor = Address::new(2);
    let company_id = open_company(&mut ledger, founder, 100000, "teknoloji");

    assert_eq!(
        invest(&mut ledger, investor, company_id, 150000),
        Err(CrowdfundingError::ExceedsTarget)
    );
    let company = ledger.get_company(company_id).unwrap();
    assert_eq!(company.current_amount, 0);
    assert!(company.is_active);
    assert!(ledger.get_company_investments(company_id).is_empty());
    assert_eq!(ledger.get_investor_investment(company_id, investor), 0);
}

#[test]
fn test_negative_investment() {
    let mut ledger = CrowdfundingContract::initialize();
    let founder = Address::new(1);
    let investor = Address::new(2);
    let company_id = open_company(&mut ledger, founder, 100000, "teknoloji");

    assert_eq!(
        invest(&mut ledger, investor, company_id, -1000),
        Err(CrowdfundingError::NonPositiveAmount)
    );
    assert_eq!(ledger.get_company(company_id).unwrap().current_amount, 0);
}

#[test]
fn test_multiple_investors() {
    let mut ledger = CrowdfundingContract::initialize();
    let founder = Address::new(1);
    let investor1 = Address::new(2);
    let investor2 = Address::new(3);
    let company_id = open_company(&mut ledger, founder, 200000, "teknoloji");

    assert_eq!(invest(&mut ledger, investor1, company_id, 50000), Ok(true));
    assert_eq!(invest(&mut ledger, investor2, company_id, 75000), Ok(true));
    assert_eq!(invest(&mut ledger, investor1, company_id, 25000), Ok(true));

    let company = ledger.get_company(company_id).unwrap();
    assert_eq!(company.current_amount, 150000i128);
    assert!(company.is_active);
    assert_eq!(ledger.get_investor_investment(company_id, investor1), 75000i128);
    assert_eq!(ledger.get_investor_investment(company_id, investor2), 75000i128);
}

#[test]
fn zero_amount_is_refused() {
    let mut ledger = CrowdfundingContract::initialize();
    let company_id = open_company(&mut ledger, Address::new(1), 100, "a");
    assert_eq!(
        invest(&mut ledger, Address::new(2), company_id, 0),
        Err(CrowdfundingError::NonPositiveAmount)
    );
}

#[test]
fn unknown_company_is_refused() {
    let mut ledger = CrowdfundingContract::initialize();
    assert_eq!(
        invest(&mut ledger, Address::new(2), 1, 10),
        Err(CrowdfundingError::CompanyNotFound)
    );
    open_company(&mut ledger, Address::new(1), 100, "a");
    assert_eq!(
        invest(&mut ledger, Address::new(2), 0, 10),
        Err(CrowdfundingError::CompanyNotFound)
    );
    assert_eq!(
        invest(&mut ledger, Address::new(2), 2, 10),
        Err(CrowdfundingError::CompanyNotFound)
    );
    assert!(ledger.get_company(2).is_none());
    assert!(ledger.get_company(0).is_none());
}

#[test]
fn unauthorized_calls_change_nothing() {
    let mut ledger = CrowdfundingContract::initialize();
    let founder = Address::new(1);
    let other = Address::new(9);
    assert_eq!(
        ledger.create_company(
            &Authorization::new(other),
            founder,
            String::from("n"),
            String::from("d"),
            100,
            String::from("c"),
        ),
        Err(CrowdfundingError::Unauthorized)
    );
    assert_eq!(ledger.get_company_count(), 0);
    let company_id = open_company(&mut ledger, founder, 100, "c");
    assert_eq!(
        ledger.invest(&Authorization::new(other), Address::new(2), company_id, 10, 0),
        Err(CrowdfundingError::Unauthorized)
    );
    assert_eq!(
        ledger.deactivate_company(&Authorization::new(other), founder, company_id),
        Err(CrowdfundingError::Unauthorized)
    );
    let company = ledger.get_company(company_id).unwrap();
    assert_eq!(company.current_amount, 0);
    assert!(company.is_active);
}

#[test]
fn closed_company_refuses_any_amount() {
    let mut ledger = CrowdfundingContract::initialize();
    let founder = Address::new(1);
    let company_id = open_company(&mut ledger, founder, 100, "a");
    assert_eq!(invest(&mut ledger, Address::new(2), company_id, 100), Ok(true));
    assert_eq!(
        invest(&mut ledger, Address::new(2), company_id, 1),
        Err(CrowdfundingError::CompanyNotActive)
    );
    assert_eq!(
        invest(&mut ledger, Address::new(3), company_id, -5),
        Err(CrowdfundingError::NonPositiveAmount)
    );

    let second = open_company(&mut ledger, founder, 1000, "a");
    assert_eq!(
        ledger.deactivate_company(&Authorization::new(founder), founder, second),
        Ok(true)
    );
    assert_eq!(
        invest(&mut ledger, Address::new(2), second, 10),
        Err(CrowdfundingError::CompanyNotActive)
    );
    assert_eq!(ledger.get_company(second).unwrap().current_amount, 0);
}

#[test]
fn non_founder_cannot_deactivate() {
    let mut ledger = CrowdfundingContract::initialize();
    let founder = Address::new(1);
    let stranger = Address::new(5);
    let company_id = open_company(&mut ledger, founder, 100, "a");
    assert_eq!(
        ledger.deactivate_company(&Authorization::new(stranger), stranger, company_id),
        Err(CrowdfundingError::NotFounder)
    );
    assert!(ledger.get_company(company_id).unwrap().is_active);
}

#[test]
fn deactivate_missing_or_closed_company() {
    let mut ledger = CrowdfundingContract::initialize();
    let founder = Address::new(1);
    let auth = Authorization::new(founder);
    assert_eq!(ledger.deactivate_company(&auth, founder, 1), Ok(false));
    let company_id = open_company(&mut ledger, founder, 100, "a");
    assert_eq!(ledger.deactivate_company(&auth, founder, company_id), Ok(true));
    assert_eq!(ledger.deactivate_company(&auth, founder, company_id), Ok(true));
    assert!(!ledger.get_company(company_id).unwrap().is_active);
}

#[test]
fn ids_are_dense_from_one() {
    let mut ledger = CrowdfundingContract::initialize();
    for expected in 1..=20u64 {
        let id = open_company(&mut ledger, Address::new(expected), 100, "a");
        assert_eq!(id, expected);
    }
    assert_eq!(ledger.get_company_count(), 20);
    let all = ledger.get_all_companies();
    assert_eq!(all.len(), 20);
    for (i, company) in all.iter().enumerate() {
        assert_eq!(company.id, i as u64 + 1);
    }
}

#[test]
fn raised_equals_sum_of_investments() {
    let mut ledger = CrowdfundingContract::initialize();
    let company_id = open_company(&mut ledger, Address::new(1), 1000, "a");
    let other = open_company(&mut ledger, Address::new(1), 1000, "a");
    let amounts = [10i128, 250, 3, 400, 7];
    for (i, amount) in amounts.iter().enumerate() {
        let investor = Address::new(10 + (i as u64 % 2));
        assert_eq!(invest(&mut ledger, investor, company_id, *amount), Ok(true));
    }
    assert_eq!(invest(&mut ledger, Address::new(10), other, 99), Ok(true));
    assert_eq!(invest(&mut ledger, Address::new(10), company_id, 400), Err(CrowdfundingError::ExceedsTarget));

    let company = ledger.get_company(company_id).unwrap();
    let records = ledger.get_company_investments(company_id);
    let sum: i128 = records.iter().map(|r| r.amount).sum();
    assert_eq!(company.current_amount, 670);
    assert_eq!(sum, company.current_amount);
    assert!(company.current_amount <= company.target_amount);
    assert_eq!(ledger.get_investor_investment(company_id, Address::new(10)), 10 + 3 + 7);
    assert_eq!(ledger.get_investor_investment(company_id, Address::new(11)), 250 + 400);
    assert_eq!(ledger.get_investor_investment(other, Address::new(10)), 99);
    assert_eq!(ledger.get_investor_investment(other, Address::new(11)), 0);
    assert_eq!(ledger.get_funding_progress(company_id), 6700);
}

#[test]
fn investment_records_keep_order() {
    let mut ledger = CrowdfundingContract::initialize();
    let a = open_company(&mut ledger, Address::new(1), 1000, "a");
    let b = open_company(&mut ledger, Address::new(1), 1000, "a");
    let alice = Address::new(20);
    let bob = Address::new(21);
    ledger.invest(&Authorization::new(alice), alice, a, 5, 100).unwrap();
    ledger.invest(&Authorization::new(bob), bob, b, 6, 101).unwrap();
    ledger.invest(&Authorization::new(alice), alice, b, 7, 102).unwrap();

    let by_b = ledger.get_company_investments(b);
    assert_eq!(
        by_b,
        vec![
            Investment { investor: bob, company_id: b, amount: 6, timestamp: 101 },
            Investment { investor: alice, company_id: b, amount: 7, timestamp: 102 },
        ]
    );
    let by_alice = ledger.get_investor_investments(alice);
    assert_eq!(by_alice.len(), 2);
    assert_eq!(by_alice[0].company_id, a);
    assert_eq!(by_alice[1].company_id, b);
    assert!(ledger.get_investor_investments(Address::new(99)).is_empty());
}

#[test]
fn companies_by_category_match_exactly() {
    let mut ledger = CrowdfundingContract::initialize();
    open_company(&mut ledger, Address::new(1), 10, "teknoloji");
    open_company(&mut ledger, Address::new(1), 10, "saglik");
    open_company(&mut ledger, Address::new(1), 10, "teknoloji");
    open_company(&mut ledger, Address::new(1), 10, "Teknoloji");
    let found = ledger.get_companies_by_category(&String::from("teknoloji"));
    let ids: Vec<u64> = found.iter().map(|c| c.id).collect();
    assert_eq!(ids, vec![1, 3]);
    assert!(ledger.get_companies_by_category(&String::from("")).is_empty());
}

#[test]
fn progress_and_completion_edges() {
    let mut ledger = CrowdfundingContract::initialize();
    assert_eq!(ledger.get_funding_progress(1), 0);
    assert!(!ledger.is_funding_completed(1));

    let zero = open_company(&mut ledger, Address::new(1), 0, "a");
    assert_eq!(ledger.get_funding_progress(zero), 0);
    assert!(ledger.is_funding_completed(zero));

    let negative = open_company(&mut ledger, Address::new(1), -5, "a");
    assert_eq!(ledger.get_funding_progress(negative), 0);
    assert!(ledger.get_company(negative).unwrap().is_active);
    assert_eq!(
        invest(&mut ledger, Address::new(2), negative, 1),
        Err(CrowdfundingError::ExceedsTarget)
    );

    let third = open_company(&mut ledger, Address::new(1), 3, "a");
    assert_eq!(invest(&mut ledger, Address::new(2), third, 1), Ok(true));
    assert_eq!(ledger.get_funding_progress(third), 3333);
    assert!(!ledger.is_funding_completed(third));
}

#[test]
fn progress_without_overflow() {
    assert_eq!(funding_progress(i128::MAX, i128::MAX), 10000);
    assert_eq!(funding_progress(i128::MAX / 2, i128::MAX), 4999);
    assert_eq!(funding_progress(0, i128::MAX), 0);
    assert_eq!(funding_progress(1, 10000), 1);
    assert_eq!(funding_progress(9999, 10000), 9999);
    assert_eq!(funding_progress(5, -1), 0);

    let mut ledger = CrowdfundingContract::initialize();
    let big = open_company(&mut ledger, Address::new(1), i128::MAX, "a");
    assert_eq!(invest(&mut ledger, Address::new(2), big, i128::MAX - 1), Ok(true));
    assert_eq!(invest(&mut ledger, Address::new(2), big, 2), Err(CrowdfundingError::ExceedsTarget));
    assert_eq!(ledger.get_funding_progress(big), 9999);
    assert_eq!(invest(&mut ledger, Address::new(2), big, 1), Ok(true));
    assert_eq!(ledger.get_funding_progress(big), 10000);
    assert!(!ledger.get_company(big).unwrap().is_active);
}
