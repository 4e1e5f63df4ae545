use vstd::prelude::*;
use crate::ledger::{
    all_positive, contributed, invested_in, lemma_contributed_bounded, lemma_contributed_push,
    lemma_invested_push, lemma_invested_unnamed, Contribution,
};
use crate::progress::{funding_progress, progress_spec};
use crate::types::{Address, Authorization, Company, CrowdfundingError, Investment};

verus! {

/// The ledger: company registry, investment history and contribution index.
pub struct CrowdfundingContract {
    company_count: u64,
    companies: Vec<Company>,
    investments: Vec<Investment>,
    contributions: Vec<Contribution>,
}

/// The company that `founder` opens: nothing raised yet, accepting funds.
pub open spec fn new_company(
    id: u64,
    name: String,
    description: String,
    target_amount: i128,
    founder: Address,
    category: String,
) -> Company {
    Company {
        id,
        name,
        description,
        target_amount,
        current_amount: 0,
        founder,
        is_active: true,
        category,
    }
}

/// `c` after receiving `amount`: it closes once the target is reached.
pub open spec fn funded(c: Company, amount: i128) -> Company {
    let current = (c.current_amount + amount) as i128;
    Company { current_amount: current, is_active: current < c.target_amount, ..c }
}

impl CrowdfundingContract {
    /// Number of companies ever created; also the largest id handed out.
    pub closed spec fn count(&self) -> u64 {
        self.company_count
    }

    /// The companies, in order of id: the company with id `i` stands at `i - 1`.
    pub closed spec fn companies(&self) -> Seq<Company> {
        self.companies@
    }

    /// The investments, in the order they were made.
    pub closed spec fn investments(&self) -> Seq<Investment> {
        self.investments@
    }

    /// Whether a company with this id exists.
    pub open spec fn has_company(&self, company_id: u64) -> bool {
        1 <= company_id <= self.count()
    }

    /// The company with this id, if any.
    pub open spec fn company(&self, company_id: u64) -> Option<Company> {
        if self.has_company(company_id) {
            Some(self.companies()[company_id - 1])
        } else {
            None
        }
    }

    spec fn index_has(&self, j: int, company_id: u64, investor: Address) -> bool {
        0 <= j < self.contributions@.len() && self.contributions@[j].company_id == company_id
            && self.contributions@[j].investor == investor
    }

    /// The internal invariant, which every operation preserves.
    pub closed spec fn wf(&self) -> bool {
        &&& self.companies@.len() == self.company_count
        &&& forall|i: int|
            0 <= i < self.companies@.len() ==> (#[trigger] self.companies@[i]).id == i + 1
        &&& forall|i: int|
            0 <= i < self.companies@.len() ==> (#[trigger] self.companies@[i]).current_amount
                == invested_in(self.investments@, (i + 1) as u64)
        &&& forall|i: int|
            0 <= i < self.companies@.len() ==> {
                let c = #[trigger] self.companies@[i];
                &&& 0 <= c.current_amount
                &&& c.current_amount == 0 || c.current_amount <= c.target_amount
                &&& c.is_active && c.current_amount > 0 ==> c.current_amount < c.target_amount
            }
        &&& all_positive(self.investments@)
        &&& forall|k: int|
            0 <= k < self.investments@.len() ==> 1 <= (#[trigger] self.investments@[k]).company_id
                <= self.company_count
        &&& forall|j: int|
            0 <= j < self.contributions@.len() ==> (#[trigger] self.contributions@[j]).total
                == contributed(
                self.investments@,
                self.contributions@[j].company_id,
                self.contributions@[j].investor,
            )
        &&& forall|j1: int, j2: int|
            0 <= j1 < j2 < self.contributions@.len() ==> !(
            #[trigger] self.contributions@[j1].company_id == #[trigger] self.contributions@[j2].company_id
                && self.contributions@[j1].investor == self.contributions@[j2].investor)
        &&& forall|c: u64, w: Address|
            #[trigger] contributed(self.investments@, c, w) != 0 ==> exists|j: int|
                self.index_has(j, c, w)
    }

    /// An empty ledger: no companies, no investments, the id counter at zero.
    pub fn initialize() -> (r: CrowdfundingContract)
        ensures
            r.wf(),
            r.count() == 0,
            r.companies() == Seq::<Company>::empty(),
            r.investments() == Seq::<Investment>::empty(),
    {
        CrowdfundingContract {
            company_count: 0,
            companies: Vec::new(),
            investments: Vec::new(),
            contributions: Vec::new(),
        }
    }

    /// Opens a company for `founder` under the next id, which it returns.
    /// Ids start at 1 and are never reused.
    pub fn create_company(
        &mut self,
        auth: &Authorization,
        founder: Address,
        name: String,
        description: String,
        target_amount: i128,
        category: String,
    ) -> (r: Result<u64, CrowdfundingError>)
        requires
            old(self).wf(),
            old(self).count() < u64::MAX,
        ensures
            final(self).wf(),
            !auth.covers(founder) ==> r == Err::<u64, CrowdfundingError>(
                CrowdfundingError::Unauthorized,
            ) && *final(self) == *old(self),
            auth.covers(founder) ==> {
                &&& r == Ok::<u64, CrowdfundingError>((old(self).count() + 1) as u64)
                &&& final(self).count() == old(self).count() + 1
                &&& final(self).companies() == old(self).companies().push(
                    new_company(
                        (old(self).count() + 1) as u64,
                        name,
                        description,
                        target_amount,
                        founder,
                        category,
                    ),
                )
                &&& final(self).investments() == old(self).investments()
            },
    {
        if auth.signer != founder {
            return Err(CrowdfundingError::Unauthorized);
        }
        let id = self.company_count + 1;
        proof {
            assert forall|k: int| 0 <= k < self.investments@.len() implies (
            #[trigger] self.investments@[k]).company_id != id by {}
            lemma_invested_unnamed(self.investments@, id);
        }
        let company = Company {
            id,
            name,
            description,
            target_amount,
            current_amount: 0,
            founder,
            is_active: true,
            category,
        };
        self.companies.push(company);
        self.company_count = id;
        proof {
            let s = self;
            assert forall|c: u64, w: Address|
                #[trigger] contributed(s.investments@, c, w) != 0 implies exists|j: int|
                    s.index_has(j, c, w) by {
                assert(contributed(old(self).investments@, c, w) != 0);
                let j = choose|j: int| old(self).index_has(j, c, w);
                assert(s.index_has(j, c, w));
            }
        }
        Ok(id)
    }

    /// Why `invest` would refuse these arguments, checked in this order;
    /// `None` where it succeeds.
    pub open spec fn invest_error(
        &self,
        auth: Authorization,
        investor: Address,
        company_id: u64,
        amount: i128,
    ) -> Option<CrowdfundingError> {
        if !auth.covers(investor) {
            Some(CrowdfundingError::Unauthorized)
        } else if amount <= 0 {
            Some(CrowdfundingError::NonPositiveAmount)
        } else if !self.has_company(company_id) {
            Some(CrowdfundingError::CompanyNotFound)
        } else if !self.companies()[company_id - 1].is_active {
            Some(CrowdfundingError::CompanyNotActive)
        } else if self.companies()[company_id - 1].current_amount + amount
            > self.companies()[company_id - 1].target_amount {
            Some(CrowdfundingError::ExceedsTarget)
        } else {
            None
        }
    }

    /// Position of the index entry for (`company_id`, `investor`), if any.
    fn find_contribution(&self, company_id: u64, investor: Address) -> (r: Option<usize>)
        ensures
            match r {
                Some(j) => self.index_has(j as int, company_id, investor),
                None => forall|j: int| !self.index_has(j, company_id, investor),
            },
    {
        let mut j: usize = 0;
        while j < self.contributions.len()
            invariant
                j <= self.contributions@.len(),
                forall|k: int| 0 <= k < j ==> !self.index_has(k, company_id, investor),
            decreases self.contributions@.len() - j,
        {
            if self.contributions[j].company_id == company_id
                && self.contributions[j].investor == investor {
                return Some(j);
            }
            j = j + 1;
        }
        None
    }

    /// Records an investment of `amount` by `investor` into `company_id` at
    /// ledger time `now`. The company closes when it reaches its target.
    /// A refused investment changes nothing.
    pub fn invest(
        &mut self,
        auth: &Authorization,
        investor: Address,
        company_id: u64,
        amount: i128,
        now: u64,
    ) -> (r: Result<bool, CrowdfundingError>)
        requires
            old(self).wf(),
        ensures
            final(self).wf(),
            match old(self).invest_error(*auth, investor, company_id, amount) {
                Some(e) => r == Err::<bool, CrowdfundingError>(e) && *final(self) == *old(self),
                None => {
                    &&& r == Ok::<bool, CrowdfundingError>(true)
                    &&& final(self).count() == old(self).count()
                    &&& final(self).companies() == old(self).companies().update(
                        company_id - 1,
                        funded(old(self).companies()[company_id - 1], amount),
                    )
                    &&& final(self).investments() == old(self).investments().push(
                        Investment { investor, company_id, amount, timestamp: now },
                    )
                },
            },
    {
        if auth.signer != investor {
            return Err(CrowdfundingError::Unauthorized);
        }
        if amount <= 0 {
            return Err(CrowdfundingError::NonPositiveAmount);
        }
        if company_id == 0 || company_id > self.company_count {
            return Err(CrowdfundingError::CompanyNotFound);
        }
        let n: usize = self.companies.len();
        proof {
            assert(company_id - 1 < n);
        }
        let idx = (company_id - 1) as usize;
        if !self.companies[idx].is_active {
            return Err(CrowdfundingError::CompanyNotActive);
        }
        let current = self.companies[idx].current_amount;
        let target = self.companies[idx].target_amount;
        if amount > i128::MAX - current || current + amount > target {
            return Err(CrowdfundingError::ExceedsTarget);
        }
        let new_current = current + amount;
        let mut company = self.companies[idx].snapshot();
        company.current_amount = new_current;
        company.is_active = new_current < target;
        self.companies.set(idx, company);
        let record = Investment { investor, company_id, amount, timestamp: now };
        self.investments.push(record);
        let ghost oi = old(self).investments@;
        let ghost ni = self.investments@;
        proof {
            assert(ni == oi.push(record));
            assert forall|i: int| 0 <= i < self.companies@.len() implies (
            #[trigger] self.companies@[i]).current_amount == invested_in(ni, (i + 1) as u64) by {
                lemma_invested_push(oi, record, (i + 1) as u64);
            }
            assert forall|k: int| 0 <= k < ni.len() implies (#[trigger] ni[k]).amount > 0 by {
                if k < oi.len() {
                    assert(ni[k] == oi[k]);
                }
            }
            assert forall|k: int| 0 <= k < ni.len() implies 1 <= (#[trigger] ni[k]).company_id
                <= self.company_count by {
                if k < oi.len() {
                    assert(ni[k] == oi[k]);
                }
            }
            lemma_contributed_bounded(ni, company_id, investor);
            lemma_contributed_push(oi, record, company_id, investor);
            lemma_invested_push(oi, record, company_id);
            assert(old(self).companies@[idx as int].current_amount == current);
            assert(invested_in(ni, company_id) == new_current);
        }
        let ghost mut at: int;
        match self.find_contribution(company_id, investor) {
            Some(j) => {
                proof {
                    at = j as int;
                }
                let total = self.contributions[j].total + amount;
                self.contributions.set(
                    j,
                    Contribution { company_id, investor, total },
                );
            },
            None => {
                proof {
                    if contributed(oi, company_id, investor) != 0 {
                        let j = choose|j: int| old(self).index_has(j, company_id, investor);
                        assert(self.index_has(j, company_id, investor));
                    }
                    assert(contributed(oi, company_id, investor) == 0);
                    assert forall|j: int| !old(self).index_has(j, company_id, investor) by {
                        assert(!self.index_has(j, company_id, investor));
                    }
                }
                proof {
                    at = self.contributions@.len() as int;
                }
                self.contributions.push(Contribution { company_id, investor, total: amount });
            },
        }
        proof {
            let ox = old(self).contributions@;
            let nx = self.contributions@;
            assert(self.index_has(at, company_id, investor));
            assert forall|j: int| 0 <= j < nx.len() implies (#[trigger] nx[j]).total
                == contributed(ni, nx[j].company_id, nx[j].investor) by {
                lemma_contributed_push(oi, record, nx[j].company_id, nx[j].investor);
                if j != at {
                    assert(nx[j] == ox[j]);
                    if at < ox.len() && old(self).index_has(j, company_id, investor) {
                        assert(old(self).index_has(at, company_id, investor));
                        if j < at {
                            assert(ox[j].company_id == ox[at].company_id);
                        } else {
                            assert(ox[at].company_id == ox[j].company_id);
                        }
                    }
                    assert(!old(self).index_has(j, company_id, investor));
                } else if at < ox.len() {
                    assert(ox[at].total == contributed(oi, company_id, investor));
                }
            }
            assert forall|c: u64, w: Address|
                #[trigger] contributed(ni, c, w) != 0 implies exists|j: int|
                    self.index_has(j, c, w) by {
                lemma_contributed_push(oi, record, c, w);
                if c == company_id && w == investor {
                    assert(self.index_has(at, c, w));
                } else {
                    assert(contributed(oi, c, w) != 0);
                    let j = choose|j: int| old(self).index_has(j, c, w);
                    assert(nx[j] == ox[j]);
                    assert(self.index_has(j, c, w));
                }
            }
            assert(self.companies@ == old(self).companies@.update(
                company_id - 1,
                funded(old(self).companies@[company_id - 1], amount),
            ));
        }
        Ok(true)
    }

    /// The company with this id, if any.
    pub fn get_company(&self, company_id: u64) -> (r: Option<Company>)
        requires
            self.wf(),
        ensures
            r == self.company(company_id),
    {
        if company_id == 0 || company_id > self.company_count {
            return None;
        }
        let n: usize = self.companies.len();
        proof {
            assert(company_id - 1 < n);
        }
        Some(self.companies[(company_id - 1) as usize].snapshot())
    }

    /// Every company, in ascending order of id.
    pub fn get_all_companies(&self) -> (r: Vec<Company>)
        requires
            self.wf(),
        ensures
            r@ == self.companies(),
    {
        let mut result: Vec<Company> = Vec::new();
        let mut i: usize = 0;
        while i < self.companies.len()
            invariant
                i <= self.companies@.len(),
                result@ == self.companies@.subrange(0, i as int),
            decreases self.companies@.len() - i,
        {
            result.push(self.companies[i].snapshot());
            i = i + 1;
            proof {
                assert(result@ =~= self.companies@.subrange(0, i as int));
            }
        }
        proof {
            assert(self.companies@.subrange(0, i as int) =~= self.companies@);
        }
        result
    }

    /// The companies whose category is exactly `category`, in ascending order of id.
    pub fn get_companies_by_category(&self, category: &String) -> (r: Vec<Company>)
        requires
            self.wf(),
        ensures
            r@ == self.companies().filter(|c: Company| c.category@ == category@),
    {
        let ghost pred = |c: Company| c.category@ == category@;
        let mut result: Vec<Company> = Vec::new();
        let mut i: usize = 0;
        while i < self.companies.len()
            invariant
                i <= self.companies@.len(),
                pred == (|c: Company| c.category@ == category@),
                result@ == self.companies@.subrange(0, i as int).filter(pred),
            decreases self.companies@.len() - i,
        {
            proof {
                reveal(Seq::filter);
                assert(self.companies@.subrange(0, i + 1).drop_last() =~= self.companies@.subrange(
                    0,
                    i as int,
                ));
            }
            if self.companies[i].category == *category {
                result.push(self.companies[i].snapshot());
            }
            i = i + 1;
        }
        proof {
            assert(self.companies@.subrange(0, i as int) =~= self.companies@);
        }
        result
    }

    /// What `investor` has put into company `company_id` in total; 0 where
    /// nothing. Always the sum of the matching investment records.
    pub fn get_investor_investment(&self, company_id: u64, investor: Address) -> (r: i128)
        requires
            self.wf(),
        ensures
            r as int == contributed(self.investments(), company_id, investor),
    {
        match self.find_contribution(company_id, investor) {
            Some(j) => self.contributions[j].total,
            None => {
                proof {
                    if contributed(self.investments@, company_id, investor) != 0 {
                        let j = choose|j: int| self.index_has(j, company_id, investor);
                        assert(self.index_has(j, company_id, investor));
                    }
                }
                0
            },
        }
    }

    /// The investments into company `company_id`, in the order they were made.
    pub fn get_company_investments(&self, company_id: u64) -> (r: Vec<Investment>)
        requires
            self.wf(),
        ensures
            r@ == self.investments().filter(|x: Investment| x.company_id == company_id),
    {
        let ghost pred = |x: Investment| x.company_id == company_id;
        let mut result: Vec<Investment> = Vec::new();
        let mut i: usize = 0;
        while i < self.investments.len()
            invariant
                i <= self.investments@.len(),
                pred == (|x: Investment| x.company_id == company_id),
                result@ == self.investments@.subrange(0, i as int).filter(pred),
            decreases self.investments@.len() - i,
        {
            proof {
                reveal(Seq::filter);
                assert(self.investments@.subrange(0, i + 1).drop_last()
                    =~= self.investments@.subrange(0, i as int));
            }
            if self.investments[i].company_id == company_id {
                result.push(self.investments[i]);
            }
            i = i + 1;
        }
        proof {
            assert(self.investments@.subrange(0, i as int) =~= self.investments@);
        }
        result
    }

    /// The investments made by `investor`, in the order they were made.
    pub fn get_investor_investments(&self, investor: Address) -> (r: Vec<Investment>)
        requires
            self.wf(),
        ensures
            r@ == self.investments().filter(|x: Investment| x.investor == investor),
    {
        let ghost pred = |x: Investment| x.investor == investor;
        let mut result: Vec<Investment> = Vec::new();
        let mut i: usize = 0;
        while i < self.investments.len()
            invariant
                i <= self.investments@.len(),
                pred == (|x: Investment| x.investor == investor),
                result@ == self.investments@.subrange(0, i as int).filter(pred),
            decreases self.investments@.len() - i,
        {
            proof {
                reveal(Seq::filter);
                assert(self.investments@.subrange(0, i + 1).drop_last()
                    =~= self.investments@.subrange(0, i as int));
            }
            if self.investments[i].investor == investor {
                result.push(self.investments[i]);
            }
            i = i + 1;
        }
        proof {
            assert(self.investments@.subrange(0, i as int) =~= self.investments@);
        }
        result
    }

    /// Number of companies ever created.
    pub fn get_company_count(&self) -> (r: u64)
        ensures
            r == self.count(),
    {
        self.company_count
    }

    /// Whether the company has raised at least its target; false where it
    /// does not exist.
    pub fn is_funding_completed(&self, company_id: u64) -> (r: bool)
        requires
            self.wf(),
        ensures
            r == match self.company(company_id) {
                Some(c) => c.current_amount >= c.target_amount,
                None => false,
            },
    {
        match self.get_company(company_id) {
            Some(c) => c.current_amount >= c.target_amount,
            None => false,
        }
    }

    /// Funding progress of the company in hundredths of a percent (see
    /// `progress_spec`); 0 where it does not exist.
    pub fn get_funding_progress(&self, company_id: u64) -> (r: u32)
        requires
            self.wf(),
        ensures
            r as int == match self.company(company_id) {
                Some(c) => progress_spec(c.current_amount as int, c.target_amount as int),
                None => 0,
            },
    {
        if company_id == 0 || company_id > self.company_count {
            return 0;
        }
        let n: usize = self.companies.len();
        proof {
            assert(company_id - 1 < n);
        }
        let c = &self.companies[(company_id - 1) as usize];
        funding_progress(c.current_amount, c.target_amount)
    }

    /// Closes a company at its founder's request. A company that is already
    /// closed stays closed; `Ok(false)` where no company has this id.
    pub fn deactivate_company(
        &mut self,
        auth: &Authorization,
        founder: Address,
        company_id: u64,
    ) -> (r: Result<bool, CrowdfundingError>)
        requires
            old(self).wf(),
        ensures
            final(self).wf(),
            final(self).count() == old(self).count(),
            final(self).investments() == old(self).investments(),
            !auth.covers(founder) ==> r == Err::<bool, CrowdfundingError>(
                CrowdfundingError::Unauthorized,
            ) && *final(self) == *old(self),
            auth.covers(founder) && !old(self).has_company(company_id) ==> r == Ok::<
                bool,
                CrowdfundingError,
            >(false) && *final(self) == *old(self),
            auth.covers(founder) && old(self).has_company(company_id)
                && old(self).companies()[company_id - 1].founder != founder ==> r == Err::<
                bool,
                CrowdfundingError,
            >(CrowdfundingError::NotFounder) && *final(self) == *old(self),
            auth.covers(founder) && old(self).has_company(company_id)
                && old(self).companies()[company_id - 1].founder == founder ==> r == Ok::<
                bool,
                CrowdfundingError,
            >(true) && final(self).companies() == old(self).companies().update(
                company_id - 1,
                Company { is_active: false, ..old(self).companies()[company_id - 1] },
            ),
    {
        if auth.signer != founder {
            return Err(CrowdfundingError::Unauthorized);
        }
        if company_id == 0 || company_id > self.company_count {
            return Ok(false);
        }
        let n: usize = self.companies.len();
        proof {
            assert(company_id - 1 < n);
        }
        let idx = (company_id - 1) as usize;
        if self.companies[idx].founder != founder {
            return Err(CrowdfundingError::NotFounder);
        }
        let mut company = self.companies[idx].snapshot();
        company.is_active = false;
        self.companies.set(idx, company);
        proof {
            assert(self.companies@ == old(self).companies@.update(
                company_id - 1,
                Company { is_active: false, ..old(self).companies@[company_id - 1] },
            ));
            assert forall|i: int| 0 <= i < self.companies@.len() implies {
                let (c, o) = (#[trigger] self.companies@[i], old(self).companies@[i]);
                &&& c.id == o.id
                &&& c.current_amount == o.current_amount
                &&& c.target_amount == o.target_amount
                &&& (c.is_active ==> o.is_active)
            } by {}
            let s = self;
            assert forall|c: u64, w: Address|
                #[trigger] contributed(s.investments@, c, w) != 0 implies exists|j: int|
                    s.index_has(j, c, w) by {
                let j = choose|j: int| old(self).index_has(j, c, w);
                assert(s.index_has(j, c, w));
            }
        }
        Ok(true)
    }

    /// In every well-formed state, what a company has raised is the sum of the
    /// investments recorded for it, never negative, and beyond its target only
    /// where it raised nothing at all (a target at or below zero).
    pub proof fn lemma_raised_is_sum_of_investments(&self, company_id: u64)
        requires
            self.wf(),
            self.has_company(company_id),
        ensures
            self.companies()[company_id - 1].current_amount == invested_in(
                self.investments(),
                company_id,
            ),
            0 <= self.companies()[company_id - 1].current_amount,
            self.companies()[company_id - 1].current_amount == 0
                || self.companies()[company_id - 1].current_amount
                <= self.companies()[company_id - 1].target_amount,
    {
    }

    /// Company ids are dense from 1: the company at position `i` has id
    /// `i + 1`, so ids strictly increase and none is handed out twice.
    pub proof fn lemma_ids_dense(&self)
        requires
            self.wf(),
        ensures
            self.companies().len() == self.count(),
            forall|i: int| 0 <= i < self.companies().len() ==> (#[trigger] self.companies()[i]).id == i + 1,
            forall|i: int, k: int|
                0 <= i < k < self.companies().len() ==> (#[trigger] self.companies()[i]).id
                    < (#[trigger] self.companies()[k]).id,
    {
    }
}

} // verus!
