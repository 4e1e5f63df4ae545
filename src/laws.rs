use vstd::prelude::*;
use vstd::arithmetic::div_mod::{lemma_fundamental_div_mod, lemma_fundamental_div_mod_converse};
use crate::contract::CrowdfundingContract;
use crate::progress::{progress_spec, PROGRESS_SCALE};
use crate::types::{Address, Authorization, CrowdfundingError};

verus! {

/// A closed company refuses every investment, whoever makes it and whatever
/// the amount: the call fails before anything is recorded.
pub proof fn lemma_closed_company_refuses(
    state: CrowdfundingContract,
    auth: Authorization,
    investor: Address,
    company_id: u64,
    amount: i128,
)
    requires
        state.has_company(company_id),
        !state.companies()[company_id - 1].is_active,
    ensures
        state.invest_error(auth, investor, company_id, amount).is_some(),
        auth.covers(investor) && amount > 0 ==> state.invest_error(
            auth,
            investor,
            company_id,
            amount,
        ) == Some(CrowdfundingError::CompanyNotActive),
{
}

/// Progress is at full scale exactly when a company has raised its target,
/// and 0 wherever the target is not positive.
pub proof fn lemma_progress_full_iff_target_reached(current: int, target: int)
    requires
        0 <= current,
        current == 0 || current <= target,
    ensures
        (target > 0 ==> (progress_spec(current, target) == PROGRESS_SCALE <==> current
            == target)),
        target <= 0 ==> progress_spec(current, target) == 0,
{
    if target > 0 {
        let scale = PROGRESS_SCALE as int;
        let x = current * scale;
        if current == target {
            lemma_fundamental_div_mod_converse(x, target, scale, 0);
        } else {
            assert(current < target);
            lemma_fundamental_div_mod(x, target);
            let q = x / target;
            let r = x % target;
            assert(0 <= r);
            assert(x < target * scale) by (nonlinear_arith)
                requires
                    x == current * scale,
                    current < target,
                    scale == 10000,
            ;
            assert(q < scale) by (nonlinear_arith)
                requires
                    x == target * q + r,
                    0 <= r,
                    x < target * scale,
                    target > 0,
            ;
        }
    }
}

} // verus!
