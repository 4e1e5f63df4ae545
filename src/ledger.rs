use vstd::prelude::*;
use crate::types::{Address, Investment};

verus! {

/// Sum of the amounts of the investments in `s` made into company `company_id`.
pub open spec fn invested_in(s: Seq<Investment>, company_id: u64) -> int
    decreases s.len(),
{
    if s.len() == 0 {
        0
    } else {
        invested_in(s.drop_last(), company_id) + if s.last().company_id == company_id {
            s.last().amount as int
        } else {
            0
        }
    }
}

/// Sum of the amounts of the investments in `s` made by `investor` into
/// company `company_id`.
pub open spec fn contributed(s: Seq<Investment>, company_id: u64, investor: Address) -> int
    decreases s.len(),
{
    if s.len() == 0 {
        0
    } else {
        contributed(s.drop_last(), company_id, investor) + if s.last().company_id == company_id
            && s.last().investor == investor {
            s.last().amount as int
        } else {
            0
        }
    }
}

/// Every recorded investment carries a strictly positive amount.
pub open spec fn all_positive(s: Seq<Investment>) -> bool {
    forall|k: int| 0 <= k < s.len() ==> (#[trigger] s[k]).amount > 0
}

/// One entry of the contribution index: the running total of `investor`
/// into company `company_id`.
#[derive(Clone, Copy, Debug, PartialEq, Eq, Structural)]
pub struct Contribution {
    pub company_id: u64,
    pub investor: Address,
    pub total: i128,
}

pub proof fn lemma_invested_push(s: Seq<Investment>, x: Investment, company_id: u64)
    ensures
        invested_in(s.push(x), company_id) == invested_in(s, company_id) + if x.company_id
            == company_id {
            x.amount as int
        } else {
            0
        },
{
    assert(s.push(x).drop_last() =~= s);
}

pub proof fn lemma_contributed_push(
    s: Seq<Investment>,
    x: Investment,
    company_id: u64,
    investor: Address,
)
    ensures
        contributed(s.push(x), company_id, investor) == contributed(s, company_id, investor)
            + if x.company_id == company_id && x.investor == investor {
            x.amount as int
        } else {
            0
        },
{
    assert(s.push(x).drop_last() =~= s);
}

/// With positive amounts, one investor's share of a company is at most what
/// the company received in total.
pub proof fn lemma_contributed_bounded(s: Seq<Investment>, company_id: u64, investor: Address)
    requires
        all_positive(s),
    ensures
        0 <= contributed(s, company_id, investor) <= invested_in(s, company_id),
    decreases s.len(),
{
    if s.len() > 0 {
        let t = s.drop_last();
        assert forall|k: int| 0 <= k < t.len() implies (#[trigger] t[k]).amount > 0 by {
            assert(t[k] == s[k]);
        }
        lemma_contributed_bounded(t, company_id, investor);
        assert(s.last() == s[s.len() - 1]);
    }
}

/// A company that no recorded investment names has received nothing.
pub proof fn lemma_invested_unnamed(s: Seq<Investment>, company_id: u64)
    requires
        forall|k: int| 0 <= k < s.len() ==> (#[trigger] s[k]).company_id != company_id,
    ensures
        invested_in(s, company_id) == 0,
    decreases s.len(),
{
    if s.len() > 0 {
        let t = s.drop_last();
        assert forall|k: int| 0 <= k < t.len() implies (#[trigger] t[k]).company_id
            != company_id by {
            assert(t[k] == s[k]);
        }
        lemma_invested_unnamed(t, company_id);
        assert(s.last() == s[s.len() - 1]);
    }
}

} // verus!
