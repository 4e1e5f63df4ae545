use vstd::prelude::*;

verus! {

/// An identity on the ledger. Identities are only ever compared.
#[derive(Clone, Copy, Debug, PartialEq, Eq, Structural)]
pub struct Address {
    pub key: u64,
}

impl Address {
    pub fn new(key: u64) -> (r: Address)
        ensures
            r.key == key,
    {
        Address { key }
    }
}

/// Proof, established by the caller's environment, that the current call
/// was authorized by `signer`.
#[derive(Clone, Copy, Debug, PartialEq, Eq, Structural)]
pub struct Authorization {
    pub signer: Address,
}

impl Authorization {
    pub fn new(signer: Address) -> (r: Authorization)
        ensures
            r.signer == signer,
    {
        Authorization { signer }
    }

    /// Whether this proof covers `who`.
    pub open spec fn covers(self, who: Address) -> bool {
        self.signer == who
    }
}

/// A fundraising campaign.
#[derive(Clone, Debug, PartialEq, Eq)]
pub struct Company {
    pub id: u64,
    pub name: String,
    pub description: String,
    pub target_amount: i128,
    pub current_amount: i128,
    pub founder: Address,
    pub is_active: bool,
    pub category: String,
}

impl Company {
    /// A field-by-field copy.
    pub fn snapshot(&self) -> (r: Company)
        ensures
            r == *self,
    {
        Company {
            id: self.id,
            name: self.name.clone(),
            description: self.description.clone(),
            target_amount: self.target_amount,
            current_amount: self.current_amount,
            founder: self.founder,
            is_active: self.is_active,
            category: self.category.clone(),
        }
    }
}

/// An immutable record of a single contribution.
#[derive(Clone, Copy, Debug, PartialEq, Eq, Structural)]
pub struct Investment {
    pub investor: Address,
    pub company_id: u64,
    pub amount: i128,
    pub timestamp: u64,
}

/// Why a mutating call was refused. A refused call changes nothing.
#[derive(Clone, Copy, Debug, PartialEq, Eq, Structural)]
pub enum CrowdfundingError {
    /// The authorization does not cover the claimed identity.
    Unauthorized,
    /// The investment amount is zero or negative.
    NonPositiveAmount,
    /// No company has the given id.
    CompanyNotFound,
    /// The company no longer accepts funds.
    CompanyNotActive,
    /// The investment would take the company past its target.
    ExceedsTarget,
    /// Only the founder may deactivate a company.
    NotFounder,
}

} // verus!
