//! The record types that the collections hold, their mathematical views, and
//! the recognizably empty record of each type.

use vstd::prelude::*;

verus! {

/// The identity that stands for an unauthenticated caller: the single byte 4.
pub open spec fn anonymous_identity_spec() -> Seq<u8> {
    seq![4u8]
}

/// Calls `candid::Principal::anonymous` and copies its bytes, which are the
/// single byte 4.
#[verifier::external_body]
pub(crate) fn principal_anonymous() -> (identity: Vec<u8>)
    ensures
        identity@ == anonymous_identity_spec(),
{
    candid::Principal::anonymous().as_slice().to_vec()
}

/// The identity that stands for an unauthenticated caller.
pub fn anonymous_identity() -> (identity: Vec<u8>)
    ensures
        identity@ == anonymous_identity_spec(),
{
    principal_anonymous()
}

/// Whether `identity` is the anonymous identity.
pub fn is_anonymous(identity: &Vec<u8>) -> (yes: bool)
    ensures
        yes == (identity@ == anonymous_identity_spec()),
{
    let yes = identity.len() == 1 && identity[0] == 4;
    proof {
        if yes {
            assert(identity@ =~= anonymous_identity_spec());
        }
    }
    yes
}

/// The categories a collection of documents can have.
#[derive(Clone, Copy, Debug, PartialEq, Eq, Structural)]
pub enum CollectionCategory {
    /// Earning releases.
    EarningRelease,
}

impl Default for CollectionCategory {
    fn default() -> (category: Self)
        ensures
            category == CollectionCategory::EarningRelease,
    {
        CollectionCategory::EarningRelease
    }
}

/// The role of a user.
#[derive(Clone, Debug, PartialEq, Eq)]
pub enum UserRole {
    /// May administer every institution and user.
    SuperAdmin,
    /// An ordinary user.
    RegularUser,
    /// A member of the institution with the given id.
    InstitutionMember(String),
}

/// What a user role holds.
pub ghost enum UserRoleView {
    /// May administer every institution and user.
    SuperAdmin,
    /// An ordinary user.
    RegularUser,
    /// A member of the institution with the given id.
    InstitutionMember(Seq<char>),
}

impl View for UserRole {
    type V = UserRoleView;

    open spec fn view(&self) -> UserRoleView {
        match self {
            UserRole::SuperAdmin => UserRoleView::SuperAdmin,
            UserRole::RegularUser => UserRoleView::RegularUser,
            UserRole::InstitutionMember(id) => UserRoleView::InstitutionMember(id@),
        }
    }
}

/// An institution that issues documents.
#[derive(Clone, Debug, PartialEq, Eq)]
pub struct Institution {
    /// The institution's id, which is also its key.
    pub institution_id: String,
    /// The identity that owns the institution.
    pub owner: Vec<u8>,
    /// The institution's name.
    pub name: String,
    /// The institution's contact address.
    pub email: String,
    /// When the institution was created, in nanoseconds.
    pub created_at: u64,
}

/// What an institution record holds.
pub ghost struct InstitutionView {
    pub institution_id: Seq<char>,
    pub owner: Seq<u8>,
    pub name: Seq<char>,
    pub email: Seq<char>,
    pub created_at: u64,
}

impl View for Institution {
    type V = InstitutionView;

    open spec fn view(&self) -> InstitutionView {
        InstitutionView {
            institution_id: self.institution_id@,
            owner: self.owner@,
            name: self.name@,
            email: self.email@,
            created_at: self.created_at,
        }
    }
}

/// The empty institution: no id, no name, the anonymous owner.
pub open spec fn institution_sentinel() -> InstitutionView {
    InstitutionView {
        institution_id: Seq::empty(),
        owner: anonymous_identity_spec(),
        name: Seq::empty(),
        email: Seq::empty(),
        created_at: 0,
    }
}

impl Default for Institution {
    fn default() -> (institution: Self)
        ensures
            institution@ == institution_sentinel(),
    {
        Institution {
            institution_id: String::new(),
            owner: anonymous_identity(),
            name: String::new(),
            email: String::new(),
            created_at: 0,
        }
    }
}

/// The profile of a registered user.
#[derive(Clone, Debug, PartialEq, Eq)]
pub struct UserProfile {
    /// The user's identity, which is also the profile's key.
    pub internet_identity: Vec<u8>,
    /// The user's name.
    pub name: String,
    /// The user's contact address; may be empty.
    pub email: String,
    /// The user's role.
    pub role: UserRole,
    /// The institution an administrator assigned, or empty.
    pub assigned_institution_id: String,
    /// When the profile was created, in nanoseconds.
    pub created_at: u64,
    /// When the user last logged in, in nanoseconds.
    pub last_login: u64,
}

/// What a user profile holds.
pub ghost struct UserProfileView {
    pub internet_identity: Seq<u8>,
    pub name: Seq<char>,
    pub email: Seq<char>,
    pub role: UserRoleView,
    pub assigned_institution_id: Seq<char>,
    pub created_at: u64,
    pub last_login: u64,
}

impl View for UserProfile {
    type V = UserProfileView;

    open spec fn view(&self) -> UserProfileView {
        UserProfileView {
            internet_identity: self.internet_identity@,
            name: self.name@,
            email: self.email@,
            role: self.role@,
            assigned_institution_id: self.assigned_institution_id@,
            created_at: self.created_at,
            last_login: self.last_login,
        }
    }
}

/// The empty profile: the anonymous identity, a regular user, nothing else.
pub open spec fn user_profile_sentinel() -> UserProfileView {
    UserProfileView {
        internet_identity: anonymous_identity_spec(),
        name: Seq::empty(),
        email: Seq::empty(),
        role: UserRoleView::RegularUser,
        assigned_institution_id: Seq::empty(),
        created_at: 0,
        last_login: 0,
    }
}

impl Default for UserProfile {
    fn default() -> (profile: Self)
        ensures
            profile@ == user_profile_sentinel(),
    {
        UserProfile {
            internet_identity: anonymous_identity(),
            name: String::new(),
            email: String::new(),
            role: UserRole::RegularUser,
            assigned_institution_id: String::new(),
            created_at: 0,
            last_login: 0,
        }
    }
}

/// Income figures of an earning release, each the bit pattern of a 64-bit
/// IEEE 754 number.
#[derive(Clone, Copy, Debug, PartialEq, Eq, Structural)]
pub struct ConsolidatedIncomeData {
    pub gross_profit: u64,
    pub operating_profit: u64,
    pub ebitda: u64,
    pub profit_before_tax: u64,
    pub net_profit: u64,
}

impl Default for ConsolidatedIncomeData {
    fn default() -> (data: Self)
        ensures
            data == income_sentinel(),
    {
        ConsolidatedIncomeData {
            gross_profit: 0,
            operating_profit: 0,
            ebitda: 0,
            profit_before_tax: 0,
            net_profit: 0,
        }
    }
}

/// Income figures that are all zero.
pub open spec fn income_sentinel() -> ConsolidatedIncomeData {
    ConsolidatedIncomeData {
        gross_profit: 0,
        operating_profit: 0,
        ebitda: 0,
        profit_before_tax: 0,
        net_profit: 0,
    }
}

/// Balance sheet figures of an earning release, each the bit pattern of a
/// 64-bit IEEE 754 number.
#[derive(Clone, Copy, Debug, PartialEq, Eq, Structural)]
pub struct ConsolidatedBalanceSheetData {
    pub total_assets: u64,
    pub total_equity: u64,
    pub total_liabilities: u64,
    pub total_liabilities_and_equity: u64,
}

impl Default for ConsolidatedBalanceSheetData {
    fn default() -> (data: Self)
        ensures
            data == balance_sentinel(),
    {
        ConsolidatedBalanceSheetData {
            total_assets: 0,
            total_equity: 0,
            total_liabilities: 0,
            total_liabilities_and_equity: 0,
        }
    }
}

/// Balance sheet figures that are all zero.
pub open spec fn balance_sentinel() -> ConsolidatedBalanceSheetData {
    ConsolidatedBalanceSheetData {
        total_assets: 0,
        total_equity: 0,
        total_liabilities: 0,
        total_liabilities_and_equity: 0,
    }
}

/// The figures of one earning release.
#[derive(Clone, Debug, PartialEq, Eq)]
pub struct EarningReleaseData {
    pub earning_release_id: String,
    pub quarter: u8,
    pub year: u16,
    pub consolidated_income_data: ConsolidatedIncomeData,
    pub consolidated_balance_sheet_data: ConsolidatedBalanceSheetData,
}

/// What an earning release holds.
pub ghost struct EarningReleaseDataView {
    pub earning_release_id: Seq<char>,
    pub quarter: u8,
    pub year: u16,
    pub consolidated_income_data: ConsolidatedIncomeData,
    pub consolidated_balance_sheet_data: ConsolidatedBalanceSheetData,
}

impl View for EarningReleaseData {
    type V = EarningReleaseDataView;

    open spec fn view(&self) -> EarningReleaseDataView {
        EarningReleaseDataView {
            earning_release_id: self.earning_release_id@,
            quarter: self.quarter,
            year: self.year,
            consolidated_income_data: self.consolidated_income_data,
            consolidated_balance_sheet_data: self.consolidated_balance_sheet_data,
        }
    }
}

/// The empty earning release.
pub open spec fn earning_release_sentinel() -> EarningReleaseDataView {
    EarningReleaseDataView {
        earning_release_id: Seq::empty(),
        quarter: 0,
        year: 0,
        consolidated_income_data: income_sentinel(),
        consolidated_balance_sheet_data: balance_sentinel(),
    }
}

impl Default for EarningReleaseData {
    fn default() -> (data: Self)
        ensures
            data@ == earning_release_sentinel(),
    {
        EarningReleaseData {
            earning_release_id: String::new(),
            quarter: 0,
            year: 0,
            consolidated_income_data: ConsolidatedIncomeData::default(),
            consolidated_balance_sheet_data: ConsolidatedBalanceSheetData::default(),
        }
    }
}

/// The typed payload of a document.
#[derive(Clone, Debug, PartialEq, Eq)]
pub enum DocumentType {
    /// An earning release.
    EarningRelease(EarningReleaseData),
}

/// What a document payload holds.
pub ghost enum DocumentTypeView {
    /// An earning release.
    EarningRelease(EarningReleaseDataView),
}

impl View for DocumentType {
    type V = DocumentTypeView;

    open spec fn view(&self) -> DocumentTypeView {
        match self {
            DocumentType::EarningRelease(data) => DocumentTypeView::EarningRelease(data@),
        }
    }
}

impl Default for DocumentType {
    fn default() -> (data: Self)
        ensures
            data@ == DocumentTypeView::EarningRelease(earning_release_sentinel()),
    {
        DocumentType::EarningRelease(EarningReleaseData::default())
    }
}

/// A notarized document with its file.
#[derive(Clone, Debug, PartialEq, Eq)]
pub struct Document {
    pub institution_id: String,
    /// The document's id, which is also its key.
    pub document_id: String,
    /// The identity that owns the document.
    pub owner: Vec<u8>,
    pub name: String,
    pub company_name: String,
    pub description: String,
    pub document_data: DocumentType,
    pub document_category: CollectionCategory,
    pub file_hash: String,
    pub file_size: u64,
    pub file_type: String,
    /// The file itself.
    pub file_data: Vec<u8>,
    pub publication_date: u64,
}

/// What a document record holds.
pub ghost struct DocumentView {
    pub institution_id: Seq<char>,
    pub document_id: Seq<char>,
    pub owner: Seq<u8>,
    pub name: Seq<char>,
    pub company_name: Seq<char>,
    pub description: Seq<char>,
    pub document_data: DocumentTypeView,
    pub document_category: CollectionCategory,
    pub file_hash: Seq<char>,
    pub file_size: u64,
    pub file_type: Seq<char>,
    pub file_data: Seq<u8>,
    pub publication_date: u64,
}

impl View for Document {
    type V = DocumentView;

    open spec fn view(&self) -> DocumentView {
        DocumentView {
            institution_id: self.institution_id@,
            document_id: self.document_id@,
            owner: self.owner@,
            name: self.name@,
            company_name: self.company_name@,
            description: self.description@,
            document_data: self.document_data@,
            document_category: self.document_category,
            file_hash: self.file_hash@,
            file_size: self.file_size,
            file_type: self.file_type@,
            file_data: self.file_data@,
            publication_date: self.publication_date,
        }
    }
}

/// The empty document: no id, no file, the anonymous owner.
pub open spec fn document_sentinel() -> DocumentView {
    DocumentView {
        institution_id: Seq::empty(),
        document_id: Seq::empty(),
        owner: anonymous_identity_spec(),
        name: Seq::empty(),
        company_name: Seq::empty(),
        description: Seq::empty(),
        document_data: DocumentTypeView::EarningRelease(earning_release_sentinel()),
        document_category: CollectionCategory::EarningRelease,
        file_hash: Seq::empty(),
        file_size: 0,
        file_type: Seq::empty(),
        file_data: Seq::empty(),
        publication_date: 0,
    }
}

impl Default for Document {
    fn default() -> (document: Self)
        ensures
            document@ == document_sentinel(),
    {
        Document {
            institution_id: String::new(),
            document_id: String::new(),
            owner: anonymous_identity(),
            name: String::new(),
            company_name: String::new(),
            description: String::new(),
            document_data: DocumentType::default(),
            document_category: CollectionCategory::default(),
            file_hash: String::new(),
            file_size: 0,
            file_type: String::new(),
            file_data: Vec::new(),
            publication_date: 0,
        }
    }
}

impl Institution {
    /// Whether this is the empty institution.
    pub fn is_sentinel(&self) -> (yes: bool)
        ensures
            yes == (self@ == institution_sentinel()),
    {
        let yes = self.institution_id.as_str().is_empty() && is_anonymous(&self.owner)
            && self.name.as_str().is_empty() && self.email.as_str().is_empty() && self.created_at
            == 0;
        proof {
            if yes {
                assert(self@.institution_id =~= Seq::<char>::empty());
                assert(self@.name =~= Seq::<char>::empty());
                assert(self@.email =~= Seq::<char>::empty());
            }
        }
        yes
    }
}

impl UserProfile {
    /// Whether this is the empty profile.
    pub fn is_sentinel(&self) -> (yes: bool)
        ensures
            yes == (self@ == user_profile_sentinel()),
    {
        let regular = match &self.role {
            UserRole::RegularUser => true,
            _ => false,
        };
        let yes = is_anonymous(&self.internet_identity) && self.name.as_str().is_empty()
            && self.email.as_str().is_empty() && regular
            && self.assigned_institution_id.as_str().is_empty() && self.created_at == 0
            && self.last_login == 0;
        proof {
            if yes {
                assert(self@.name =~= Seq::<char>::empty());
                assert(self@.email =~= Seq::<char>::empty());
                assert(self@.assigned_institution_id =~= Seq::<char>::empty());
            }
        }
        yes
    }
}

impl EarningReleaseData {
    /// Whether this is the empty earning release.
    pub fn is_sentinel(&self) -> (yes: bool)
        ensures
            yes == (self@ == earning_release_sentinel()),
    {
        let income = &self.consolidated_income_data;
        let balance = &self.consolidated_balance_sheet_data;
        let yes = self.earning_release_id.as_str().is_empty() && self.quarter == 0 && self.year == 0
            && income.gross_profit == 0 && income.operating_profit == 0 && income.ebitda == 0
            && income.profit_before_tax == 0 && income.net_profit == 0 && balance.total_assets == 0
            && balance.total_equity == 0 && balance.total_liabilities == 0
            && balance.total_liabilities_and_equity == 0;
        proof {
            if yes {
                assert(self@.earning_release_id =~= Seq::<char>::empty());
            }
        }
        yes
    }
}

impl Document {
    /// Whether this is the empty document.
    pub fn is_sentinel(&self) -> (yes: bool)
        ensures
            yes == (self@ == document_sentinel()),
    {
        let data_empty = match &self.document_data {
            DocumentType::EarningRelease(data) => data.is_sentinel(),
        };
        let yes = self.institution_id.as_str().is_empty() && self.document_id.as_str().is_empty()
            && is_anonymous(&self.owner) && self.name.as_str().is_empty()
            && self.company_name.as_str().is_empty() && self.description.as_str().is_empty()
            && data_empty && self.file_hash.as_str().is_empty() && self.file_size == 0
            && self.file_type.as_str().is_empty() && self.file_data.len() == 0
            && self.publication_date == 0;
        proof {
            if yes {
                assert(self@.institution_id =~= Seq::<char>::empty());
                assert(self@.document_id =~= Seq::<char>::empty());
                assert(self@.name =~= Seq::<char>::empty());
                assert(self@.company_name =~= Seq::<char>::empty());
                assert(self@.description =~= Seq::<char>::empty());
                assert(self@.file_hash =~= Seq::<char>::empty());
                assert(self@.file_type =~= Seq::<char>::empty());
                assert(self@.file_data =~= Seq::<u8>::empty());
            }
        }
        yes
    }
}

} // verus!
