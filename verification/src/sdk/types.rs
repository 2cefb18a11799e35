//! Newtypes over field elements and words that the transaction kernel hands out.
use vstd::prelude::*;

use super::felt::{Felt, Word};

verus! {

/// The identifier of an account.
#[derive(Clone, Copy)]
pub struct AccountId(Felt);

impl AccountId {
    /// The field element that identifies the account.
    pub closed spec fn felt(self) -> Felt {
        self.0
    }
}

impl From<AccountId> for Felt {
    fn from(account_id: AccountId) -> (felt: Felt) {
        account_id.0
    }
}

impl vstd::std_specs::convert::FromSpecImpl<AccountId> for Felt {
    open spec fn obeys_from_spec() -> bool {
        true
    }

    open spec fn from_spec(account_id: AccountId) -> Felt {
        account_id.felt()
    }
}

/// An account is identified by the field element that it holds.
proof fn an_account_is_its_field_element(a: AccountId)
    ensures
        a.felt() == a.0,
{
}

/// Accounts are told apart by the field elements that identify them.
pub proof fn accounts_are_told_apart(a: AccountId, b: AccountId)
    ensures
        a.felt() == b.felt() ==> a == b,
{
}

/// An asset, which one word describes.
pub struct CoreAsset {
    pub(crate) inner: Word,
}

impl View for CoreAsset {
    type V = Word;

    closed spec fn view(&self) -> Word {
        self.inner
    }
}

impl CoreAsset {
    /// The asset that `word` describes.
    pub fn new(word: Word) -> (asset: Self)
        ensures
            asset@ == word,
    {
        CoreAsset { inner: word }
    }

    /// The word that describes this asset.
    pub fn as_word(&self) -> (word: Word)
        ensures
            word == self@,
    {
        self.inner
    }
}

/// An asset is described by the word that it holds.
pub(crate) proof fn an_asset_is_its_word(a: CoreAsset)
    ensures
        a@ == a.inner,
{
}

/// Assets are told apart by the words that describe them.
pub proof fn assets_are_told_apart(a: CoreAsset, b: CoreAsset)
    ensures
        a@ == b@ ==> a == b,
{
}

/// Who may consume a note.
pub struct Recipient(pub(crate) Word);

/// What a note is found by.
pub struct Tag(pub(crate) Felt);

/// The identifier of a note.
pub struct NoteId(pub(crate) Felt);

/// The kind of a note.
pub struct NoteType(pub(crate) Felt);

} // verus!
