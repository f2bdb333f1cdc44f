//! The Windows credential store: Studio lists its signed-in accounts in one
//! registry value, `{"<id>":{"username":..,"profilePicUrl":..}}` entries
//! separated by `;`, and keeps the active id in Credential Manager.

use vstd::prelude::*;
use vstd::string::*;

use crate::credential::{accounts_view, Account, AccountView, StoreError};
use crate::json::{
    json_as_str, json_document, json_get, lemma_members_model, members_model, parse_json,
    JsonModel, JsonValue,
};
use crate::text::{
    chars_of, lemma_split_on_join, ranges_text, split_on, split_ranges, trim_range, trimmed,
};

verus! {

/// The credential store Studio uses on Windows.
pub struct WindowsCredentialStore;

/// The account that one member of an entry describes: the member's name is
/// the user id, its `username` string the name (empty when missing or not a
/// string) and its `profilePicUrl` string the picture.
pub open spec fn member_account(member: (Seq<char>, JsonModel)) -> AccountView {
    AccountView {
        user_id: member.0,
        username: match json_as_str(json_get(member.1, "username"@)) {
            Some(name) => name,
            None => Seq::empty(),
        },
        profile_pic_url: json_as_str(json_get(member.1, "profilePicUrl"@)),
    }
}

/// The accounts one parsed entry lists: one per member of an object, none
/// for any other JSON value.
pub open spec fn document_accounts(document: JsonModel) -> Seq<AccountView> {
    match document {
        JsonModel::Object(members) => members.map_values(|m: (Seq<char>, JsonModel)| member_account(m)),
        _ => Seq::empty(),
    }
}

/// The accounts listed by `pieces`, the `;`-separated pieces of the registry
/// value, in order: each piece is trimmed, blank ones are skipped, and the
/// first piece that is not JSON is the error.
pub open spec fn pieces_accounts(pieces: Seq<Seq<char>>) -> Result<Seq<AccountView>, Seq<char>>
    decreases pieces.len(),
{
    if pieces.len() == 0 {
        Ok(Seq::empty())
    } else {
        match pieces_accounts(pieces.drop_last()) {
            Err(entry) => Err(entry),
            Ok(before) => {
                let entry = trimmed(pieces.last());
                if entry.len() == 0 {
                    Ok(before)
                } else {
                    match json_document(entry) {
                        None => Err(entry),
                        Some(document) => Ok(before + document_accounts(document)),
                    }
                }
            },
        }
    }
}

/// The accounts that the registry value `text` lists, or the first entry of
/// it that is not JSON.
pub open spec fn registry_accounts(text: Seq<char>) -> Result<Seq<AccountView>, Seq<char>> {
    pieces_accounts(split_on(text, ';'))
}

proof fn lemma_error_persists(pieces: Seq<Seq<char>>, k: int)
    requires
        0 <= k <= pieces.len(),
        pieces_accounts(pieces.take(k)) is Err,
    ensures
        pieces_accounts(pieces) == pieces_accounts(pieces.take(k)),
    decreases pieces.len() - k,
{
    if k < pieces.len() {
        assert(pieces.take(k + 1).drop_last() =~= pieces.take(k));
        lemma_error_persists(pieces, k + 1);
    } else {
        assert(pieces.take(k) =~= pieces);
    }
}

/// An entry lists one account per member of its object, in the members'
/// order, each carrying as user id the name of the very member it was read
/// from, as username that member's `username` string (empty when there is
/// none) and as picture its `profilePicUrl` string; an entry that is not an
/// object lists no account.
pub proof fn law_entry_accounts(document: JsonModel)
    ensures
        match document {
            JsonModel::Object(members) => {
                &&& document_accounts(document).len() == members.len()
                &&& forall|k: int|
                    0 <= k < members.len() ==> {
                        &&& (#[trigger] document_accounts(document)[k]).user_id == members[k].0
                        &&& document_accounts(document)[k].username == match json_get(
                            members[k].1,
                            "username"@,
                        ) {
                            Some(JsonModel::String(name)) => name,
                            _ => Seq::empty(),
                        }
                        &&& document_accounts(document)[k].profile_pic_url == match json_get(
                            members[k].1,
                            "profilePicUrl"@,
                        ) {
                            Some(JsonModel::String(url)) => Some(url),
                            _ => None,
                        }
                    }
            },
            _ => document_accounts(document).len() == 0,
        },
{
}

/// The accounts of two lists of pieces, one after the other, or the first
/// error met.
pub open spec fn combined(
    first: Result<Seq<AccountView>, Seq<char>>,
    second: Result<Seq<AccountView>, Seq<char>>,
) -> Result<Seq<AccountView>, Seq<char>> {
    match first {
        Err(entry) => Err(entry),
        Ok(before) => match second {
            Ok(after) => Ok(before + after),
            Err(entry) => Err(entry),
        },
    }
}

proof fn lemma_pieces_join(p: Seq<Seq<char>>, q: Seq<Seq<char>>)
    ensures
        pieces_accounts(p + q) == combined(pieces_accounts(p), pieces_accounts(q)),
    decreases q.len(),
{
    if q.len() == 0 {
        assert(p + q =~= p);
        if let Ok(x) = pieces_accounts(p) {
            assert(x + Seq::<AccountView>::empty() =~= x);
        }
    } else {
        lemma_pieces_join(p, q.drop_last());
        assert((p + q).drop_last() =~= p + q.drop_last());
        assert((p + q).last() == q.last());
        if let Ok(x) = pieces_accounts(p) {
            if let Ok(y) = pieces_accounts(q.drop_last()) {
                let entry = trimmed(q.last());
                if entry.len() != 0 {
                    if let Some(document) = json_document(entry) {
                        assert(x + y + document_accounts(document) =~= x + (y + document_accounts(
                            document,
                        )));
                    }
                }
            }
        }
    }
}

/// Registry values concatenate: two values joined by `;` list the accounts
/// of the first and then those of the second, and are malformed, naming the
/// same entry, when the first is, or else when the second is.
pub proof fn law_registry_values_concatenate(first: Seq<char>, second: Seq<char>)
    ensures
        registry_accounts(first + seq![';'] + second) == combined(
            registry_accounts(first),
            registry_accounts(second),
        ),
{
    lemma_split_on_join(first, second, ';');
    lemma_pieces_join(split_on(first, ';'), split_on(second, ';'));
}

/// `serde_json::Error` as text, through its `Display` impl. Nothing is
/// claimed of the wording.
#[verifier::external_body]
fn json_error_text(error: &serde_json::Error) -> String {
    error.to_string()
}

impl WindowsCredentialStore {
    pub fn new() -> Self {
        WindowsCredentialStore
    }

    /// The account of one member of a parsed entry.
    fn member_to_account(user_id: &String, data: &JsonValue) -> (account: Account)
        ensures
            account@ == member_account((user_id@, data.model())),
    {
        let username = match data.get("username") {
            Some(v) => match v.as_str() {
                Some(s) => String::from_str(s),
                None => String::from_str(""),
            },
            None => String::from_str(""),
        };
        let profile_pic_url = match data.get("profilePicUrl") {
            Some(v) => match v.as_str() {
                Some(s) => Some(String::from_str(s)),
                None => None,
            },
            None => None,
        };
        proof {
            reveal_strlit("");
        }
        let account = Account { user_id: user_id.clone(), username, profile_pic_url };
        assert(account.user_id@ == user_id@);
        assert(account.username@ == member_account((user_id@, data.model())).username);
        assert(account.profile_pic_url.deep_view() == member_account((user_id@, data.model())).profile_pic_url);
        account
    }

    /// The accounts that Studio's `LoggedInUsersStore` value lists.
    pub fn parse_accounts_from_registry(json_str: &str) -> (r: Result<Vec<Account>, StoreError>)
        ensures
            match r {
                Ok(accounts) => registry_accounts(json_str@) == Ok::<Seq<AccountView>, Seq<char>>(
                    accounts_view(accounts@),
                ),
                Err(error) => registry_accounts(json_str@) matches Err(entry) && error matches StoreError::MalformedAccountEntry { entry: e, .. } && e@ == entry,
            },
    {
        let chars = chars_of(json_str);
        let ranges = split_ranges(&chars, ';');
        let ghost pieces = ranges_text(chars@, ranges@);
        let mut accounts: Vec<Account> = Vec::new();
        let mut k: usize = 0;
        assert(pieces.take(0) =~= Seq::<Seq<char>>::empty());
        assert(accounts_view(accounts@) =~= Seq::<AccountView>::empty());
        while k < ranges.len()
            invariant
                k <= ranges.len(),
                chars@ == json_str@,
                pieces == ranges_text(chars@, ranges@),
                pieces == split_on(json_str@, ';'),
                forall|j: int| #![trigger ranges@[j]] 0 <= j < ranges.len() ==> ranges@[j].0 <= ranges@[j].1 <= chars.len(),
                pieces_accounts(pieces.take(k as int)) == Ok::<Seq<AccountView>, Seq<char>>(
                    accounts_view(accounts@),
                ),
            decreases ranges.len() - k,
        {
            let (lo, hi) = ranges[k];
            let (a, b) = trim_range(&chars, lo, hi);
            let ghost before = accounts_view(accounts@);
            assert(pieces.take(k + 1).drop_last() =~= pieces.take(k as int));
            assert(pieces.take(k + 1).last() == pieces[k as int]);
            assert(pieces[k as int] == chars@.subrange(lo as int, hi as int));
            if a < b {
                let entry = json_str.substring_char(a, b);
                match parse_json(entry) {
                    Err(error) => {
                        proof {
                            lemma_error_persists(pieces, k + 1);
                        }
                        let cause = json_error_text(&error);
                        return Err(StoreError::MalformedAccountEntry { entry: String::from_str(entry), cause });
                    },
                    Ok(document) => {
                        if let JsonValue::Object(members) = &document {
                            let ghost model = members_model(members@);
                            proof {
                                lemma_members_model(members@);
                            }
                            let mut i: usize = 0;
                            while i < members.len()
                                invariant
                                    i <= members.len(),
                                    model == members_model(members@),
                                    model.len() == members@.len(),
                                    forall|m: int| 0 <= m < members@.len() ==> #[trigger] model[m] == (
                                        members@[m].0@,
                                        members@[m].1.model(),
                                    ),
                                    accounts_view(accounts@) == before + model.take(i as int).map_values(
                                        |m: (Seq<char>, JsonModel)| member_account(m),
                                    ),
                                decreases members.len() - i,
                            {
                                let account = Self::member_to_account(&members[i].0, &members[i].1);
                                let ghost old_accounts = accounts@;
                                accounts.push(account);
                                assert(model[i as int] == (members@[i as int].0@, members@[i as int].1.model()));
                                assert(model.take(i + 1) =~= model.take(i as int).push(model[i as int]));
                                assert(accounts_view(accounts@) =~= accounts_view(old_accounts).push(account@));
                                assert(accounts_view(accounts@) =~= before + model.take(i + 1).map_values(
                                    |m: (Seq<char>, JsonModel)| member_account(m),
                                ));
                                i = i + 1;
                            }
                            assert(model.take(members.len() as int) =~= model);
                        } else {
                            assert(accounts_view(accounts@) =~= before + document_accounts(document.model()));
                        }
                    },
                }
            }
            k = k + 1;
        }
        assert(pieces.take(ranges.len() as int) =~= pieces);
        Ok(accounts)
    }
}

} // verus!
