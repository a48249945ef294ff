//! Which account a flow's username is, and which enabled flow watches an
//! account: matching by the lookup key, with a duplicate being an error.
use vstd::prelude::*;
use crate::normalize::{canonicalize_username, lookup_key_spec, username_lookup_key};
use crate::session::{opt_seq, opt_str_seq};
use crate::text::{append_chars, append_str, dec_int, fmt_i64, str_chars, string_from};

verus! {

/// The account a username resolves to.
#[derive(Debug, Clone, Copy, PartialEq, Eq)]
pub enum ResolveAccountResult {
    Existing { account_id: i64 },
    Created { account_id: i64 },
}

/// The account id, whichever way it was found.
pub fn resolve_account_id(result: ResolveAccountResult) -> (r: i64)
    ensures
        r == match result {
            ResolveAccountResult::Existing { account_id } => account_id,
            ResolveAccountResult::Created { account_id } => account_id,
        },
{
    match result {
        ResolveAccountResult::Existing { account_id } | ResolveAccountResult::Created { account_id } => account_id,
    }
}

/// What the accounts matching a username's lookup key call for.
#[derive(Debug, Clone, Copy, PartialEq, Eq)]
pub enum AccountMatch {
    /// Exactly this account matches.
    Existing { account_id: i64 },
    /// None matches: a monitored account is to be created.
    Create,
}

pub open spec fn duplicate_accounts_error(username: Seq<char>) -> Seq<char> {
    "duplicate accounts for username "@ + username
}

/// One match is that account, none means creating one, more is an error.
pub fn resolve_account_match(matched_ids: &[i64], username: &str) -> (r: Result<AccountMatch, String>)
    ensures
        matched_ids@.len() == 0 ==> r == Ok::<AccountMatch, String>(AccountMatch::Create),
        matched_ids@.len() == 1 ==> r == Ok::<AccountMatch, String>(AccountMatch::Existing { account_id: matched_ids@[0] }),
        matched_ids@.len() > 1 ==> (match r {
            Err(e) => e@ == duplicate_accounts_error(username@),
            Ok(_) => false,
        }),
{
    if matched_ids.len() == 0 {
        Ok(AccountMatch::Create)
    } else if matched_ids.len() == 1 {
        Ok(AccountMatch::Existing { account_id: matched_ids[0] })
    } else {
        let mut v = str_chars("duplicate accounts for username ");
        append_str(&mut v, username);
        Err(string_from(v.as_slice()))
    }
}

/// The account found for a flow's start username among the accounts with
/// its lookup key: none, one, or an error for more.
pub fn pick_start_account(
    start_username: &str,
    matched: Vec<(i64, String)>,
) -> (r: Result<Option<(i64, String)>, String>)
    ensures
        matched@.len() == 0 ==> r == Ok::<Option<(i64, String)>, String>(None),
        matched@.len() == 1 ==> r == Ok::<Option<(i64, String)>, String>(Some(matched@[0])),
        matched@.len() > 1 ==> (match r {
            Err(e) => e@ == duplicate_accounts_error(start_username@),
            Ok(_) => false,
        }),
{
    let n = matched.len();
    if n == 0 {
        Ok(None)
    } else if n == 1 {
        let mut m = matched;
        Ok(m.pop())
    } else {
        let mut v = str_chars("duplicate accounts for username ");
        append_str(&mut v, start_username);
        Err(string_from(v.as_slice()))
    }
}

/// The flows, among `(flow_id, start username)` rows in order, whose username
/// has the account's lookup key.
pub open spec fn flows_matching(rows: Seq<(i64, Option<Seq<char>>)>, key: Seq<char>) -> Seq<i64>
    decreases rows.len(),
{
    if rows.len() == 0 {
        Seq::empty()
    } else {
        let rest = flows_matching(rows.drop_first(), key);
        let hit = match rows[0].1 {
            Some(u) => lookup_key_spec(u) == Some(key),
            None => false,
        };
        if hit {
            seq![rows[0].0] + rest
        } else {
            rest
        }
    }
}

pub open spec fn rows_view(rows: Seq<(i64, Option<String>)>) -> Seq<(i64, Option<Seq<char>>)> {
    rows.map_values(|r: (i64, Option<String>)| (r.0, opt_seq(r.1)))
}

pub open spec fn multiple_flows_error(account_id: i64) -> Seq<char> {
    "multiple enabled flows match account_id "@ + dec_int(account_id as int)
}

/// The enabled flow watching an account: none when the account's username
/// has no lookup key or no flow matches, the flow when one does, an error
/// when several do.
pub fn match_flow_for_account(
    account_id: i64,
    account_username: &str,
    rows: &Vec<(i64, Option<String>)>,
) -> (r: Result<Option<i64>, String>)
    ensures
        lookup_key_spec(account_username@) is None ==> r == Ok::<Option<i64>, String>(None),
        lookup_key_spec(account_username@) matches Some(key) ==> {
            let m = flows_matching(rows_view(rows@), key);
            &&& m.len() == 0 ==> r == Ok::<Option<i64>, String>(None)
            &&& m.len() == 1 ==> r == Ok::<Option<i64>, String>(Some(m[0]))
            &&& m.len() > 1 ==> (match r {
                Err(e) => e@ == multiple_flows_error(account_id),
                Ok(_) => false,
            })
        },
{
    let key = match username_lookup_key(account_username) {
        None => return Ok(None),
        Some(k) => k,
    };
    let ghost all = rows_view(rows@);
    let mut matched: Vec<i64> = Vec::new();
    let mut i: usize = rows.len();
    proof {
        assert(all.subrange(i as int, all.len() as int) =~= Seq::<(i64, Option<Seq<char>>)>::empty());
    }
    while i > 0
        invariant
            all == rows_view(rows@),
            i <= rows@.len(),
            matched@ == flows_matching(all.subrange(i as int, all.len() as int), key@),
        decreases i,
    {
        let ghost rest = all.subrange(i - 1, all.len() as int);
        assert(rest[0] == (rows@[i - 1].0, opt_seq(rows@[i - 1].1)));
        assert(rest.drop_first() =~= all.subrange(i as int, all.len() as int));
        let hit = match &rows[i - 1].1 {
            Some(u) => match username_lookup_key(u.as_str()) {
                Some(k) => crate::text::str_eq(k.as_str(), key.as_str()),
                None => false,
            },
            None => false,
        };
        if hit {
            let ghost before = matched@;
            matched.insert(0, rows[i - 1].0);
            proof {
                assert(matched@ =~= seq![rows@[i - 1].0] + before);
            }
        }
        i = i - 1;
    }
    proof {
        assert(all.subrange(0, all.len() as int) =~= all);
    }
    if matched.len() == 0 {
        Ok(None)
    } else if matched.len() == 1 {
        Ok(Some(matched[0]))
    } else {
        let mut v = str_chars("multiple enabled flows match account_id ");
        let d = fmt_i64(account_id);
        append_chars(&mut v, d.as_slice());
        Err(string_from(v.as_slice()))
    }
}

} // verus!
