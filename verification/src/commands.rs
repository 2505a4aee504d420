//! The command layer: each command is a pure transition of the store's
//! contents. A rejected command — validation failure, missing token
//! identifier — leaves the store exactly as it was.

use vstd::prelude::*;
use vstd::pervasive::VecAdditionalExecFns;

use crate::category::Category;
use crate::clock::today;
use crate::date::{spec_valid_date, Date};
use crate::errors::{CommandError, StorageError, ValidationError};
use crate::nft::{spec_validate, NftModel, NFT};
use crate::storage::FileStorage;

verus! {

// ---------------------------------------------------------------------------
// Spec transitions.
// ---------------------------------------------------------------------------
/// The index of the first record holding the token, scanning from the
/// front; `None` when no record holds it.
pub open spec fn spec_find_token(s: Seq<NftModel>, t: Seq<char>) -> Option<int>
    decreases s.len(),
{
    if s.len() == 0 {
        None
    } else if s[0].token_id == t {
        Some(0)
    } else {
        match spec_find_token(s.skip(1), t) {
            None => None,
            Some(i) => Some(i + 1),
        }
    }
}

/// `spec_find_token` names the first match: the index it returns holds the
/// token and no earlier index does; `None` means no index holds it.
pub proof fn lemma_find_token(s: Seq<NftModel>, t: Seq<char>)
    ensures
        match spec_find_token(s, t) {
            None => forall|i: int| 0 <= i < s.len() ==> s[i].token_id != t,
            Some(i) => 0 <= i < s.len() && s[i].token_id == t && (forall|j: int|
                0 <= j < i ==> s[j].token_id != t),
        },
    decreases s.len(),
{
    if s.len() != 0 && s[0].token_id != t {
        lemma_find_token(s.skip(1), t);
        match spec_find_token(s.skip(1), t) {
            None => {
                assert forall|i: int| 0 <= i < s.len() implies s[i].token_id != t by {
                    if i > 0 {
                        assert(s.skip(1)[i - 1] == s[i]);
                    }
                }
            },
            Some(k) => {
                assert(s.skip(1)[k] == s[k + 1]);
                assert forall|j: int| 0 <= j < k + 1 implies s[j].token_id != t by {
                    if j > 0 {
                        assert(s.skip(1)[j - 1] == s[j]);
                    }
                }
            },
        }
    }
}

/// The records whose token identifier differs from `t`, kept in order.
pub open spec fn spec_remove_token(s: Seq<NftModel>, t: Seq<char>) -> Seq<NftModel>
    decreases s.len(),
{
    if s.len() == 0 {
        Seq::empty()
    } else if s[0].token_id == t {
        spec_remove_token(s.skip(1), t)
    } else {
        seq![s[0]] + spec_remove_token(s.skip(1), t)
    }
}

/// Removal distributes over concatenation of record sequences.
pub proof fn lemma_remove_token_concat(a: Seq<NftModel>, b: Seq<NftModel>, t: Seq<char>)
    ensures
        spec_remove_token(a + b, t) == spec_remove_token(a, t) + spec_remove_token(b, t),
    decreases a.len(),
{
    if a.len() == 0 {
        assert(a + b =~= b);
        assert(spec_remove_token(a, t) + spec_remove_token(b, t) =~= spec_remove_token(b, t));
    } else {
        lemma_remove_token_concat(a.skip(1), b, t);
        assert((a + b).skip(1) =~= a.skip(1) + b);
        if a[0].token_id != t {
            assert(seq![a[0]] + (spec_remove_token(a.skip(1), t) + spec_remove_token(b, t)) =~= (
            seq![a[0]] + spec_remove_token(a.skip(1), t)) + spec_remove_token(b, t));
        }
    }
}

/// Removal takes out at least one record exactly when some record holds
/// the token, and never grows the sequence.
pub proof fn lemma_remove_token_len(s: Seq<NftModel>, t: Seq<char>)
    ensures
        spec_remove_token(s, t).len() <= s.len(),
        spec_remove_token(s, t).len() == s.len() <==> spec_find_token(s, t) is None,
    decreases s.len(),
{
    if s.len() != 0 {
        lemma_remove_token_len(s.skip(1), t);
    }
}

/// Law: deletion removes exactly the matching records — no record holding
/// the token survives removal.
pub proof fn lemma_removed_all(s: Seq<NftModel>, t: Seq<char>)
    ensures
        forall|i: int|
            0 <= i < spec_remove_token(s, t).len() ==> (#[trigger] spec_remove_token(s, t)[i])
                .token_id != t,
    decreases s.len(),
{
    if s.len() != 0 {
        lemma_removed_all(s.skip(1), t);
    }
}

/// Law: deletion removes only the matching records — every record holding
/// any other token identifier survives removal, as often as it occurred.
pub proof fn lemma_remove_keeps_others(s: Seq<NftModel>, t: Seq<char>, u: Seq<char>)
    requires
        u != t,
    ensures
        spec_count_token(spec_remove_token(s, t), u) == spec_count_token(s, u),
    decreases s.len(),
{
    if s.len() != 0 {
        lemma_remove_keeps_others(s.skip(1), t, u);
        if s[0].token_id != t {
            lemma_count_token_concat(seq![s[0]], spec_remove_token(s.skip(1), t), u);
            assert(seq![s[0]].skip(1) =~= Seq::<NftModel>::empty());
            assert(spec_count_token(Seq::<NftModel>::empty(), u) == 0);
        }
    }
}

/// How many records hold the token.
pub open spec fn spec_count_token(s: Seq<NftModel>, t: Seq<char>) -> nat
    decreases s.len(),
{
    if s.len() == 0 {
        0
    } else {
        (if s[0].token_id == t {
            1nat
        } else {
            0nat
        }) + spec_count_token(s.skip(1), t)
    }
}

/// Counting distributes over concatenation of record sequences.
pub proof fn lemma_count_token_concat(a: Seq<NftModel>, b: Seq<NftModel>, t: Seq<char>)
    ensures
        spec_count_token(a + b, t) == spec_count_token(a, t) + spec_count_token(b, t),
    decreases a.len(),
{
    if a.len() == 0 {
        assert(a + b =~= b);
    } else {
        lemma_count_token_concat(a.skip(1), b, t);
        assert((a + b).skip(1) =~= a.skip(1) + b);
    }
}

/// Law: creating a record under a token identifier the store does not hold
/// yet leaves exactly one record under that identifier to be read back.
pub proof fn lemma_create_then_read(s: Seq<NftModel>, n: NftModel)
    requires
        spec_count_token(s, n.token_id) == 0,
    ensures
        spec_count_token(s.push(n), n.token_id) == 1,
{
    assert(s.push(n) =~= s + seq![n]);
    lemma_count_token_concat(s, seq![n], n.token_id);
    assert(seq![n].skip(1) =~= Seq::<NftModel>::empty());
    assert(spec_count_token(Seq::<NftModel>::empty(), n.token_id) == 0);
    assert(spec_count_token(seq![n], n.token_id) == 1);
}

/// The update transition: the first record holding the token gets the new
/// owner identifier, the changed record is judged again against `today`,
/// and the store is only changed when that judgement passes.
pub open spec fn spec_update(s: Seq<NftModel>, t: Seq<char>, owner: u64, today: Date) -> Result<
    Seq<NftModel>,
    CommandError,
> {
    match spec_find_token(s, t) {
        None => Err(CommandError::NotFound),
        Some(i) => {
            let m = NftModel { owner_id: owner, ..s[i] };
            match spec_validate(m, today) {
                Ok(()) => Ok(s.update(i, m)),
                Err(e) => Err(CommandError::Validation(e)),
            }
        },
    }
}

/// Law: updating a token identifier the store does not hold reports the
/// not-found condition (and, through the command's contract, leaves the
/// store unchanged).
pub proof fn lemma_update_missing_token(s: Seq<NftModel>, t: Seq<char>, owner: u64, today: Date)
    requires
        forall|i: int| 0 <= i < s.len() ==> (#[trigger] s[i]).token_id != t,
    ensures
        spec_update(s, t, owner, today) == Err::<Seq<NftModel>, CommandError>(
            CommandError::NotFound,
        ),
{
    lemma_find_token(s, t);
    if spec_find_token(s, t) is Some {
        assert(false);
    }
}

/// The delete transition: every record holding the token leaves the store;
/// when none holds it, the command fails and the store stands.
pub open spec fn spec_delete(s: Seq<NftModel>, t: Seq<char>) -> Result<Seq<NftModel>, CommandError> {
    if spec_find_token(s, t) is None {
        Err(CommandError::NotFound)
    } else {
        Ok(spec_remove_token(s, t))
    }
}

/// What a command that builds and judges a record owes: the validated
/// record on success, the first violated rule on failure.
pub open spec fn spec_collect_outcome(
    m: NftModel,
    today: Date,
    r: Result<NFT, ValidationError>,
) -> bool {
    match spec_validate(m, today) {
        Ok(()) => r matches Ok(n) && n@ == m,
        Err(e) => r == Err::<NFT, ValidationError>(e),
    }
}

/// What the update command owes for a store that held `pre` and holds
/// `post` after the call.
pub open spec fn spec_update_outcome(
    pre: Seq<NftModel>,
    post: Seq<NftModel>,
    token: Seq<char>,
    owner: u64,
    today: Date,
    r: Result<(), CommandError>,
) -> bool {
    match spec_update(pre, token, owner, today) {
        Ok(s) => r is Ok && post == s,
        Err(e) => r == Err::<(), CommandError>(e) && post == pre,
    }
}

// ---------------------------------------------------------------------------
// The commands.
// ---------------------------------------------------------------------------
/// Builds a record from the given fields and judges it against the date
/// standing for today: the record when every rule passes, the first
/// violated rule otherwise.
pub fn collect_nft_data_at(
    token_id: String,
    owner_id: u64,
    creation_date: Date,
    category: Category,
    today: &Date,
) -> (r: Result<NFT, ValidationError>)
    ensures
        spec_collect_outcome(
            NftModel { token_id: token_id@, owner_id, creation_date, category: category@ },
            *today,
            r,
        ),
{
    let nft = NFT::new(token_id, owner_id, creation_date, category);
    match nft.validate_at(today) {
        Ok(()) => Ok(nft),
        Err(e) => Err(e),
    }
}

/// Builds a record from the given fields and judges it against the system
/// clock's current date.
pub fn collect_nft_data(
    token_id: String,
    owner_id: u64,
    creation_date: Date,
    category: Category,
) -> (r: Result<NFT, ValidationError>)
    ensures
        exists|t: Date|
            spec_valid_date(t) && spec_collect_outcome(
                NftModel { token_id: token_id@, owner_id, creation_date, category: category@ },
                t,
                r,
            ),
{
    let t = today();
    collect_nft_data_at(token_id, owner_id, creation_date, category, &t)
}

/// Appends the given record to the store. Duplicate token identifiers are
/// not checked here: create does not scan for its key, a documented
/// looseness of this layer.
pub fn process_create_nft(nft: &NFT, storage: &mut FileStorage) -> (r: Result<(), StorageError>)
    ensures
        final(storage)@ == old(storage)@.push(nft@),
        final(storage).spec_path() == old(storage).spec_path(),
        r is Ok,
{
    storage.save(nft)
}

/// The first index of the records holding the token, as
/// [`spec_find_token`] names it.
fn find_token(records: &Vec<NFT>, token: &String) -> (r: Option<usize>)
    ensures
        match spec_find_token(records.deep_view(), token@) {
            None => r is None,
            Some(i) => r matches Some(j) && j as int == i,
        },
{
    let n = records.len();
    let mut i: usize = 0;
    while i < n
        invariant
            i <= n,
            n == records@.len(),
            forall|j: int|
                0 <= j < i ==> (#[trigger] records.deep_view()[j]).token_id != token@,
        decreases n - i,
    {
        if records[i].token_id.eq(token) {
            proof {
                assert(records.deep_view()[i as int].token_id == token@);
                lemma_find_token(records.deep_view(), token@);
            }
            return Some(i);
        }
        proof {
            assert(records.deep_view()[i as int].token_id != token@);
        }
        i = i + 1;
    }
    proof {
        lemma_find_token(records.deep_view(), token@);
    }
    None
}

/// Updates the owner identifier of the record holding the given token,
/// judging the changed record against the date standing for today; the
/// store stands untouched on every failure.
pub fn process_update_nft_at(
    token_id: &str,
    new_owner_id: u64,
    storage: &mut FileStorage,
    today: &Date,
) -> (r: Result<(), CommandError>)
    ensures
        final(storage).spec_path() == old(storage).spec_path(),
        spec_update_outcome(
            old(storage)@,
            final(storage)@,
            token_id@,
            new_owner_id,
            *today,
            r,
        ),
{
    let token = token_id.to_owned();
    let mut records = match storage.load_all() {
        Ok(v) => v,
        Err(e) => {
            return Err(CommandError::Storage(e));
        },
    };
    match find_token(&records, &token) {
        None => Err(CommandError::NotFound),
        Some(i) => {
            proof {
                lemma_find_token(records.deep_view(), token@);
            }
            let mut changed = records[i].clone();
            changed.owner_id = new_owner_id;
            match changed.validate_at(today) {
                Err(e) => Err(CommandError::Validation(e)),
                Ok(()) => {
                    let ghost pre = records.deep_view();
                    records.set(i, changed);
                    proof {
                        assert(records.deep_view() =~= pre.update(i as int, changed@));
                    }
                    match storage.save_all(records.as_slice()) {
                        Ok(()) => Ok(()),
                        Err(e) => Err(CommandError::Storage(e)),
                    }
                },
            }
        },
    }
}

/// Updates the owner identifier of the record holding the given token,
/// judging the changed record against the system clock's current date.
pub fn process_update_nft(token_id: &str, new_owner_id: u64, storage: &mut FileStorage) -> (r:
    Result<(), CommandError>)
    ensures
        final(storage).spec_path() == old(storage).spec_path(),
        exists|t: Date|
            spec_valid_date(t) && spec_update_outcome(
                old(storage)@,
                final(storage)@,
                token_id@,
                new_owner_id,
                t,
                r,
            ),
{
    let t = today();
    process_update_nft_at(token_id, new_owner_id, storage, &t)
}

/// Removes every record holding the given token from the store; when none
/// holds it, reports the not-found condition and leaves the store as it
/// was.
pub fn process_delete_nft(token_id: &str, storage: &mut FileStorage) -> (r: Result<
    (),
    CommandError,
>)
    ensures
        final(storage).spec_path() == old(storage).spec_path(),
        match spec_delete(old(storage)@, token_id@) {
            Ok(s) => r is Ok && final(storage)@ == s,
            Err(e) => r == Err::<(), CommandError>(e) && final(storage)@ == old(storage)@,
        },
{
    let token = token_id.to_owned();
    let records = match storage.load_all() {
        Ok(v) => v,
        Err(e) => {
            return Err(CommandError::Storage(e));
        },
    };
    let ghost dv = records.deep_view();
    let n = records.len();
    let mut kept: Vec<NFT> = Vec::new();
    let mut i: usize = 0;
    while i < n
        invariant
            i <= n,
            n == records@.len(),
            dv == records.deep_view(),
            kept.deep_view() == spec_remove_token(dv.take(i as int), token@),
        decreases n - i,
    {
        let ghost kept_pre = kept.deep_view();
        if !records[i].token_id.eq(&token) {
            kept.push(records[i].clone());
            proof {
                assert(kept.deep_view() =~= kept_pre.push(dv[i as int]));
            }
        }
        proof {
            assert(dv.take(i + 1) =~= dv.take(i as int) + seq![dv[i as int]]);
            lemma_remove_token_concat(dv.take(i as int), seq![dv[i as int]], token@);
            assert(seq![dv[i as int]].skip(1) =~= Seq::<NftModel>::empty());
            assert(spec_remove_token(Seq::<NftModel>::empty(), token@) =~= Seq::<
                NftModel,
            >::empty());
            if dv[i as int].token_id == token@ {
                assert(spec_remove_token(seq![dv[i as int]], token@) =~= Seq::<
                    NftModel,
                >::empty());
                assert(kept_pre + Seq::<NftModel>::empty() =~= kept_pre);
            } else {
                assert(seq![dv[i as int]] + Seq::<NftModel>::empty() =~= seq![dv[i as int]]);
                assert(spec_remove_token(seq![dv[i as int]], token@) =~= seq![dv[i as int]]);
                assert(kept_pre + seq![dv[i as int]] =~= kept_pre.push(dv[i as int]));
            }
        }
        i = i + 1;
    }
    proof {
        assert(dv.take(n as int) =~= dv);
        lemma_remove_token_len(dv, token@);
    }
    if kept.len() < records.len() {
        match storage.save_all(kept.as_slice()) {
            Ok(()) => Ok(()),
            Err(e) => Err(CommandError::Storage(e)),
        }
    } else {
        Err(CommandError::NotFound)
    }
}

} // verus!
