//! The credential engine: issuing, verifying and revoking access tokens.
use crate::error::ApiError;
use crate::macaroon::{minted_macaroon, mint_macaroon, open_macaroon, opened_macaroon, readable_token, token_readable};
use vstd::prelude::*;

verus! {

/// A stored access token.
#[derive(Clone, Debug)]
pub struct AccessToken {
    /// The internal sequence number: the token's place in the store.
    pub id: u64,
    /// The identifier embedded in the signed value.
    pub identifier: String,
    /// The user the token is bound to.
    pub user_id: String,
    /// The value presented by clients.
    pub value: String,
    /// Once true, the token never validates again.
    pub revoked: bool,
}

/// Who made a request, and with which token.
#[derive(Clone, Debug)]
pub struct Identity {
    pub user_id: String,
    pub token_id: u64,
}

/// The record of every token issued, revoked ones included.
pub struct TokenStore {
    pub rows: Vec<AccessToken>,
}

/// The caveat that binds a token to a user.
pub open spec fn user_caveat(user: Seq<char>) -> Seq<char> {
    "user_id = "@ + user
}

/// Every caveat is one that the verifier knows and that holds of the user.
pub open spec fn caveats_hold(caveats: Seq<Seq<char>>, user: Seq<char>) -> bool {
    forall|k: int| 0 <= k < caveats.len() ==> #[trigger] caveats[k] == user_caveat(user)
}

/// Sequence numbers match places, and identifiers are unique.
pub open spec fn rows_wf(rows: Seq<AccessToken>) -> bool {
    &&& forall|i: int| 0 <= i < rows.len() ==> #[trigger] rows[i].id == i
    &&& forall|i: int, j: int|
        0 <= i < rows.len() && 0 <= j < rows.len() && i != j
            ==> #[trigger] rows[i].identifier@ != #[trigger] rows[j].identifier@
}

/// Row `i` carries the identifier, is live, and satisfies the caveats.
pub open spec fn accepts(rows: Seq<AccessToken>, identifier: Seq<char>, caveats: Seq<Seq<char>>, i: int) -> bool {
    &&& 0 <= i < rows.len()
    &&& rows[i].identifier@ == identifier
    &&& !rows[i].revoked
    &&& caveats_hold(caveats, rows[i].user_id@)
}

pub open spec fn identifier_taken(rows: Seq<AccessToken>, identifier: Seq<char>) -> bool {
    exists|i: int| 0 <= i < rows.len() && #[trigger] rows[i].identifier@ == identifier
}

/// The row that an opened credential resolves to, if any.
pub open spec fn check_spec(rows: Seq<AccessToken>, opened: Option<(Seq<char>, Seq<Seq<char>>)>) -> Option<int> {
    if opened is Some && exists|i: int| accepts(rows, opened->Some_0.0, opened->Some_0.1, i) {
        Some(choose|i: int| accepts(rows, opened->Some_0.0, opened->Some_0.1, i))
    } else {
        None
    }
}

/// The row that a presented value resolves to under the key: none unless the
/// value is readable, then the row its opened credential resolves to.
pub open spec fn verified_row(rows: Seq<AccessToken>, key: Seq<u8>, token: Seq<char>) -> Option<int> {
    if readable_token(token) {
        check_spec(rows, opened_macaroon(key, token))
    } else {
        None
    }
}

/// The rows with token `id` marked revoked.
pub open spec fn revoked_rows(rows: Seq<AccessToken>, id: int) -> Seq<AccessToken> {
    if 0 <= id < rows.len() {
        rows.update(id, AccessToken { revoked: true, ..rows[id] })
    } else {
        rows
    }
}

impl TokenStore {
    pub open spec fn wf(&self) -> bool {
        rows_wf(self.rows@)
    }

    pub fn new() -> (r: TokenStore)
        ensures
            r.wf(),
            r.rows@.len() == 0,
    {
        TokenStore { rows: Vec::new() }
    }

    /// Finds the row whose identifier is the given one.
    pub fn find(&self, identifier: &String) -> (r: Option<usize>)
        requires
            self.wf(),
        ensures
            r is Some <==> identifier_taken(self.rows@, identifier@),
            r is Some ==> r->Some_0 < self.rows@.len() && self.rows@[r->Some_0 as int].identifier@
                == identifier@,
    {
        let mut i: usize = 0;
        while i < self.rows.len()
            invariant
                0 <= i <= self.rows@.len(),
                forall|j: int| 0 <= j < i ==> #[trigger] self.rows@[j].identifier@ != identifier@,
            decreases self.rows@.len() - i,
        {
            if self.rows[i].identifier == *identifier {
                return Some(i);
            }
            i = i + 1;
        }
        None
    }

    /// Checks an opened credential: the row that carries its identifier must
    /// be live and every caveat must bind it to the row's user.
    pub fn check(&self, identifier: &String, caveats: &Vec<String>) -> (r: Result<Identity, ApiError>)
        requires
            self.wf(),
        ensures
            r is Ok <==> exists|i: int| accepts(self.rows@, identifier@, caveats.deep_view(), i),
            r is Ok ==> accepts(self.rows@, identifier@, caveats.deep_view(), r->Ok_0.token_id as int)
                && r->Ok_0.user_id@ == self.rows@[r->Ok_0.token_id as int].user_id@,
            r is Err ==> r->Err_0 == ApiError::Unauthenticated,
    {
        let found = self.find(identifier);
        match found {
            None => {
                proof {
                    assert forall|j: int| !accepts(self.rows@, identifier@, caveats.deep_view(), j) by {
                        if accepts(self.rows@, identifier@, caveats.deep_view(), j) {
                            assert(identifier_taken(self.rows@, identifier@));
                        }
                    }
                }
                Err(ApiError::Unauthenticated)
            },
            Some(i) => {
                let row = &self.rows[i];
                proof {
                    assert forall|j: int| accepts(self.rows@, identifier@, caveats.deep_view(), j) implies j == i by {
                        assert(self.rows@[j].identifier@ == self.rows@[i as int].identifier@);
                    }
                }
                if row.revoked {
                    return Err(ApiError::Unauthenticated);
                }
                let expected = bound_caveat(&row.user_id);
                let mut k: usize = 0;
                while k < caveats.len()
                    invariant
                        0 <= k <= caveats@.len(),
                        expected@ == user_caveat(row.user_id@),
                        i < self.rows@.len(),
                        *row == self.rows@[i as int],
                        !row.revoked,
                        forall|j: int| accepts(self.rows@, identifier@, caveats.deep_view(), j) ==> j == i,
                        forall|m: int| 0 <= m < k ==> caveats@[m]@ == user_caveat(row.user_id@),
                    decreases caveats@.len() - k,
                {
                    if !(caveats[k] == expected) {
                        proof {
                            assert(caveats.deep_view()[k as int] == caveats@[k as int]@);
                            assert forall|j: int| !accepts(self.rows@, identifier@, caveats.deep_view(), j) by {
                                if accepts(self.rows@, identifier@, caveats.deep_view(), j) {
                                    assert(j == i);
                                    assert(caveats.deep_view()[k as int] == user_caveat(row.user_id@));
                                }
                            }
                        }
                        return Err(ApiError::Unauthenticated);
                    }
                    k = k + 1;
                }
                proof {
                    assert forall|m: int| 0 <= m < caveats.deep_view().len() implies
                        caveats.deep_view()[m] == user_caveat(row.user_id@) by {
                        assert(caveats.deep_view()[m] == caveats@[m]@);
                    }
                    assert(accepts(self.rows@, identifier@, caveats.deep_view(), i as int));
                }
                Ok(Identity { user_id: row.user_id.clone(), token_id: row.id })
            },
        }
    }

    /// Issues a token for the user under a fresh identifier, and records it.
    pub fn issue(&mut self, key: &Vec<u8>, user_id: &String, identifier: String) -> (r: Result<String, ApiError>)
        requires
            old(self).wf(),
        ensures
            final(self).wf(),
            identifier_taken(old(self).rows@, identifier@) ==> r == Err::<String, ApiError>(ApiError::Storage),
            !identifier_taken(old(self).rows@, identifier@) && old(self).rows@.len() < u64::MAX
                && 4 * identifier@.len() + 16 <= 65535 && 4 * user_caveat(user_id@).len() + 9 <= 65535
                ==> r is Ok,
            r is Err ==> r->Err_0 == ApiError::Storage && *final(self) == *old(self),
            r is Ok ==> {
                &&& !identifier_taken(old(self).rows@, identifier@)
                &&& final(self).rows@.len() == old(self).rows@.len() + 1
                &&& final(self).rows@.drop_last() == old(self).rows@
                &&& final(self).rows@.last().identifier@ == identifier@
                &&& final(self).rows@.last().user_id@ == user_id@
                &&& !final(self).rows@.last().revoked
                &&& final(self).rows@.last().value@ == r->Ok_0@
                &&& r->Ok_0@ == minted_macaroon(key@, identifier@, user_caveat(user_id@))
                &&& readable_token(r->Ok_0@)
                &&& opened_macaroon(key@, r->Ok_0@) == Some((identifier@, seq![user_caveat(user_id@)]))
            },
    {
        if self.find(&identifier).is_some() {
            return Err(ApiError::Storage);
        }
        let n = self.rows.len();
        if n as u64 == u64::MAX {
            return Err(ApiError::Storage);
        }
        let caveat = bound_caveat(user_id);
        let value = match mint_macaroon(key, &identifier, &caveat) {
            Some(v) => v,
            None => return Err(ApiError::Storage),
        };
        let row = AccessToken {
            id: n as u64,
            identifier,
            user_id: user_id.clone(),
            value: value.clone(),
            revoked: false,
        };
        self.rows.push(row);
        proof {
            assert(self.rows@.drop_last() =~= old(self).rows@);
        }
        Ok(value)
    }

    /// Verifies a presented value: its signature first, then the stored row.
    pub fn verify(&self, key: &Vec<u8>, token: &str) -> (r: Result<Identity, ApiError>)
        requires
            self.wf(),
        ensures
            (r is Ok) == (verified_row(self.rows@, key@, token@) is Some),
            r is Ok ==> r->Ok_0.token_id as int == verified_row(self.rows@, key@, token@)->Some_0
                && r->Ok_0.user_id@ == self.rows@[r->Ok_0.token_id as int].user_id@,
            r is Err ==> r->Err_0 == ApiError::Unauthenticated,
    {
        if !token_readable(token) {
            return Err(ApiError::Unauthenticated);
        }
        let opened = open_macaroon(key, token);
        match opened {
            None => Err(ApiError::Unauthenticated),
            Some((identifier, caveats)) => {
                let r = self.check(&identifier, &caveats);
                proof {
                    let o = opened_macaroon(key@, token@);
                    assert(o->Some_0.0 == identifier@ && o->Some_0.1 == caveats.deep_view());
                    if r is Ok {
                        let i = r->Ok_0.token_id as int;
                        let c = choose|j: int| accepts(self.rows@, identifier@, caveats.deep_view(), j);
                        assert(self.rows@[i].identifier@ == self.rows@[c].identifier@);
                    }
                }
                r
            },
        }
    }

    /// Marks the token revoked; revoking a revoked token changes nothing.
    pub fn revoke(&mut self, token_id: u64)
        requires
            old(self).wf(),
        ensures
            final(self).wf(),
            final(self).rows@ == revoked_rows(old(self).rows@, token_id as int),
    {
        if token_id < self.rows.len() as u64 {
            let i = token_id as usize;
            let old_row = &self.rows[i];
            let row = AccessToken {
                id: old_row.id,
                identifier: old_row.identifier.clone(),
                user_id: old_row.user_id.clone(),
                value: old_row.value.clone(),
                revoked: true,
            };
            self.rows.set(i, row);
            proof {
                assert(self.rows@ =~= revoked_rows(old(self).rows@, token_id as int));
            }
        }
    }
}

/// The caveat that binds a token to the user.
pub fn bound_caveat(user_id: &String) -> (r: String)
    ensures
        r@ == user_caveat(user_id@),
{
    let mut r = "user_id = ".to_owned();
    r.append(user_id.as_str());
    r
}

/// A token value that `issue` hands out verifies, under the same key, as the
/// row it recorded and so as that row's user; once that row is revoked the
/// value no longer verifies.
pub proof fn lemma_issued_token_verifies_until_revoked(rows: Seq<AccessToken>, row: AccessToken, key: Seq<u8>, value: Seq<char>)
    requires
        rows_wf(rows),
        row.id == rows.len(),
        !identifier_taken(rows, row.identifier@),
        !row.revoked,
        readable_token(value),
        opened_macaroon(key, value) == Some((row.identifier@, seq![user_caveat(row.user_id@)])),
    ensures
        rows_wf(rows.push(row)),
        verified_row(rows.push(row), key, value) == Some(rows.len() as int),
        rows.push(row)[rows.len() as int].user_id == row.user_id,
        verified_row(revoked_rows(rows.push(row), rows.len() as int), key, value) is None,
{
    let all = rows.push(row);
    let n = rows.len() as int;
    let caveats = seq![user_caveat(row.user_id@)];
    assert forall|i: int| 0 <= i < all.len() implies #[trigger] all[i].id == i by {
        if i < n {
            assert(all[i] == rows[i]);
        }
    }
    assert forall|i: int, j: int|
        0 <= i < all.len() && 0 <= j < all.len() && i != j implies
        #[trigger] all[i].identifier@ != #[trigger] all[j].identifier@ by {
        if i < n && j < n {
            assert(all[i] == rows[i] && all[j] == rows[j]);
        } else if i < n {
            assert(all[i] == rows[i]);
        } else {
            assert(all[j] == rows[j]);
        }
    }
    assert(accepts(all, row.identifier@, caveats, n));
    let opened = opened_macaroon(key, value);
    assert(opened->Some_0.0 == row.identifier@ && opened->Some_0.1 == caveats);
    let c = choose|i: int| accepts(all, opened->Some_0.0, opened->Some_0.1, i);
    assert(all[c].identifier@ == all[n].identifier@);
    assert(c == n);
    assert(check_spec(all, opened) == Some(n));
    let revoked = revoked_rows(all, n);
    assert forall|i: int| !accepts(revoked, opened->Some_0.0, opened->Some_0.1, i) by {
        if accepts(revoked, opened->Some_0.0, opened->Some_0.1, i) && i != n {
            assert(revoked[i] == all[i]);
            assert(all[i].identifier@ == all[n].identifier@);
        }
    }
}

/// A revoked row is accepted under no caveats, and stays revoked through
/// every later revocation and every later issue.
pub proof fn lemma_revoked_stays_refused(rows: Seq<AccessToken>, id: int, caveats: Seq<Seq<char>>, other: int, row: AccessToken)
    requires
        rows_wf(rows),
        0 <= id < rows.len(),
        rows[id].revoked,
    ensures
        check_spec(rows, Some((rows[id].identifier@, caveats))) is None,
        revoked_rows(rows, other)[id].revoked,
        rows.push(row)[id].revoked,
{
    let opened = Some((rows[id].identifier@, caveats));
    assert(opened->Some_0.0 == rows[id].identifier@ && opened->Some_0.1 == caveats);
    assert forall|i: int| !accepts(rows, opened->Some_0.0, opened->Some_0.1, i) by {
        if accepts(rows, opened->Some_0.0, opened->Some_0.1, i) {
            assert(rows[i].identifier@ == rows[id].identifier@);
        }
    }
}

/// Revoking a token a second time leaves the rows as the first revocation did.
pub proof fn lemma_revoke_idempotent(rows: Seq<AccessToken>, id: int)
    ensures
        revoked_rows(revoked_rows(rows, id), id) == revoked_rows(rows, id),
{
    if 0 <= id < rows.len() {
        assert(revoked_rows(revoked_rows(rows, id), id) =~= revoked_rows(rows, id));
    }
}

} // verus!
