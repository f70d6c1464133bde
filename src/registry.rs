use vstd::prelude::*;

verus! {

/// One authorization: `account_id` may move the token while it presents `approval_id`.
pub struct Approval {
    pub account_id: String,
    pub approval_id: u64,
}

/// A non-fungible token: its identity, its owner and its authorizations.
pub struct Token {
    pub token_id: String,
    pub owner_id: String,
    pub approvals: Vec<Approval>,
}

/// What a token is, abstractly: an owner and a map from spender to authorization.
pub ghost struct TokenModel {
    pub owner: Seq<char>,
    pub approvals: Map<Seq<char>, u64>,
}

/// The authorization recorded for spender `k`: the last record for `k` counts.
pub open spec fn approval_lookup(s: Seq<Approval>, k: Seq<char>) -> Option<u64>
    decreases s.len(),
{
    if s.len() == 0 {
        None
    } else if s.last().account_id@ == k {
        Some(s.last().approval_id)
    } else {
        approval_lookup(s.drop_last(), k)
    }
}

/// The authorization map that a list of records stands for.
pub open spec fn approvals_map(s: Seq<Approval>) -> Map<Seq<char>, u64> {
    Map::new(|k: Seq<char>| approval_lookup(s, k) is Some, |k: Seq<char>| approval_lookup(s, k)->Some_0)
}

/// The token recorded under identity `k`: the last record for `k` counts.
pub open spec fn token_lookup(s: Seq<Token>, k: Seq<char>) -> Option<Token>
    decreases s.len(),
{
    if s.len() == 0 {
        None
    } else if s.last().token_id@ == k {
        Some(s.last())
    } else {
        token_lookup(s.drop_last(), k)
    }
}

impl Token {
    pub open spec fn model(&self) -> TokenModel {
        TokenModel { owner: self.owner_id@, approvals: approvals_map(self.approvals@) }
    }

    /// A token owned by `owner_id`, with no authorization.
    pub fn new(token_id: String, owner_id: String) -> (r: Token)
        ensures
            r.token_id@ == token_id@,
            r.model() == (TokenModel { owner: owner_id@, approvals: Map::empty() }),
    {
        let r = Token { token_id, owner_id, approvals: Vec::new() };
        assert(approvals_map(r.approvals@) =~= Map::empty());
        r
    }
}

/// `caller` holds authorization `approval_id` on the token.
pub open spec fn authorized(t: TokenModel, caller: Seq<char>, approval_id: u64) -> bool {
    t.approvals.contains_key(caller) && t.approvals[caller] == approval_id
}

/// Why the transfer engine refuses a transfer.
#[derive(Clone, Copy, Debug, PartialEq, Eq, Structural)]
pub enum TransferError {
    TokenNotFound,
    Unauthorized,
}

/// What a transfer leaves behind: the previous owner and the authorizations it invalidated.
pub struct TransferOutcome {
    pub previous_owner_id: String,
    pub approved_account_ids: Vec<Approval>,
}

/// Whether the engine refuses to let `caller` move token `id` with authorization `approval_id`.
pub open spec fn transfer_error(m: Map<Seq<char>, TokenModel>, caller: Seq<char>, id: Seq<char>, approval_id: u64) -> Option<
    TransferError,
> {
    if !m.contains_key(id) {
        Some(TransferError::TokenNotFound)
    } else if !authorized(m[id], caller, approval_id) {
        Some(TransferError::Unauthorized)
    } else {
        None
    }
}

/// The registry after token `id` has moved to `receiver` and lost every authorization.
pub open spec fn transferred(m: Map<Seq<char>, TokenModel>, id: Seq<char>, receiver: Seq<char>) -> Map<
    Seq<char>,
    TokenModel,
> {
    m.insert(id, TokenModel { owner: receiver, approvals: Map::empty() })
}

/// The authorization records of `s` in order, with each identity copied.
fn copy_approvals(s: &Vec<Approval>) -> (r: Vec<Approval>)
    ensures
        approvals_map(r@) == approvals_map(s@),
{
    let mut r: Vec<Approval> = Vec::new();
    let mut i: usize = 0;
    while i < s.len()
        invariant
            i <= s.len(),
            r@.len() == i,
            forall|j: int|
                0 <= j < i ==> #[trigger] r@[j].account_id@ == s@[j].account_id@ && r@[j].approval_id
                    == s@[j].approval_id,
        decreases s.len() - i,
    {
        r.push(Approval { account_id: s[i].account_id.clone(), approval_id: s[i].approval_id });
        i = i + 1;
    }
    proof {
        assert forall|k: Seq<char>| approval_lookup(r@, k) == approval_lookup(s@, k) by {
            lemma_lookup_same_records(r@, s@, k);
        }
        assert(approvals_map(r@) =~= approvals_map(s@));
    }
    r
}

proof fn lemma_lookup_same_records(a: Seq<Approval>, b: Seq<Approval>, k: Seq<char>)
    requires
        a.len() == b.len(),
        forall|j: int|
            0 <= j < a.len() ==> #[trigger] a[j].account_id@ == b[j].account_id@ && a[j].approval_id
                == b[j].approval_id,
    ensures
        approval_lookup(a, k) == approval_lookup(b, k),
    decreases a.len(),
{
    if a.len() > 0 {
        assert(a[a.len() - 1].account_id@ == b[b.len() - 1].account_id@);
        lemma_lookup_same_records(a.drop_last(), b.drop_last(), k);
    }
}

/// The authorization that `caller` holds on the token, if any.
fn find_approval(approvals: &Vec<Approval>, caller: &String) -> (r: Option<u64>)
    ensures
        r == approval_lookup(approvals@, caller@),
{
    let mut i: usize = approvals.len();
    assert(approvals@.subrange(0, i as int) =~= approvals@);
    while i > 0
        invariant
            i <= approvals@.len(),
            approval_lookup(approvals@, caller@) == approval_lookup(approvals@.subrange(0, i as int), caller@),
        decreases i,
    {
        let a = &approvals[i - 1];
        assert(approvals@.subrange(0, i as int).drop_last() =~= approvals@.subrange(0, i - 1));
        if a.account_id == *caller {
            return Some(a.approval_id);
        }
        i = i - 1;
    }
    None
}

/// The asset registry: every token, by identity.
pub struct Contract {
    tokens: Vec<Token>,
}

impl View for Contract {
    type V = Map<Seq<char>, TokenModel>;

    closed spec fn view(&self) -> Map<Seq<char>, TokenModel> {
        Map::new(
            |k: Seq<char>| token_lookup(self.tokens@, k) is Some,
            |k: Seq<char>| token_lookup(self.tokens@, k)->Some_0.model(),
        )
    }
}

proof fn lemma_update_last(s: Seq<Token>, i: int, t: Token, k: Seq<char>)
    requires
        0 <= i < s.len(),
        s[i].token_id@ == t.token_id@,
        forall|j: int| i < j < s.len() ==> #[trigger] s[j].token_id@ != t.token_id@,
    ensures
        token_lookup(s.update(i, t), k) == (if k == t.token_id@ {
            Some(t)
        } else {
            token_lookup(s, k)
        }),
    decreases s.len(),
{
    if i == s.len() - 1 {
        assert(s.update(i, t).drop_last() =~= s.drop_last());
    } else {
        assert(s[s.len() - 1].token_id@ != t.token_id@);
        assert(s.update(i, t).drop_last() =~= s.drop_last().update(i, t));
        lemma_update_last(s.drop_last(), i, t, k);
    }
}

impl Contract {
    /// An empty registry.
    pub fn new() -> (r: Contract)
        ensures
            r@ == Map::<Seq<char>, TokenModel>::empty(),
    {
        let r = Contract { tokens: Vec::new() };
        assert(r@ =~= Map::<Seq<char>, TokenModel>::empty());
        r
    }

    /// The index of the record that holds token `token_id`, if any.
    fn find_token(&self, token_id: &String) -> (r: Option<usize>)
        ensures
            r is None ==> token_lookup(self.tokens@, token_id@) is None,
            r is Some ==> {
                let i = r->Some_0 as int;
                &&& 0 <= i < self.tokens@.len()
                &&& self.tokens@[i].token_id@ == token_id@
                &&& token_lookup(self.tokens@, token_id@) == Some(self.tokens@[i])
                &&& forall|j: int| i < j < self.tokens@.len() ==> #[trigger] self.tokens@[j].token_id@ != token_id@
            },
    {
        let mut i: usize = self.tokens.len();
        assert(self.tokens@.subrange(0, i as int) =~= self.tokens@);
        while i > 0
            invariant
                i <= self.tokens@.len(),
                token_lookup(self.tokens@, token_id@) == token_lookup(self.tokens@.subrange(0, i as int), token_id@),
                forall|j: int| i <= j < self.tokens@.len() ==> #[trigger] self.tokens@[j].token_id@ != token_id@,
            decreases i,
        {
            assert(self.tokens@.subrange(0, i as int).drop_last() =~= self.tokens@.subrange(0, i - 1));
            if self.tokens[i - 1].token_id == *token_id {
                return Some(i - 1);
            }
            i = i - 1;
        }
        None
    }

    /// Records `token`, replacing any token of the same identity.
    pub fn insert_token(&mut self, token: Token)
        ensures
            final(self)@ == old(self)@.insert(token.token_id@, token.model()),
    {
        let ghost t = token;
        match self.find_token(&token.token_id) {
            Some(i) => {
                let ghost s = self.tokens@;
                proof {
                    assert forall|k: Seq<char>| token_lookup(s.update(i as int, t), k) == (if k == t.token_id@ {
                        Some(t)
                    } else {
                        token_lookup(s, k)
                    }) by {
                        lemma_update_last(s, i as int, t, k);
                    }
                }
                self.tokens.set(i, token);
                assert(self.tokens@ == s.update(i as int, t));
            },
            None => {
                let ghost s = self.tokens@;
                self.tokens.push(token);
                assert(self.tokens@.drop_last() =~= s);
            },
        }
        assert(self@ =~= old(self)@.insert(t.token_id@, t.model()));
    }

    /// Decides, without changing anything, whether `internal_transfer` would accept the same call.
    pub fn check_transfer(&self, authorized_caller: &String, token_id: &String, approval_id: u64) -> (r: Result<(), TransferError>)
        ensures
            r is Ok <==> transfer_error(self@, authorized_caller@, token_id@, approval_id) is None,
            r is Err ==> transfer_error(self@, authorized_caller@, token_id@, approval_id) == Some(r->Err_0),
    {
        match self.find_token(token_id) {
            None => Err(TransferError::TokenNotFound),
            Some(i) => {
                let t = &self.tokens[i];
                match find_approval(&t.approvals, authorized_caller) {
                    Some(a) => {
                        if a == approval_id {
                            Ok(())
                        } else {
                            Err(TransferError::Unauthorized)
                        }
                    },
                    None => Err(TransferError::Unauthorized),
                }
            },
        }
    }

    /// Moves token `token_id` to `receiver_id` when `authorized_caller` holds authorization
    /// `approval_id` on it, and clears its authorizations. The caller is checked; the receiver
    /// is who owns the token afterwards.
    pub fn internal_transfer(
        &mut self,
        authorized_caller: &String,
        token_id: &String,
        approval_id: u64,
        receiver_id: &String,
    ) -> (r: Result<TransferOutcome, TransferError>)
        ensures
            match r {
                Err(e) => {
                    &&& transfer_error(old(self)@, authorized_caller@, token_id@, approval_id) == Some(e)
                    &&& *final(self) == *old(self)
                },
                Ok(out) => {
                    &&& transfer_error(old(self)@, authorized_caller@, token_id@, approval_id) is None
                    &&& final(self)@ == transferred(old(self)@, token_id@, receiver_id@)
                    &&& out.previous_owner_id@ == old(self)@[token_id@].owner
                    &&& approvals_map(out.approved_account_ids@) == old(self)@[token_id@].approvals
                },
            },
    {
        let i = match self.find_token(token_id) {
            None => {
                return Err(TransferError::TokenNotFound);
            },
            Some(i) => i,
        };
        match find_approval(&self.tokens[i].approvals, authorized_caller) {
            Some(a) => {
                if a != approval_id {
                    return Err(TransferError::Unauthorized);
                }
            },
            None => {
                return Err(TransferError::Unauthorized);
            },
        }
        let ghost s = self.tokens@;
        let new_token = Token { token_id: token_id.clone(), owner_id: receiver_id.clone(), approvals: Vec::new() };
        let ghost t = new_token;
        proof {
            assert(approvals_map(t.approvals@) =~= Map::empty());
            assert forall|k: Seq<char>| token_lookup(s.update(i as int, t), k) == (if k == t.token_id@ {
                Some(t)
            } else {
                token_lookup(s, k)
            }) by {
                lemma_update_last(s, i as int, t, k);
            }
        }
        let old_token = self.tokens.remove(i);
        self.tokens.insert(i, new_token);
        assert(self.tokens@ =~= s.update(i as int, t));
        assert(self@ =~= transferred(old(self)@, token_id@, receiver_id@));
        Ok(TransferOutcome { previous_owner_id: old_token.owner_id, approved_account_ids: old_token.approvals })
    }

    /// A copy of token `token_id`, if the registry holds it.
    pub fn nft_token(&self, token_id: &String) -> (r: Option<Token>)
        ensures
            r is None <==> !self@.contains_key(token_id@),
            r is Some ==> r->Some_0.token_id@ == token_id@ && r->Some_0.model() == self@[token_id@],
    {
        match self.find_token(token_id) {
            Some(i) => {
                let t = &self.tokens[i];
                Some(Token {
                    token_id: t.token_id.clone(),
                    owner_id: t.owner_id.clone(),
                    approvals: copy_approvals(&t.approvals),
                })
            },
            None => None,
        }
    }
}

} // verus!
