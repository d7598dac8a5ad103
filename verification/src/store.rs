//! The relational store model: the grant table and the token table.
//!
//! All cross-request state of the relational strategy lives here.  A grant
//! row pairs a persisted [`Grant`] with a single-use authorization code; a
//! token row references a grant row and carries an opaque bearer token.
//! Codes, grant row identifiers and token strings are kept unique, which is
//! what makes redemption and recovery unambiguous.

use vstd::prelude::*;

use crate::error::AuthError;
use crate::grant::Grant;
use crate::grant::IssuedToken;
use crate::grant::SpecGrant;
use crate::grant::TOKEN_LIFETIME_SECONDS;
use crate::rng::random_alphanumeric;
use crate::rng::spec_is_alphanumeric_ascii;

verus! {

/// Length of generated authorization codes and opaque tokens.
pub const SECRET_LENGTH: usize = 32;

/// The mathematical value of a [`GrantRow`].
#[verifier::ext_equal]
pub struct SpecGrantRow {
    pub id: int,
    pub owner_id: int,
    pub client_id: Seq<char>,
    pub redirect_uri: Seq<char>,
    pub scope: Seq<char>,
    pub until: int,
    pub code: Option<Seq<char>>,
}

/// One row of the grant table.
pub struct GrantRow {
    pub id: u64,
    pub owner_id: i32,
    pub client_id: String,
    pub redirect_uri: String,
    pub scope: String,
    pub until: i64,
    /// The single-use authorization code, cleared on first redemption.
    pub code: Option<String>,
}

impl View for GrantRow {
    type V = SpecGrantRow;

    open spec fn view(&self) -> SpecGrantRow {
        SpecGrantRow {
            id: self.id as int,
            owner_id: self.owner_id as int,
            client_id: self.client_id@,
            redirect_uri: self.redirect_uri@,
            scope: self.scope@,
            until: self.until as int,
            code: match self.code {
                Some(c) => Some(c@),
                None => None,
            },
        }
    }
}

/// The mathematical value of a [`TokenRow`].
#[verifier::ext_equal]
pub struct SpecTokenRow {
    pub id: int,
    pub grant_id: int,
    pub token: Seq<char>,
    pub until: int,
}

/// One row of the token table.
pub struct TokenRow {
    pub id: u64,
    pub grant_id: u64,
    pub token: String,
    pub until: i64,
}

impl View for TokenRow {
    type V = SpecTokenRow;

    open spec fn view(&self) -> SpecTokenRow {
        SpecTokenRow {
            id: self.id as int,
            grant_id: self.grant_id as int,
            token: self.token@,
            until: self.until as int,
        }
    }
}

/// The mathematical value of a [`RelationalStore`].
#[verifier::ext_equal]
pub struct SpecStore {
    pub grants: Seq<SpecGrantRow>,
    pub tokens: Seq<SpecTokenRow>,
    pub next_grant_id: int,
    pub next_token_id: int,
}

/// The relational store: grant and token tables plus the row counters.
pub struct RelationalStore {
    pub grants: Vec<GrantRow>,
    pub tokens: Vec<TokenRow>,
    pub next_grant_id: u64,
    pub next_token_id: u64,
}

/// The grant rows of an executable table, as mathematical rows.
pub open spec fn spec_grant_rows(v: Seq<GrantRow>) -> Seq<SpecGrantRow> {
    v.map_values(|r: GrantRow| r@)
}

/// The token rows of an executable table, as mathematical rows.
pub open spec fn spec_token_rows(v: Seq<TokenRow>) -> Seq<SpecTokenRow> {
    v.map_values(|r: TokenRow| r@)
}

impl View for RelationalStore {
    type V = SpecStore;

    open spec fn view(&self) -> SpecStore {
        SpecStore {
            grants: spec_grant_rows(self.grants@),
            tokens: spec_token_rows(self.tokens@),
            next_grant_id: self.next_grant_id as int,
            next_token_id: self.next_token_id as int,
        }
    }
}

/// Some grant row still carries `code`.
pub open spec fn spec_has_code(grants: Seq<SpecGrantRow>, code: Seq<char>) -> bool {
    exists|i: int| 0 <= i < grants.len() && #[trigger] grants[i].code == Some(code)
}

/// Some token row carries `token`.
pub open spec fn spec_has_token(tokens: Seq<SpecTokenRow>, token: Seq<char>) -> bool {
    exists|i: int| 0 <= i < tokens.len() && #[trigger] tokens[i].token == token
}

/// The row belongs to this owner and client.
pub open spec fn spec_grant_matches(r: SpecGrantRow, owner_id: int, client_id: Seq<char>) -> bool {
    r.owner_id == owner_id && r.client_id == client_id
}

/// First grant row at or past `from` whose code is `code`.
pub open spec fn spec_find_code_from(grants: Seq<SpecGrantRow>, code: Seq<char>, from: int) -> Option<
    int,
>
    decreases grants.len() - from,
{
    if from < 0 || from >= grants.len() {
        None
    } else if grants[from].code == Some(code) {
        Some(from)
    } else {
        spec_find_code_from(grants, code, from + 1)
    }
}

/// First grant row whose code is `code`.
pub open spec fn spec_find_code(grants: Seq<SpecGrantRow>, code: Seq<char>) -> Option<int> {
    spec_find_code_from(grants, code, 0)
}

/// First grant row at or past `from` for this owner and client.
pub open spec fn spec_find_grant_for_from(
    grants: Seq<SpecGrantRow>,
    owner_id: int,
    client_id: Seq<char>,
    from: int,
) -> Option<int>
    decreases grants.len() - from,
{
    if from < 0 || from >= grants.len() {
        None
    } else if spec_grant_matches(grants[from], owner_id, client_id) {
        Some(from)
    } else {
        spec_find_grant_for_from(grants, owner_id, client_id, from + 1)
    }
}

/// First grant row for this owner and client.
pub open spec fn spec_find_grant_for(
    grants: Seq<SpecGrantRow>,
    owner_id: int,
    client_id: Seq<char>,
) -> Option<int> {
    spec_find_grant_for_from(grants, owner_id, client_id, 0)
}

/// First grant row at or past `from` with row identifier `id`.
pub open spec fn spec_find_grant_id_from(grants: Seq<SpecGrantRow>, id: int, from: int) -> Option<
    int,
>
    decreases grants.len() - from,
{
    if from < 0 || from >= grants.len() {
        None
    } else if grants[from].id == id {
        Some(from)
    } else {
        spec_find_grant_id_from(grants, id, from + 1)
    }
}

/// First grant row with row identifier `id`.
pub open spec fn spec_find_grant_id(grants: Seq<SpecGrantRow>, id: int) -> Option<int> {
    spec_find_grant_id_from(grants, id, 0)
}

/// First token row at or past `from` carrying `token`.
pub open spec fn spec_find_token_from(tokens: Seq<SpecTokenRow>, token: Seq<char>, from: int) -> Option<
    int,
>
    decreases tokens.len() - from,
{
    if from < 0 || from >= tokens.len() {
        None
    } else if tokens[from].token == token {
        Some(from)
    } else {
        spec_find_token_from(tokens, token, from + 1)
    }
}

/// First token row carrying `token`.
pub open spec fn spec_find_token(tokens: Seq<SpecTokenRow>, token: Seq<char>) -> Option<int> {
    spec_find_token_from(tokens, token, 0)
}

/// The row with its single-use code cleared.
pub open spec fn spec_clear_code(r: SpecGrantRow) -> SpecGrantRow {
    SpecGrantRow { code: None, ..r }
}

/// The grant a row reconstructs to.
pub open spec fn spec_grant_of_row(r: SpecGrantRow) -> SpecGrant {
    SpecGrant {
        owner_id: r.owner_id,
        client_id: r.client_id,
        scope: r.scope,
        redirect_uri: r.redirect_uri,
        until: r.until,
    }
}

/// Well-formedness of a store value: row identifiers are below the
/// counters and unique; live codes are unique; token strings are unique.
pub open spec fn spec_store_wf(s: SpecStore) -> bool {
    &&& forall|i: int| 0 <= i < s.grants.len() ==> (#[trigger] s.grants[i].id) < s.next_grant_id
    &&& forall|i: int, j: int|
        0 <= i < j < s.grants.len() ==> (#[trigger] s.grants[i].id) != (#[trigger] s.grants[j].id)
    &&& forall|i: int, j: int|
        0 <= i < j < s.grants.len() ==> !((#[trigger] s.grants[i].code) is Some
            && s.grants[i].code == (#[trigger] s.grants[j].code))
    &&& forall|i: int| 0 <= i < s.tokens.len() ==> (#[trigger] s.tokens[i].id) < s.next_token_id
    &&& forall|i: int, j: int|
        0 <= i < j < s.tokens.len() ==> (#[trigger] s.tokens[i].token) != (
        #[trigger] s.tokens[j].token)
}

impl RelationalStore {
    /// The store's invariant.
    pub open spec fn wf(self) -> bool {
        spec_store_wf(self@)
    }

    /// An empty store.
    pub fn new() -> (r: RelationalStore)
        ensures
            r.wf(),
            r@.grants.len() == 0,
            r@.tokens.len() == 0,
    {
        RelationalStore { grants: Vec::new(), tokens: Vec::new(), next_grant_id: 1, next_token_id: 1 }
    }
}

/// Finds the grant row carrying `code`.
fn find_code(grants: &Vec<GrantRow>, code: &String) -> (r: Option<usize>)
    ensures
        match r {
            Some(i) => spec_find_code(spec_grant_rows(grants@), code@) == Some(i as int),
            None => spec_find_code(spec_grant_rows(grants@), code@) is None,
        },
{
    let ghost rows = spec_grant_rows(grants@);
    let n = grants.len();
    let mut i: usize = 0;
    while i < n
        invariant
            rows == spec_grant_rows(grants@),
            n == rows.len(),
            0 <= i <= n,
            spec_find_code(rows, code@) == spec_find_code_from(rows, code@, i as int),
        decreases n - i,
    {
        proof {
            assert(rows[i as int] == grants@[i as int]@);
        }
        let matched = match &grants[i].code {
            Some(c) => *c == *code,
            None => false,
        };
        if matched {
            return Some(i);
        }
        i = i + 1;
    }
    None
}

/// Finds the first grant row for this owner and client.
fn find_grant_for(grants: &Vec<GrantRow>, owner_id: i32, client_id: &String) -> (r: Option<usize>)
    ensures
        match r {
            Some(i) => spec_find_grant_for(spec_grant_rows(grants@), owner_id as int, client_id@)
                == Some(i as int),
            None => spec_find_grant_for(spec_grant_rows(grants@), owner_id as int, client_id@)
                is None,
        },
{
    let ghost rows = spec_grant_rows(grants@);
    let n = grants.len();
    let mut i: usize = 0;
    while i < n
        invariant
            rows == spec_grant_rows(grants@),
            n == rows.len(),
            0 <= i <= n,
            spec_find_grant_for(rows, owner_id as int, client_id@) == spec_find_grant_for_from(
                rows,
                owner_id as int,
                client_id@,
                i as int,
            ),
        decreases n - i,
    {
        proof {
            assert(rows[i as int] == grants@[i as int]@);
        }
        if grants[i].owner_id == owner_id && grants[i].client_id == *client_id {
            return Some(i);
        }
        i = i + 1;
    }
    None
}

/// Finds the grant row with row identifier `id`.
fn find_grant_id(grants: &Vec<GrantRow>, id: u64) -> (r: Option<usize>)
    ensures
        match r {
            Some(i) => spec_find_grant_id(spec_grant_rows(grants@), id as int) == Some(i as int),
            None => spec_find_grant_id(spec_grant_rows(grants@), id as int) is None,
        },
{
    let ghost rows = spec_grant_rows(grants@);
    let n = grants.len();
    let mut i: usize = 0;
    while i < n
        invariant
            rows == spec_grant_rows(grants@),
            n == rows.len(),
            0 <= i <= n,
            spec_find_grant_id(rows, id as int) == spec_find_grant_id_from(rows, id as int, i as int),
        decreases n - i,
    {
        proof {
            assert(rows[i as int] == grants@[i as int]@);
        }
        if grants[i].id == id {
            return Some(i);
        }
        i = i + 1;
    }
    None
}

/// Finds the token row carrying `token`.
fn find_token(tokens: &Vec<TokenRow>, token: &String) -> (r: Option<usize>)
    ensures
        match r {
            Some(i) => spec_find_token(spec_token_rows(tokens@), token@) == Some(i as int),
            None => spec_find_token(spec_token_rows(tokens@), token@) is None,
        },
{
    let ghost rows = spec_token_rows(tokens@);
    let n = tokens.len();
    let mut i: usize = 0;
    while i < n
        invariant
            rows == spec_token_rows(tokens@),
            n == rows.len(),
            0 <= i <= n,
            spec_find_token(rows, token@) == spec_find_token_from(rows, token@, i as int),
        decreases n - i,
    {
        proof {
            assert(rows[i as int] == tokens@[i as int]@);
        }
        if tokens[i].token == *token {
            return Some(i);
        }
        i = i + 1;
    }
    None
}

/// A found code search stays in range and lands on the code.
pub proof fn lemma_find_code_in_range(grants: Seq<SpecGrantRow>, code: Seq<char>, from: int)
    ensures
        spec_find_code_from(grants, code, from) matches Some(i) ==> from <= i < grants.len()
            && grants[i].code == Some(code),
    decreases grants.len() - from,
{
    if from < 0 || from >= grants.len() {
    } else if grants[from].code == Some(code) {
    } else {
        lemma_find_code_in_range(grants, code, from + 1);
    }
}

/// A failed code search means no row at or past `from` carries the code.
pub proof fn lemma_find_code_none(grants: Seq<SpecGrantRow>, code: Seq<char>, from: int)
    requires
        0 <= from,
        spec_find_code_from(grants, code, from) is None,
    ensures
        forall|i: int| from <= i < grants.len() ==> #[trigger] grants[i].code != Some(code),
    decreases grants.len() - from,
{
    if from < 0 || from >= grants.len() {
    } else {
        assert(grants[from].code != Some(code));
        lemma_find_code_none(grants, code, from + 1);
    }
}

/// A found owner-and-client search stays in range and lands on a match.
pub proof fn lemma_find_grant_for_in_range(
    grants: Seq<SpecGrantRow>,
    owner_id: int,
    client_id: Seq<char>,
    from: int,
)
    ensures
        spec_find_grant_for_from(grants, owner_id, client_id, from) matches Some(i) ==> from <= i
            < grants.len() && spec_grant_matches(grants[i], owner_id, client_id),
    decreases grants.len() - from,
{
    if from < 0 || from >= grants.len() {
    } else if spec_grant_matches(grants[from], owner_id, client_id) {
    } else {
        lemma_find_grant_for_in_range(grants, owner_id, client_id, from + 1);
    }
}

/// A found row-identifier search stays in range and lands on the identifier.
pub proof fn lemma_find_grant_id_in_range(grants: Seq<SpecGrantRow>, id: int, from: int)
    ensures
        spec_find_grant_id_from(grants, id, from) matches Some(i) ==> from <= i < grants.len()
            && grants[i].id == id,
    decreases grants.len() - from,
{
    if from < 0 || from >= grants.len() {
    } else if grants[from].id == id {
    } else {
        lemma_find_grant_id_in_range(grants, id, from + 1);
    }
}

/// A found token search stays in range and lands on the token.
pub proof fn lemma_find_token_in_range(tokens: Seq<SpecTokenRow>, token: Seq<char>, from: int)
    ensures
        spec_find_token_from(tokens, token, from) matches Some(i) ==> from <= i < tokens.len()
            && tokens[i].token == token,
    decreases tokens.len() - from,
{
    if from < 0 || from >= tokens.len() {
    } else if tokens[from].token == token {
    } else {
        lemma_find_token_in_range(tokens, token, from + 1);
    }
}

/// A failed token search means no row at or past `from` carries the token.
pub proof fn lemma_find_token_none(tokens: Seq<SpecTokenRow>, token: Seq<char>, from: int)
    requires
        0 <= from,
        spec_find_token_from(tokens, token, from) is None,
    ensures
        forall|i: int| from <= i < tokens.len() ==> #[trigger] tokens[i].token != token,
    decreases tokens.len() - from,
{
    if from < 0 || from >= tokens.len() {
    } else {
        assert(tokens[from].token != token);
        lemma_find_token_none(tokens, token, from + 1);
    }
}

/// A failed owner-and-client search means no row at or past `from` matches.
pub proof fn lemma_find_grant_for_none(
    grants: Seq<SpecGrantRow>,
    owner_id: int,
    client_id: Seq<char>,
    from: int,
)
    requires
        0 <= from,
        spec_find_grant_for_from(grants, owner_id, client_id, from) is None,
    ensures
        forall|i: int|
            from <= i < grants.len() ==> !spec_grant_matches(
                #[trigger] grants[i],
                owner_id,
                client_id,
            ),
    decreases grants.len() - from,
{
    if from < 0 || from >= grants.len() {
    } else {
        assert(!spec_grant_matches(grants[from], owner_id, client_id));
        lemma_find_grant_for_none(grants, owner_id, client_id, from + 1);
    }
}

/// When no earlier token row carries the pushed row's token, the search
/// finds exactly the pushed row.
pub proof fn lemma_find_token_push(tokens: Seq<SpecTokenRow>, row: SpecTokenRow, from: int)
    requires
        0 <= from <= tokens.len(),
        forall|i: int| 0 <= i < tokens.len() ==> (#[trigger] tokens[i].token) != row.token,
    ensures
        spec_find_token_from(tokens.push(row), row.token, from) == Some(tokens.len() as int),
    decreases tokens.len() - from,
{
    let p = tokens.push(row);
    if from == tokens.len() {
        assert(p[from] == row);
    } else {
        assert(p[from] == tokens[from]);
        lemma_find_token_push(tokens, row, from + 1);
    }
}

/// When no earlier grant row matches the pushed row's owner and client,
/// the search finds exactly the pushed row.
pub proof fn lemma_find_grant_for_push(grants: Seq<SpecGrantRow>, row: SpecGrantRow, from: int)
    requires
        0 <= from <= grants.len(),
        forall|i: int|
            0 <= i < grants.len() ==> !spec_grant_matches(
                #[trigger] grants[i],
                row.owner_id,
                row.client_id,
            ),
    ensures
        spec_find_grant_for_from(grants.push(row), row.owner_id, row.client_id, from) == Some(
            grants.len() as int,
        ),
    decreases grants.len() - from,
{
    let p = grants.push(row);
    if from == grants.len() {
        assert(p[from] == row);
        assert(spec_grant_matches(p[from], row.owner_id, row.client_id));
    } else {
        assert(p[from] == grants[from]);
        lemma_find_grant_for_push(grants, row, from + 1);
    }
}

/// With unique row identifiers, searching for row `j`'s identifier finds
/// `j` itself.
pub proof fn lemma_find_grant_id_unique(grants: Seq<SpecGrantRow>, j: int, from: int)
    requires
        forall|a: int, b: int|
            0 <= a < b < grants.len() ==> (#[trigger] grants[a].id) != (#[trigger] grants[b].id),
        0 <= from <= j < grants.len(),
    ensures
        spec_find_grant_id_from(grants, grants[j].id, from) == Some(j),
    decreases j - from,
{
    if from == j {
    } else {
        assert(grants[from].id != grants[j].id);
        lemma_find_grant_id_unique(grants, j, from + 1);
    }
}

/// Issuing then recovering, relational strategy: once a fresh token is
/// persisted against grant row `j`, recovering that token before its
/// expiry reconstructs a grant with exactly row `j`'s owner, client,
/// scope and redirect URI, and the token row's expiry; at or past the
/// expiry the recovery is turned away with `TokenExpired`.
pub proof fn lemma_relational_issue_recover(
    s0: SpecStore,
    s1: SpecStore,
    j: int,
    tok: Seq<char>,
    until: int,
    now: int,
)
    requires
        spec_store_wf(s0),
        0 <= j < s0.grants.len(),
        !spec_has_token(s0.tokens, tok),
        s1 == (SpecStore {
            tokens: s0.tokens.push(
                SpecTokenRow {
                    id: s0.next_token_id,
                    grant_id: s0.grants[j].id,
                    token: tok,
                    until,
                },
            ),
            next_token_id: s0.next_token_id + 1,
            ..s0
        }),
    ensures
        now < until ==> spec_recover(s1, tok, now) == Ok::<Option<SpecGrant>, AuthError>(
            Some(
                SpecGrant {
                    owner_id: s0.grants[j].owner_id,
                    client_id: s0.grants[j].client_id,
                    scope: s0.grants[j].scope,
                    redirect_uri: s0.grants[j].redirect_uri,
                    until,
                },
            ),
        ),
        until <= now ==> spec_recover(s1, tok, now) == Err::<Option<SpecGrant>, AuthError>(
            AuthError::TokenExpired,
        ),
{
    let row = SpecTokenRow { id: s0.next_token_id, grant_id: s0.grants[j].id, token: tok, until };
    assert forall|i: int| 0 <= i < s0.tokens.len() implies (#[trigger] s0.tokens[i].token)
        != tok by {
        assert(!(0 <= i < s0.tokens.len() && s0.tokens[i].token == tok));
    }
    lemma_find_token_push(s0.tokens, row, 0);
    let ti = s0.tokens.len() as int;
    assert(s1.tokens[ti] == row);
    lemma_find_grant_id_unique(s1.grants, j, 0);
}

/// Persisting a grant under a code and then issuing for the same owner and
/// client: when no grant row for that owner and client existed before, the
/// issuer's search finds exactly the row just persisted, which carries the
/// grant's fields unchanged.
pub proof fn lemma_authorized_grant_found(s0: SpecStore, s1: SpecStore, g: SpecGrant, code: Seq<char>)
    requires
        spec_find_grant_for(s0.grants, g.owner_id, g.client_id) is None,
        s1 == (SpecStore {
            grants: s0.grants.push(
                SpecGrantRow {
                    id: s0.next_grant_id,
                    owner_id: g.owner_id,
                    client_id: g.client_id,
                    redirect_uri: g.redirect_uri,
                    scope: g.scope,
                    until: g.until,
                    code: Some(code),
                },
            ),
            next_grant_id: s0.next_grant_id + 1,
            ..s0
        }),
    ensures
        spec_find_grant_for(s1.grants, g.owner_id, g.client_id) == Some(s0.grants.len() as int),
        spec_grant_of_row(s1.grants[s0.grants.len() as int]) == (SpecGrant { ..g }),
{
    let row = SpecGrantRow {
        id: s0.next_grant_id,
        owner_id: g.owner_id,
        client_id: g.client_id,
        redirect_uri: g.redirect_uri,
        scope: g.scope,
        until: g.until,
        code: Some(code),
    };
    lemma_find_grant_for_none(s0.grants, g.owner_id, g.client_id, 0);
    lemma_find_grant_for_push(s0.grants, row, 0);
    assert(spec_grant_of_row(s1.grants[s0.grants.len() as int]) =~= (SpecGrant { ..g }));
}

/// If no row carries the code, the search for it fails.
proof fn lemma_no_code_no_find(grants: Seq<SpecGrantRow>, code: Seq<char>, from: int)
    requires
        forall|i: int| 0 <= i < grants.len() ==> #[trigger] grants[i].code != Some(code),
    ensures
        spec_find_code_from(grants, code, from) is None,
    decreases grants.len() - from,
{
    if from < 0 || from >= grants.len() {
    } else {
        lemma_no_code_no_find(grants, code, from + 1);
    }
}

/// A redeemed code is gone for good: once no grant row carries `code` —
/// as holds of the store a successful redemption leaves behind — the
/// search for it fails, so the next redemption returns absent and leaves
/// the store unchanged.
pub proof fn lemma_code_single_use(grants: Seq<SpecGrantRow>, code: Seq<char>)
    requires
        !spec_has_code(grants, code),
    ensures
        spec_find_code(grants, code) is None,
{
    assert forall|i: int| 0 <= i < grants.len() implies (#[trigger] grants[i].code) != Some(
        code,
    ) by {
        assert(!(0 <= i < grants.len() && grants[i].code == Some(code)));
    }
    lemma_no_code_no_find(grants, code, 0);
}

/// The relational code authorizer: pairs each persisted grant with a fresh
/// single-use authorization code, and redeems a code exactly once.
pub struct DbAuthorizer;

impl DbAuthorizer {
    /// Persists `grant` as a new row under a freshly generated random code
    /// and returns the code.  Fails only on a code collision or an
    /// exhausted row counter, both negligible; the store is then unchanged.
    pub fn authorize(&self, store: &mut RelationalStore, grant: &Grant) -> (r: Result<
        String,
        AuthError,
    >)
        requires
            old(store).wf(),
        ensures
            final(store).wf(),
            match r {
                Ok(code) => {
                    &&& code@.len() == SECRET_LENGTH as int
                    &&& forall|k: int|
                        0 <= k < code@.len() ==> spec_is_alphanumeric_ascii(#[trigger] code@[k])
                    &&& !spec_has_code(old(store)@.grants, code@)
                    &&& final(store)@ == (SpecStore {
                        grants: old(store)@.grants.push(
                            SpecGrantRow {
                                id: old(store)@.next_grant_id,
                                owner_id: grant@.owner_id,
                                client_id: grant@.client_id,
                                redirect_uri: grant@.redirect_uri,
                                scope: grant@.scope,
                                until: grant@.until,
                                code: Some(code@),
                            },
                        ),
                        next_grant_id: old(store)@.next_grant_id + 1,
                        ..old(store)@
                    })
                },
                Err(e) => e == AuthError::StorageUnavailable && final(store)@ == old(store)@,
            },
    {
        let code = random_alphanumeric(SECRET_LENGTH);
        if find_code(&store.grants, &code).is_some() {
            return Err(AuthError::StorageUnavailable);
        }
        if store.next_grant_id == u64::MAX {
            return Err(AuthError::StorageUnavailable);
        }
        let ghost prev = store@;
        proof {
            lemma_find_code_none(prev.grants, code@, 0);
        }
        let row = GrantRow {
            id: store.next_grant_id,
            owner_id: grant.owner_id,
            client_id: grant.client_id.clone(),
            redirect_uri: grant.redirect_uri.clone(),
            scope: grant.scope.clone(),
            until: grant.until,
            code: Some(code.clone()),
        };
        store.grants.push(row);
        store.next_grant_id = store.next_grant_id + 1;
        proof {
            let srow = SpecGrantRow {
                id: prev.next_grant_id,
                owner_id: grant@.owner_id,
                client_id: grant@.client_id,
                redirect_uri: grant@.redirect_uri,
                scope: grant@.scope,
                until: grant@.until,
                code: Some(code@),
            };
            assert(store@.grants =~= prev.grants.push(srow));
            assert(store@ =~= (SpecStore {
                grants: prev.grants.push(srow),
                next_grant_id: prev.next_grant_id + 1,
                ..prev
            }));
            let g = store@.grants;
            assert forall|i: int, j: int| 0 <= i < j < g.len() implies (#[trigger] g[i].id) != (
            #[trigger] g[j].id) by {
                if j == g.len() - 1 {
                    assert(prev.grants[i].id < prev.next_grant_id);
                }
            }
            assert forall|i: int, j: int| 0 <= i < j < g.len() implies !((#[trigger] g[i].code)
                is Some && g[i].code == (#[trigger] g[j].code)) by {
                if j == g.len() - 1 {
                    assert(prev.grants[i].code != Some(code@));
                }
            }
            assert(store.wf());
        }
        Ok(code)
    }

    /// Single-use redemption: if some grant row carries `code`, its code
    /// column is cleared and the reconstructed grant is returned; after the
    /// call no row carries `code`, so a second redemption returns absent.
    /// If no row carries `code`, returns absent and leaves the store as it
    /// was.
    pub fn extract(&self, store: &mut RelationalStore, code: &String) -> (r: Option<Grant>)
        requires
            old(store).wf(),
        ensures
            final(store).wf(),
            match spec_find_code(old(store)@.grants, code@) {
                None => r is None && final(store)@ == old(store)@,
                Some(i) => {
                    &&& r matches Some(g) && g@ == spec_grant_of_row(old(store)@.grants[i])
                    &&& final(store)@ == (SpecStore {
                        grants: old(store)@.grants.update(
                            i,
                            spec_clear_code(old(store)@.grants[i]),
                        ),
                        ..old(store)@
                    })
                    &&& !spec_has_code(final(store)@.grants, code@)
                },
            },
    {
        let found = find_code(&store.grants, code);
        proof {
            lemma_find_code_in_range(store@.grants, code@, 0);
        }
        match found {
            None => None,
            Some(i) => {
                let ghost prev = store@;
                let ghost gi = prev.grants[i as int];
                let row = &store.grants[i];
                let g = Grant {
                    owner_id: row.owner_id,
                    client_id: row.client_id.clone(),
                    scope: row.scope.clone(),
                    redirect_uri: row.redirect_uri.clone(),
                    until: row.until,
                };
                let cleared = GrantRow {
                    id: row.id,
                    owner_id: row.owner_id,
                    client_id: row.client_id.clone(),
                    redirect_uri: row.redirect_uri.clone(),
                    scope: row.scope.clone(),
                    until: row.until,
                    code: None,
                };
                store.grants.set(i, cleared);
                proof {
                    assert(gi == prev.grants[i as int]);
                    assert(g@ == spec_grant_of_row(gi));
                    assert(store@.grants =~= prev.grants.update(i as int, spec_clear_code(gi)));
                    assert(store@ =~= (SpecStore {
                        grants: prev.grants.update(i as int, spec_clear_code(gi)),
                        ..prev
                    }));
                    let ng = store@.grants;
                    assert forall|k: int| 0 <= k < ng.len() implies (#[trigger] ng[k].code)
                        != Some(code@) by {
                        if k != i as int {
                            if ng[k].code == Some(code@) {
                                if k < i as int {
                                    assert(!(prev.grants[k].code is Some && prev.grants[k].code
                                        == prev.grants[i as int].code));
                                } else {
                                    assert(!(prev.grants[i as int].code is Some
                                        && prev.grants[i as int].code == prev.grants[k].code));
                                }
                            }
                        }
                    }
                    assert forall|a: int, b: int| 0 <= a < b < ng.len() implies !((
                    #[trigger] ng[a].code) is Some && ng[a].code == (#[trigger] ng[b].code)) by {
                        if a != i as int && b != i as int {
                            assert(!(prev.grants[a].code is Some && prev.grants[a].code
                                == prev.grants[b].code));
                        }
                    }
                    assert(store.wf());
                }
                Some(g)
            },
        }
    }
}

/// The grant recovered by joining token row `i` to grant row `j`.
pub open spec fn spec_joined_grant(s: SpecStore, i: int, j: int) -> SpecGrant {
    SpecGrant {
        owner_id: s.grants[j].owner_id,
        client_id: s.grants[j].client_id,
        scope: s.grants[j].scope,
        redirect_uri: s.grants[j].redirect_uri,
        until: s.tokens[i].until,
    }
}

/// What recovering `token` from store `s` at time `now` yields: absent
/// when no token row carries it, `TokenExpired` once the row's expiry has
/// passed, a storage fault when its grant row is gone, else the grant
/// joined from the two rows.
pub open spec fn spec_recover(s: SpecStore, token: Seq<char>, now: int) -> Result<
    Option<SpecGrant>,
    AuthError,
> {
    match spec_find_token(s.tokens, token) {
        None => Ok(None),
        Some(i) => if s.tokens[i].until <= now {
            Err(AuthError::TokenExpired)
        } else {
            match spec_find_grant_id(s.grants, s.tokens[i].grant_id) {
                None => Err(AuthError::StorageUnavailable),
                Some(j) => Ok(Some(spec_joined_grant(s, i, j))),
            }
        },
    }
}

/// The relational token issuer: opaque random tokens persisted as rows
/// that reference the grant they were issued for.
pub struct DbIssuer;

impl DbIssuer {
    /// Locates the persisted grant row for `grant`'s owner and client,
    /// generates a fresh opaque token and persists it against that row,
    /// valid for `TOKEN_LIFETIME_SECONDS` from `now`.  Fails when no such
    /// grant row exists, and on a token collision or an exhausted row
    /// counter, both negligible; the store is then unchanged.
    pub fn issue(&self, store: &mut RelationalStore, grant: &Grant, now: i64) -> (r: Result<
        IssuedToken,
        AuthError,
    >)
        requires
            old(store).wf(),
            now + TOKEN_LIFETIME_SECONDS <= i64::MAX,
        ensures
            final(store).wf(),
            final(store)@.grants == old(store)@.grants,
            final(store)@.next_grant_id == old(store)@.next_grant_id,
            match r {
                Ok(t) => {
                    &&& t.token@.len() == SECRET_LENGTH as int
                    &&& forall|k: int|
                        0 <= k < t.token@.len() ==> spec_is_alphanumeric_ascii(
                            #[trigger] t.token@[k],
                        )
                    &&& t.until == now + TOKEN_LIFETIME_SECONDS
                    &&& !spec_has_token(old(store)@.tokens, t.token@)
                    &&& spec_find_grant_for(
                        old(store)@.grants,
                        grant@.owner_id,
                        grant@.client_id,
                    ) matches Some(j) && final(store)@ == (SpecStore {
                        tokens: old(store)@.tokens.push(
                            SpecTokenRow {
                                id: old(store)@.next_token_id,
                                grant_id: old(store)@.grants[j].id,
                                token: t.token@,
                                until: now + TOKEN_LIFETIME_SECONDS,
                            },
                        ),
                        next_token_id: old(store)@.next_token_id + 1,
                        ..old(store)@
                    })
                },
                Err(e) => e == AuthError::StorageUnavailable && final(store)@ == old(store)@,
            },
            spec_find_grant_for(old(store)@.grants, grant@.owner_id, grant@.client_id) is None
                ==> r is Err,
    {
        let j = match find_grant_for(&store.grants, grant.owner_id, &grant.client_id) {
            Some(j) => j,
            None => {
                return Err(AuthError::StorageUnavailable);
            },
        };
        proof {
            lemma_find_grant_for_in_range(store@.grants, grant@.owner_id, grant@.client_id, 0);
        }
        let token = random_alphanumeric(SECRET_LENGTH);
        if find_token(&store.tokens, &token).is_some() {
            return Err(AuthError::StorageUnavailable);
        }
        if store.next_token_id == u64::MAX {
            return Err(AuthError::StorageUnavailable);
        }
        let ghost prev = store@;
        proof {
            lemma_find_token_none(prev.tokens, token@, 0);
        }
        let until = now + TOKEN_LIFETIME_SECONDS;
        let row = TokenRow {
            id: store.next_token_id,
            grant_id: store.grants[j].id,
            token: token.clone(),
            until,
        };
        store.tokens.push(row);
        store.next_token_id = store.next_token_id + 1;
        proof {
            let srow = SpecTokenRow {
                id: prev.next_token_id,
                grant_id: prev.grants[j as int].id,
                token: token@,
                until: now + TOKEN_LIFETIME_SECONDS,
            };
            assert(store@.tokens =~= prev.tokens.push(srow));
            assert(store@ =~= (SpecStore {
                tokens: prev.tokens.push(srow),
                next_token_id: prev.next_token_id + 1,
                ..prev
            }));
            let t = store@.tokens;
            assert forall|a: int, b: int| 0 <= a < b < t.len() implies (#[trigger] t[a].token)
                != (#[trigger] t[b].token) by {
                if b == t.len() - 1 {
                    assert(prev.tokens[a].token != token@);
                }
            }
            assert(store.wf());
        }
        Ok(IssuedToken { token, until })
    }

    /// Looks the token row up, rejects it once its expiry has passed,
    /// else joins it to its grant row and reconstructs the grant, exactly
    /// as `spec_recover` says.  The store is read only.
    pub fn recover_token(&self, store: &RelationalStore, token: &String, now: i64) -> (r: Result<
        Option<Grant>,
        AuthError,
    >)
        ensures
            ({
                let s = spec_recover(store@, token@, now as int);
                match r {
                    Ok(None) => s == Ok::<Option<SpecGrant>, AuthError>(None),
                    Ok(Some(g)) => s == Ok::<Option<SpecGrant>, AuthError>(Some(g@)),
                    Err(e) => s == Err::<Option<SpecGrant>, AuthError>(e),
                }
            }),
    {
        let i = match find_token(&store.tokens, token) {
            Some(i) => i,
            None => {
                return Ok(None);
            },
        };
        proof {
            lemma_find_token_in_range(store@.tokens, token@, 0);
        }
        if store.tokens[i].until <= now {
            return Err(AuthError::TokenExpired);
        }
        let j = match find_grant_id(&store.grants, store.tokens[i].grant_id) {
            Some(j) => j,
            None => {
                return Err(AuthError::StorageUnavailable);
            },
        };
        proof {
            lemma_find_grant_id_in_range(store@.grants, store@.tokens[i as int].grant_id, 0);
        }
        let grow = &store.grants[j];
        let g = Grant {
            owner_id: grow.owner_id,
            client_id: grow.client_id.clone(),
            scope: grow.scope.clone(),
            redirect_uri: grow.redirect_uri.clone(),
            until: store.tokens[i].until,
        };
        proof {
            assert(g@ == spec_joined_grant(store@, i as int, j as int));
        }
        Ok(Some(g))
    }

    /// Refresh tokens are unsupported by design: re-authorization is
    /// required each time, so refreshing always fails.
    pub fn refresh(&self, _token: &String, _grant: &Grant) -> (r: Option<IssuedToken>)
        ensures
            r is None,
    {
        None
    }

    /// Refresh tokens are unsupported by design, so none can be recovered.
    pub fn recover_refresh(&self, _token: &String) -> (r: Option<Grant>)
        ensures
            r is None,
    {
        None
    }
}

} // verus!
