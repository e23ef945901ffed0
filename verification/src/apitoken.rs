//! API tokens: server-issued credentials scoped to a single project.

use vstd::prelude::*;
use vstd::string::{StrSliceExecFns, StringExecFns};

use crate::common::Right;
use crate::outside::random_index;

verus! {

/// Number of characters in a generated token.
pub const TOKEN_LEN: usize = 30;

/// The alphabet generated tokens draw from.
pub open spec fn token_charset() -> Seq<char> {
    "ABCDEFGHIJKLMNOPQRSTUVWXYZabcdefghijklmnopqrstuvwxyz0123456789)(*&^%$#@!~"@
}

/// A server-issued credential: the opaque token string, the user it was
/// issued to, and the project with the rights it grants there.
#[derive(Debug)]
pub struct APIToken {
    pub id: String,
    pub user_id: String,
    pub token: String,
    pub rights: Vec<Right>,
    pub project_id: String,
}

/// Mathematical value of an [`APIToken`].
pub struct ApiTokenView {
    pub id: Seq<char>,
    pub user_id: Seq<char>,
    pub token: Seq<char>,
    pub rights: Seq<Right>,
    pub project_id: Seq<char>,
}

impl View for APIToken {
    type V = ApiTokenView;

    open spec fn view(&self) -> ApiTokenView {
        ApiTokenView {
            id: self.id@,
            user_id: self.user_id@,
            token: self.token@,
            rights: self.rights@,
            project_id: self.project_id@,
        }
    }
}

impl DeepView for APIToken {
    type V = ApiTokenView;

    open spec fn deep_view(&self) -> ApiTokenView {
        self.view()
    }
}

impl Clone for APIToken {
    fn clone(&self) -> (r: Self)
        ensures
            r@ == self@,
    {
        APIToken {
            id: self.id.clone(),
            user_id: self.user_id.clone(),
            token: self.token.clone(),
            rights: self.rights.clone(),
            project_id: self.project_id.clone(),
        }
    }
}

impl APIToken {
    /// Name of the collection API tokens persist in.
    pub fn collection_name() -> (r: String)
        ensures
            r@ == "APIToken"@,
    {
        "APIToken".to_owned()
    }

    /// API tokens are read by a parent id field.
    pub fn parent_field_name() -> (r: Option<String>)
        ensures
            r matches Some(f) && f@ == "parent_id"@,
    {
        Some("parent_id".to_owned())
    }

    /// A fresh token for `user_id` on `project_id`: its secret is drawn
    /// from [`token_charset`] and is [`TOKEN_LEN`] characters long.
    pub fn new(id: String, user_id: &str, rights: Vec<Right>, project_id: &str) -> (r: Self)
        ensures
            r@.id == id@,
            r@.user_id == user_id@,
            r@.rights == rights@,
            r@.project_id == project_id@,
            r@.token.len() == TOKEN_LEN,
            forall|k: int| 0 <= k < r@.token.len() ==> token_charset().contains(#[trigger] r@.token[k]),
    {
        let token = generate_api_token();
        APIToken {
            id,
            user_id: user_id.to_owned(),
            token,
            rights,
            project_id: project_id.to_owned(),
        }
    }
}

/// Draws a fresh [`TOKEN_LEN`]-character token uniformly over
/// [`token_charset`].
pub fn generate_api_token() -> (r: String)
    ensures
        r@.len() == TOKEN_LEN,
        forall|k: int| 0 <= k < r@.len() ==> token_charset().contains(#[trigger] r@[k]),
{
    let charset: &str = "ABCDEFGHIJKLMNOPQRSTUVWXYZabcdefghijklmnopqrstuvwxyz0123456789)(*&^%$#@!~";
    proof {
        reveal_strlit("ABCDEFGHIJKLMNOPQRSTUVWXYZabcdefghijklmnopqrstuvwxyz0123456789)(*&^%$#@!~");
        assert(charset@ == token_charset());
        assert(charset@.len() == 73);
    }
    let mut token = String::new();
    let mut i: usize = 0;
    while i < TOKEN_LEN
        invariant
            i <= TOKEN_LEN,
            token@.len() == i,
            charset@ == token_charset(),
            charset.is_ascii(),
            charset@.len() == 73,
            forall|k: int| 0 <= k < i ==> token_charset().contains(#[trigger] token@[k]),
        decreases TOKEN_LEN - i,
    {
        let idx = random_index(73);
        let piece = charset.substring_ascii(idx, idx + 1);
        token.append(piece);
        proof {
            assert(piece@[0] == charset@[idx as int]);
            assert(token_charset()[idx as int] == charset@[idx as int]);
            assert(token_charset().contains(charset@[idx as int]));
        }
        i = i + 1;
    }
    token
}

} // verus!
