//! The credential record: who is signed in, and with which token.

use vstd::prelude::*;
use vstd::string::*;
use crate::error::{ErrorView, GlobleError};
use crate::json::{entry_views, lemma_entry_of_push, lemma_json_view, member, parsed, rendered, Json, JsonView};
use crate::structs::copy_opt_text;
use crate::wire::{
    bool_at, decode_failure, json_of_opt_text, opt_text_at, opt_text_view, read_bool, read_opt_text, read_text,
    shape_fault, text_at, write_opt_text,
};

verus! {

/// Who is signed in, and the token that proves it.
#[derive(Debug, PartialEq)]
pub struct AuthState {
    pub banned: bool,
    pub id: String,
    pub access_token: Option<String>,
    pub avatar: String,
    pub ingame_name: String,
    pub locale: String,
    pub platform: String,
    pub region: String,
    pub role: String,
}

/// What an [`AuthState`] holds.
pub struct AuthStateView {
    pub banned: bool,
    pub id: Seq<char>,
    pub access_token: Option<Seq<char>>,
    pub avatar: Seq<char>,
    pub ingame_name: Seq<char>,
    pub locale: Seq<char>,
    pub platform: Seq<char>,
    pub region: Seq<char>,
    pub role: Seq<char>,
}

impl View for AuthState {
    type V = AuthStateView;

    open spec fn view(&self) -> AuthStateView {
        AuthStateView {
            banned: self.banned,
            id: self.id@,
            access_token: opt_text_view(self.access_token),
            avatar: self.avatar@,
            ingame_name: self.ingame_name@,
            locale: self.locale@,
            platform: self.platform@,
            region: self.region@,
            role: self.role@,
        }
    }
}

/// The record that a JSON object stands for, if it has the members of
/// an [`AuthState`] with their types. Members beyond those are passed over.
pub open spec fn auth_state_of_json(j: JsonView) -> Option<AuthStateView> {
    if bool_at(j, "banned"@) is Some && text_at(j, "id"@) is Some && opt_text_at(j, "access_token"@) is Some && text_at(j, "avatar"@) is Some && text_at(j, "ingame_name"@) is Some && text_at(j, "locale"@) is Some && text_at(j, "platform"@) is Some && text_at(j, "region"@) is Some && text_at(j, "role"@) is Some {
        Some(
            AuthStateView {
                banned: bool_at(j, "banned"@).unwrap(),
                id: text_at(j, "id"@).unwrap(),
                access_token: opt_text_at(j, "access_token"@).unwrap(),
                avatar: text_at(j, "avatar"@).unwrap(),
                ingame_name: text_at(j, "ingame_name"@).unwrap(),
                locale: text_at(j, "locale"@).unwrap(),
                platform: text_at(j, "platform"@).unwrap(),
                region: text_at(j, "region"@).unwrap(),
                role: text_at(j, "role"@).unwrap(),
            },
        )
    } else {
        None
    }
}

/// The record under `key`.
pub open spec fn auth_state_at(j: JsonView, key: Seq<char>) -> Option<AuthStateView> {
    match member(j, key) {
        Some(v) => auth_state_of_json(v),
        None => None,
    }
}

/// The JSON object that stands for the record: one member for each field,
/// null for an absent one.
pub open spec fn json_of_auth_state(v: AuthStateView) -> JsonView {
    JsonView::Object(
        seq![
            ("banned"@, JsonView::Bool(v.banned)),
            ("id"@, JsonView::Text(v.id)),
            ("access_token"@, json_of_opt_text(v.access_token)),
            ("avatar"@, JsonView::Text(v.avatar)),
            ("ingame_name"@, JsonView::Text(v.ingame_name)),
            ("locale"@, JsonView::Text(v.locale)),
            ("platform"@, JsonView::Text(v.platform)),
            ("region"@, JsonView::Text(v.region)),
            ("role"@, JsonView::Text(v.role)),
        ],
    )
}

impl AuthState {
    /// Reads the record from a JSON object. Fails with `SerdeError`, which
    /// holds the value's text, exactly where a member is missing or has
    /// another type.
    pub fn from_json(j: &Json) -> (r: Result<AuthState, GlobleError>)
        ensures
            match auth_state_of_json(j@) {
                Some(v) => r matches Ok(x) && x@ == v,
                None => r matches Err(e) && e@ == shape_fault(j@),
            },
    {
        let banned = match read_bool(j, "banned") {
            Some(v) => v,
            None => {
                return Err(decode_failure(j));
            },
        };
        let id = match read_text(j, "id") {
            Some(v) => v,
            None => {
                return Err(decode_failure(j));
            },
        };
        let access_token = match read_opt_text(j, "access_token") {
            Some(v) => v,
            None => {
                return Err(decode_failure(j));
            },
        };
        let avatar = match read_text(j, "avatar") {
            Some(v) => v,
            None => {
                return Err(decode_failure(j));
            },
        };
        let ingame_name = match read_text(j, "ingame_name") {
            Some(v) => v,
            None => {
                return Err(decode_failure(j));
            },
        };
        let locale = match read_text(j, "locale") {
            Some(v) => v,
            None => {
                return Err(decode_failure(j));
            },
        };
        let platform = match read_text(j, "platform") {
            Some(v) => v,
            None => {
                return Err(decode_failure(j));
            },
        };
        let region = match read_text(j, "region") {
            Some(v) => v,
            None => {
                return Err(decode_failure(j));
            },
        };
        let role = match read_text(j, "role") {
            Some(v) => v,
            None => {
                return Err(decode_failure(j));
            },
        };
        Ok(AuthState { banned, id, access_token, avatar, ingame_name, locale, platform, region, role })
    }

    /// Reads the record under `key`.
    pub fn read(j: &Json, key: &str) -> (r: Option<AuthState>)
        ensures
            match r {
                Some(x) => auth_state_at(j@, key@) == Some(x@),
                None => auth_state_at(j@, key@) is None,
            },
    {
        match j.get(key) {
            Some(v) => match AuthState::from_json(v) {
                Ok(x) => Some(x),
                Err(_) => None,
            },
            None => None,
        }
    }

    /// Writes the record as a JSON object.
    pub fn to_json(&self) -> (r: Json)
        ensures
            r@ == json_of_auth_state(self@),
    {
        let mut entries: Vec<(String, Json)> = Vec::new();
        entries.push((String::from_str("banned"), Json::Bool(self.banned)));
        entries.push((String::from_str("id"), Json::Text(self.id.clone())));
        entries.push((String::from_str("access_token"), write_opt_text(&self.access_token)));
        entries.push((String::from_str("avatar"), Json::Text(self.avatar.clone())));
        entries.push((String::from_str("ingame_name"), Json::Text(self.ingame_name.clone())));
        entries.push((String::from_str("locale"), Json::Text(self.locale.clone())));
        entries.push((String::from_str("platform"), Json::Text(self.platform.clone())));
        entries.push((String::from_str("region"), Json::Text(self.region.clone())));
        entries.push((String::from_str("role"), Json::Text(self.role.clone())));
        let r = Json::Object(entries);
        proof {
            lemma_json_view(r);
            assert(entry_views(entries@) =~= json_of_auth_state(self@)->Object_0);
        }
        r
    }

    /// A copy of the record.
    pub fn duplicate(&self) -> (r: AuthState)
        ensures
            r@ == self@,
    {
        AuthState {
            banned: self.banned,
            id: self.id.clone(),
            access_token: copy_opt_text(&self.access_token),
            avatar: self.avatar.clone(),
            ingame_name: self.ingame_name.clone(),
            locale: self.locale.clone(),
            platform: self.platform.clone(),
            region: self.region.clone(),
            role: self.role.clone(),
        }
    }
}

/// Writing a record and reading it back gives the record: every field
/// as it was, an absent one absent.
pub proof fn lemma_auth_state_round_trip(v: AuthStateView)
    ensures
        auth_state_of_json(json_of_auth_state(v)) == Some(v),
{
    reveal_strlit("banned");
    reveal_strlit("id");
    reveal_strlit("access_token");
    reveal_strlit("avatar");
    reveal_strlit("ingame_name");
    reveal_strlit("locale");
    reveal_strlit("platform");
    reveal_strlit("region");
    reveal_strlit("role");
    assert("banned"@.len() == 6);
    assert("id"@.len() == 2);
    assert("access_token"@.len() == 12);
    assert("avatar"@.len() == 6);
    assert("ingame_name"@.len() == 11);
    assert("locale"@.len() == 6);
    assert("platform"@.len() == 8);
    assert("region"@.len() == 6);
    assert("role"@.len() == 4);
    assert("banned"@[0] != "avatar"@[0]);
    assert("banned"@[0] != "locale"@[0]);
    assert("banned"@[0] != "region"@[0]);
    assert("avatar"@[0] != "locale"@[0]);
    assert("avatar"@[0] != "region"@[0]);
    assert("locale"@[0] != "region"@[0]);
    let s0 = Seq::<(Seq<char>, JsonView)>::empty();
    lemma_entry_of_push(s0, "banned"@, JsonView::Bool(v.banned));
    let s1 = s0.push(("banned"@, JsonView::Bool(v.banned)));
    lemma_entry_of_push(s1, "id"@, JsonView::Text(v.id));
    let s2 = s1.push(("id"@, JsonView::Text(v.id)));
    lemma_entry_of_push(s2, "access_token"@, json_of_opt_text(v.access_token));
    let s3 = s2.push(("access_token"@, json_of_opt_text(v.access_token)));
    lemma_entry_of_push(s3, "avatar"@, JsonView::Text(v.avatar));
    let s4 = s3.push(("avatar"@, JsonView::Text(v.avatar)));
    lemma_entry_of_push(s4, "ingame_name"@, JsonView::Text(v.ingame_name));
    let s5 = s4.push(("ingame_name"@, JsonView::Text(v.ingame_name)));
    lemma_entry_of_push(s5, "locale"@, JsonView::Text(v.locale));
    let s6 = s5.push(("locale"@, JsonView::Text(v.locale)));
    lemma_entry_of_push(s6, "platform"@, JsonView::Text(v.platform));
    let s7 = s6.push(("platform"@, JsonView::Text(v.platform)));
    lemma_entry_of_push(s7, "region"@, JsonView::Text(v.region));
    let s8 = s7.push(("region"@, JsonView::Text(v.region)));
    lemma_entry_of_push(s8, "role"@, JsonView::Text(v.role));
    let s9 = s8.push(("role"@, JsonView::Text(v.role)));
    let j = json_of_auth_state(v);
    assert(j->Object_0 =~= s9);
    assert(member(j, "banned"@) == Some(JsonView::Bool(v.banned)));
    assert(member(j, "id"@) == Some(JsonView::Text(v.id)));
    assert(member(j, "access_token"@) == Some(json_of_opt_text(v.access_token)));
    assert(member(j, "avatar"@) == Some(JsonView::Text(v.avatar)));
    assert(member(j, "ingame_name"@) == Some(JsonView::Text(v.ingame_name)));
    assert(member(j, "locale"@) == Some(JsonView::Text(v.locale)));
    assert(member(j, "platform"@) == Some(JsonView::Text(v.platform)));
    assert(member(j, "region"@) == Some(JsonView::Text(v.region)));
    assert(member(j, "role"@) == Some(JsonView::Text(v.role)));
}

/// The record before anyone has signed in: no token, empty texts.
pub open spec fn signed_out() -> AuthStateView {
    AuthStateView {
        banned: false,
        id: Seq::empty(),
        access_token: None,
        avatar: Seq::empty(),
        ingame_name: Seq::empty(),
        locale: Seq::empty(),
        platform: Seq::empty(),
        region: Seq::empty(),
        role: Seq::empty(),
    }
}

impl Default for AuthState {
    fn default() -> (r: AuthState)
        ensures
            r@ == signed_out(),
    {
        AuthState {
            banned: false,
            id: String::new(),
            access_token: None,
            avatar: String::new(),
            ingame_name: String::new(),
            locale: String::new(),
            platform: String::new(),
            region: String::new(),
            role: String::new(),
        }
    }
}

/// What start-up yields: the record to work with, and the text to store
/// where nothing was stored yet.
#[derive(Debug, PartialEq)]
pub struct Setup {
    pub auth: AuthState,
    pub to_store: Option<String>,
}

/// The fault of a stored record that cannot be read.
pub open spec fn unreadable_record() -> ErrorView {
    ErrorView::IoError("the stored credential record cannot be read"@)
}

impl AuthState {
    /// The text under which the record is stored.
    pub fn save_text(&self) -> (r: String)
        ensures
            r@ == rendered(json_of_auth_state(self@), true),
    {
        self.to_json().to_pretty_text()
    }

    /// Reads the record from its stored text. Fails with `IoError` exactly
    /// where the text is no JSON or lacks a member of the record.
    pub fn read_from_text(text: &str) -> (r: Result<AuthState, GlobleError>)
        ensures
            match parsed(text@) {
                Some(tree) => match auth_state_of_json(tree) {
                    Some(v) => r matches Ok(auth) && auth@ == v,
                    None => r matches Err(e) && e@ == unreadable_record(),
                },
                None => r matches Err(e) && e@ == unreadable_record(),
            },
    {
        match Json::parse(text) {
            Ok(j) => match AuthState::from_json(&j) {
                Ok(auth) => Ok(auth),
                Err(_) => Err(GlobleError::IoError(String::from_str("the stored credential record cannot be read"))),
            },
            Err(_) => Err(GlobleError::IoError(String::from_str("the stored credential record cannot be read"))),
        }
    }

    /// Decides what start-up works with. Where a record is stored, it is
    /// read, and nothing is to be stored; where none is, the signed-out
    /// record is taken and its text is to be stored.
    pub fn setup(stored: Option<String>) -> (r: Result<Setup, GlobleError>)
        ensures
            match stored {
                Some(text) => match parsed(text@) {
                    Some(tree) => match auth_state_of_json(tree) {
                        Some(v) => r matches Ok(s) && s.auth@ == v && s.to_store is None,
                        None => r matches Err(e) && e@ == unreadable_record(),
                    },
                    None => r matches Err(e) && e@ == unreadable_record(),
                },
                None => {
                    &&& r matches Ok(s)
                    &&& s.auth@ == signed_out()
                    &&& s.to_store matches Some(text)
                    &&& text@ == rendered(json_of_auth_state(signed_out()), true)
                },
            },
    {
        match stored {
            Some(text) => match AuthState::read_from_text(text.as_str()) {
                Ok(auth) => Ok(Setup { auth, to_store: None }),
                Err(e) => Err(e),
            },
            None => {
                let auth = AuthState::default();
                let text = auth.save_text();
                Ok(Setup { auth, to_store: Some(text) })
            },
        }
    }
}

} // verus!
