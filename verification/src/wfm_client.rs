//! The operations of the marketplace client.
//!
//! Each operation comes in two parts: one that begins the exchange with the
//! service, and one that takes the outcome of the exchange and says what
//! the operation yields and what is to be logged. Between the two the
//! caller drives the exchange. An operation that needs two exchanges has a
//! part for each.

use vstd::prelude::*;
use vstd::string::*;
use crate::auth::{auth_state_of_json, AuthState, AuthStateView};
use crate::error::{description, ErrorView, GlobleError};
use crate::json::{lemma_json_view, entry_views, rendered, Json, JsonView};
use crate::pipeline::{
    find_header, header_value, header_views, Action, Exchange, Method, Outgoing, OutgoingView, Phase, Reply,
    PACING_MILLIS,
};
use crate::structs::{
    item_details_of_json, item_list_of_json, json_of_item_details, item_views, order_by_item_list_of_json, order_of_json, order_views,
    order_by_item_views, ordres_of_json, Item, ItemDetails, Order, OrderByItem, OrderByItemView, OrderView,
    Ordres, OrdresView,
};
use crate::table::{
    column_views, equal_heights, names_distinct, rows_where, CellView, Column, ColumnType, ColumnView, Table,
};
use crate::text::{integer_text, signed_decimal, truth, truth_text};
use crate::wire::{
    decode_failure, json_of_number, opt_number_view, opt_text_view, shape_fault, write_number, Number, NumberView,
};

verus! {

/// The origin of the service; every request goes to a path below it.
pub open spec fn origin() -> Seq<char> {
    "https://api.warframe.market/v1/"@
}

/// The file that the operations' log records are meant for.
pub open spec fn calls_log() -> Seq<char> {
    "wfmAPICalls.log"@
}

/// The client: where the service is, where the log goes, and a snapshot of
/// the credentials that every request of this client is made with.
#[derive(Debug, PartialEq)]
pub struct WFMClientState {
    endpoint: String,
    log_file: String,
    auth: AuthState,
}

/// Whether a log record reports success or failure.
#[derive(Clone, Copy, Debug, PartialEq, Eq, Structural)]
pub enum Level {
    Info,
    Error,
}

/// A record for the log: which operation, what happened, whether the
/// record is to be kept, and in which file.
#[derive(Debug, PartialEq)]
pub struct LogRecord {
    pub level: Level,
    pub scope: String,
    pub message: String,
    pub persist: bool,
    pub file: Option<String>,
}

/// What a [`LogRecord`] holds.
pub struct LogView {
    pub level: Level,
    pub scope: Seq<char>,
    pub message: Seq<char>,
    pub persist: bool,
    pub file: Option<Seq<char>>,
}

impl View for LogRecord {
    type V = LogView;

    open spec fn view(&self) -> LogView {
        LogView {
            level: self.level,
            scope: self.scope@,
            message: self.message@,
            persist: self.persist,
            file: opt_text_view(self.file),
        }
    }
}

/// The view of an optional log record.
pub open spec fn opt_log_view(log: Option<LogRecord>) -> Option<LogView> {
    match log {
        Some(l) => Some(l@),
        None => None,
    }
}

/// What an operation yields, and what is to be logged about it.
#[derive(Debug, PartialEq)]
pub struct Finished<T> {
    pub result: Result<T, GlobleError>,
    pub log: Option<LogRecord>,
}

/// The view of an optional JSON value.
pub open spec fn opt_json_view(j: Option<Json>) -> Option<JsonView> {
    match j {
        Some(v) => Some(v@),
        None => None,
    }
}

/// The request that goes out for a path and a body: to the path below the
/// origin, with the token of the snapshot (empty without one) and in
/// English.
pub open spec fn outgoing_for(
    endpoint: Seq<char>,
    token: Option<Seq<char>>,
    method: Method,
    url: Seq<char>,
    body: Option<JsonView>,
) -> OutgoingView {
    OutgoingView {
        method: method,
        url: endpoint + url,
        authorization: "JWT "@ + (match token {
            Some(t) => t,
            None => Seq::empty(),
        }),
        language: "en"@,
        body: match body {
            Some(b) => Some(rendered(b, false)),
            None => None,
        },
    }
}

/// A log record about success.
pub open spec fn info_log(scope: Seq<char>, message: Seq<char>, file: Option<Seq<char>>) -> LogView {
    LogView { level: Level::Info, scope: scope, message: message, persist: true, file: file }
}

/// A log record about failure.
pub open spec fn error_log(scope: Seq<char>, message: Seq<char>, file: Option<Seq<char>>) -> LogView {
    LogView { level: Level::Error, scope: scope, message: message, persist: true, file: file }
}

/// The index of the first `;`, or the length where there is none.
pub open spec fn semicolon_at(s: Seq<char>) -> int
    decreases s.len(),
{
    if s.len() == 0 {
        0
    } else if s[0] == ';' {
        0
    } else {
        1 + semicolon_at(s.drop_first())
    }
}

/// The session token in the value of a `set-cookie` header: what follows
/// the first four characters, up to the first `;`. A value of fewer than
/// four characters holds the empty token.
pub open spec fn session_token(cookie: Seq<char>) -> Seq<char> {
    if cookie.len() < 4 {
        Seq::empty()
    } else {
        cookie.skip(4).take(semicolon_at(cookie.skip(4)))
    }
}

/// The credentials after signing in: what the service sent, with the token
/// of the cookie (none without a cookie) and with the avatar as a full
/// address.
pub open spec fn signed_in(sent: AuthStateView, cookie: Option<Seq<char>>) -> AuthStateView {
    AuthStateView {
        access_token: match cookie {
            Some(c) => Some(session_token(c)),
            None => None,
        },
        avatar: "https://warframe.market/static/assets/"@ + sent.avatar,
        ..sent
    }
}

proof fn lemma_semicolon_at(s: Seq<char>)
    ensures
        0 <= semicolon_at(s) <= s.len(),
        forall|i: int| 0 <= i < semicolon_at(s) ==> s[i] != ';',
        semicolon_at(s) < s.len() ==> s[semicolon_at(s)] == ';',
    decreases s.len(),
{
    if s.len() > 0 && s[0] != ';' {
        let rest = s.drop_first();
        lemma_semicolon_at(rest);
        assert forall|i: int| 0 <= i < semicolon_at(s) implies s[i] != ';' by {
            if i > 0 {
                assert(s[i] == rest[i - 1]);
            }
        }
    }
}

proof fn lemma_semicolon_found(s: Seq<char>, k: int)
    requires
        0 <= k <= s.len(),
        forall|i: int| 0 <= i < k ==> s[i] != ';',
        k < s.len() ==> s[k] == ';',
    ensures
        semicolon_at(s) == k,
{
    lemma_semicolon_at(s);
    let found = semicolon_at(s);
    if found < k {
        assert(s[found] == ';');
    } else if k < found {
        assert(s[k] != ';');
    }
}

/// Takes the session token out of the value of a `set-cookie` header.
pub fn token_of_cookie(cookie: &str) -> (r: String)
    ensures
        r@ == session_token(cookie@),
{
    let n = cookie.unicode_len();
    if n < 4 {
        return String::new();
    }
    let mut k: usize = 4;
    while k < n && cookie.get_char(k) != ';'
        invariant
            4 <= k <= n,
            n == cookie@.len(),
            forall|i: int| 4 <= i < k ==> cookie@[i] != ';',
        decreases n - k,
    {
        k += 1;
    }
    proof {
        let rest = cookie@.skip(4);
        assert forall|i: int| 0 <= i < k - 4 implies rest[i] != ';' by {
            assert(rest[i] == cookie@[i + 4]);
        }
        lemma_semicolon_found(rest, k - 4);
        assert(cookie@.subrange(4, k as int) =~= rest.take(k - 4));
    }
    String::from_str(cookie.substring_char(4, k))
}

impl WFMClientState {
    /// The address of the service.
    pub closed spec fn endpoint(&self) -> Seq<char> {
        self.endpoint@
    }

    /// The file for the log records.
    pub closed spec fn log_file(&self) -> Seq<char> {
        self.log_file@
    }

    /// The credentials that requests are made with.
    pub closed spec fn auth(&self) -> AuthStateView {
        self.auth@
    }

    /// A client for the service, with a snapshot of the credentials.
    pub fn new(auth: AuthState) -> (r: WFMClientState)
        ensures
            r.endpoint() == origin(),
            r.log_file() == calls_log(),
            r.auth() == auth@,
    {
        WFMClientState {
            endpoint: String::from_str("https://api.warframe.market/v1/"),
            log_file: String::from_str("wfmAPICalls.log"),
            auth,
        }
    }

    /// The credentials that requests are made with.
    pub fn credentials(&self) -> (r: &AuthState)
        ensures
            r@ == self.auth(),
    {
        &self.auth
    }

    /// The request that this client makes of a path and a body.
    pub open spec fn outgoing(&self, method: Method, url: Seq<char>, body: Option<JsonView>) -> OutgoingView {
        outgoing_for(self.endpoint(), self.auth().access_token, method, url, body)
    }

    /// Whether an exchange was begun by this client for that request: it is
    /// pacing, the caller is to sleep, and the request will go out as
    /// [`Self::outgoing`] says.
    pub open spec fn begun(
        &self,
        r: (Exchange, Action),
        method: Method,
        url: Seq<char>,
        payload_key: Option<Seq<char>>,
        body: Option<JsonView>,
    ) -> bool {
        &&& r.0.phase() == Phase::Pacing
        &&& r.0.outgoing() == self.outgoing(method, url, body)
        &&& r.0.payload_key() == payload_key
        &&& r.1 == Action::Sleep(PACING_MILLIS)
    }

    /// Begins an exchange: one request of the service, to the path `url`
    /// below the origin, with the token of the snapshot. The answer's
    /// payload is handed out whole, or its member `payload_key` where one
    /// is given.
    pub fn send_request(&self, method: Method, url: &str, payload_key: Option<&str>, body: Option<Json>) -> (r:
        (Exchange, Action))
        ensures
            self.begun(
                r,
                method,
                url@,
                match payload_key {
                    Some(k) => Some(k@),
                    None => None,
                },
                opt_json_view(body),
            ),
    {
        let mut address = self.endpoint.clone();
        address.append(url);
        let mut authorization = String::from_str("JWT ");
        match &self.auth.access_token {
            Some(token) => authorization.append(token.as_str()),
            None => {
                assert(authorization@ =~= "JWT "@ + Seq::<char>::empty());
            },
        }
        let text = match &body {
            Some(b) => Some(b.to_text()),
            None => None,
        };
        let key = match payload_key {
            Some(k) => Some(String::from_str(k)),
            None => None,
        };
        let outgoing = Outgoing {
            method,
            url: address,
            authorization,
            language: String::from_str("en"),
            body: text,
        };
        Exchange::begin(outgoing, key)
    }

    /// Begins a GET.
    pub fn get(&self, url: &str, payload_key: Option<&str>) -> (r: (Exchange, Action))
        ensures
            self.begun(
                r,
                Method::Get,
                url@,
                match payload_key {
                    Some(k) => Some(k@),
                    None => None,
                },
                None,
            ),
    {
        self.send_request(Method::Get, url, payload_key, None)
    }

    /// Begins a POST.
    pub fn post(&self, url: &str, payload_key: Option<&str>, body: Json) -> (r: (Exchange, Action))
        ensures
            self.begun(
                r,
                Method::Post,
                url@,
                match payload_key {
                    Some(k) => Some(k@),
                    None => None,
                },
                Some(body@),
            ),
    {
        self.send_request(Method::Post, url, payload_key, Some(body))
    }

    /// Begins a DELETE.
    pub fn delete(&self, url: &str, payload_key: Option<&str>) -> (r: (Exchange, Action))
        ensures
            self.begun(
                r,
                Method::Delete,
                url@,
                match payload_key {
                    Some(k) => Some(k@),
                    None => None,
                },
                None,
            ),
    {
        self.send_request(Method::Delete, url, payload_key, None)
    }

    /// Begins a PUT.
    pub fn put(&self, url: &str, payload_key: Option<&str>, body: Option<Json>) -> (r: (Exchange, Action))
        ensures
            self.begun(
                r,
                Method::Put,
                url@,
                match payload_key {
                    Some(k) => Some(k@),
                    None => None,
                },
                opt_json_view(body),
            ),
    {
        self.send_request(Method::Put, url, payload_key, body)
    }

    /// Begins signing in: the address and the password are posted to
    /// `/auth/signin`, and the member `user` of the payload is asked for.
    pub fn login_request(&self, email: String, password: String) -> (r: (Exchange, Action))
        ensures
            self.begun(
                r,
                Method::Post,
                "/auth/signin"@,
                Some("user"@),
                Some(
                    JsonView::Object(
                        seq![("email"@, JsonView::Text(email@)), ("password"@, JsonView::Text(password@))],
                    ),
                ),
            ),
    {
        let mut entries: Vec<(String, Json)> = Vec::new();
        entries.push((String::from_str("email"), Json::Text(email)));
        entries.push((String::from_str("password"), Json::Text(password)));
        let body = Json::Object(entries);
        proof {
            lemma_json_view(body);
            assert(entry_views(entries@) =~= seq![
                ("email"@, JsonView::Text(email@)),
                ("password"@, JsonView::Text(password@)),
            ]);
        }
        self.post("/auth/signin", Some("user"), body)
    }

    /// Ends signing in. The credentials are those that the service sent,
    /// with the avatar as a full address. They hold a token if and only if
    /// the answer has a `set-cookie` header, and then the token of that
    /// header; without the header there is no token, and no error either.
    ///
    /// Fails with the error of the exchange; else with `SerdeError` if the
    /// payload is no credential record.
    pub fn login(&self, outcome: Result<Reply, GlobleError>) -> (r: Result<AuthState, GlobleError>)
        ensures
            match outcome {
                Ok(reply) => match auth_state_of_json(reply.payload@) {
                    Some(sent) => r matches Ok(auth) && auth@ == signed_in(
                        sent,
                        header_value(header_views(reply.headers@), "set-cookie"@),
                    ),
                    None => r matches Err(e) && e@ == shape_fault(reply.payload@),
                },
                Err(failure) => r matches Err(e) && e@ == failure@,
            },
    {
        match outcome {
            Ok(reply) => {
                match AuthState::from_json(&reply.payload) {
                    Ok(sent) => {
                        let token = match find_header(&reply.headers, "set-cookie") {
                            Some(cookie) => Some(token_of_cookie(cookie.as_str())),
                            None => None,
                        };
                        let mut avatar = String::from_str("https://warframe.market/static/assets/");
                        avatar.append(sent.avatar.as_str());
                        Ok(
                            AuthState {
                                banned: sent.banned,
                                id: sent.id,
                                access_token: token,
                                avatar: avatar,
                                ingame_name: sent.ingame_name,
                                locale: sent.locale,
                                platform: sent.platform,
                                region: sent.region,
                                role: sent.role,
                            },
                        )
                    },
                    Err(e) => Err(e),
                }
            },
            Err(failure) => Err(failure),
        }
    }
}


/// The catalogue item that the token is tried on.
pub open spec fn probe_item() -> Seq<char> {
    "56783f24cbfa8f0432dd89a2"@
}

/// The body that creates a listing. The rank, a whole or a real number, is
/// a member only where one is given.
pub open spec fn order_body(
    item_id: Seq<char>,
    order_type: Seq<char>,
    platinum: i64,
    quantity: i64,
    visible: bool,
    rank: Option<NumberView>,
) -> JsonView {
    let members = seq![
        ("item"@, JsonView::Text(item_id)),
        ("order_type"@, JsonView::Text(order_type)),
        ("platinum"@, JsonView::Int(platinum)),
        ("quantity"@, JsonView::Int(quantity)),
        ("visible"@, JsonView::Bool(visible)),
    ];
    JsonView::Object(
        match rank {
            Some(r) => members.push(("rank"@, json_of_number(r))),
            None => members,
        },
    )
}

/// The body that replaces the price, the quantity and the visibility of a
/// listing.
pub open spec fn update_body(platinum: i64, quantity: i64, visible: bool) -> JsonView {
    JsonView::Object(
        seq![
            ("platinum"@, JsonView::Int(platinum)),
            ("quantity"@, JsonView::Int(quantity)),
            ("visible"@, JsonView::Bool(visible)),
        ],
    )
}

/// What is logged when a listing was made.
pub open spec fn created_message(
    order_type: Seq<char>,
    item_name: Seq<char>,
    item_id: Seq<char>,
    platinum: i64,
    quantity: i64,
    visible: bool,
) -> Seq<char> {
    "Created Order: "@ + order_type + ", Item Name: "@ + item_name + ", Item Id: "@ + item_id + ",  Platinum: "@
        + signed_decimal(platinum as int) + ", Quantity: "@ + signed_decimal(quantity as int) + ", Visible: "@
        + truth(visible)
}

/// What is logged when a listing was removed.
pub open spec fn deleted_message(
    order_id: Seq<char>,
    item_name: Seq<char>,
    item_id: Seq<char>,
    order_type: Seq<char>,
) -> Seq<char> {
    "Deleted order: "@ + order_id + ", Item Name: "@ + item_name + ", Item Id: "@ + item_id + ", Type: "@
        + order_type
}

/// What is logged when a listing was changed.
pub open spec fn updated_message(
    order_id: Seq<char>,
    item_name: Seq<char>,
    item_id: Seq<char>,
    platinum: i64,
    quantity: i64,
    visible: bool,
    order_type: Seq<char>,
) -> Seq<char> {
    "Updated Order Id: "@ + order_id + ", Item Name: "@ + item_name + ", Item Id: "@ + item_id + ", Platinum: "@
        + signed_decimal(platinum as int) + ", Quantity: "@ + signed_decimal(quantity as int) + ", Visible: "@
        + truth(visible) + ", Type: "@ + order_type
}

/// The text of a payload that is a text.
pub open spec fn text_of(j: JsonView) -> Option<Seq<char>> {
    match j {
        JsonView::Text(s) => Some(s),
        _ => None,
    }
}

impl WFMClientState {
    fn info(&self, scope: &str, message: String, to_file: bool) -> (r: LogRecord)
        ensures
            r@ == info_log(
                scope@,
                message@,
                if to_file {
                    Some(self.log_file())
                } else {
                    None
                },
            ),
    {
        LogRecord {
            level: Level::Info,
            scope: String::from_str(scope),
            message,
            persist: true,
            file: if to_file {
                Some(self.log_file.clone())
            } else {
                None
            },
        }
    }

    fn error(&self, scope: &str, message: String, to_file: bool) -> (r: LogRecord)
        ensures
            r@ == error_log(
                scope@,
                message@,
                if to_file {
                    Some(self.log_file())
                } else {
                    None
                },
            ),
    {
        LogRecord {
            level: Level::Error,
            scope: String::from_str(scope),
            message,
            persist: true,
            file: if to_file {
                Some(self.log_file.clone())
            } else {
                None
            },
        }
    }

    /// Begins the fetch of the catalogue: `items`, member `items`.
    pub fn get_tradable_items_request(&self) -> (r: (Exchange, Action))
        ensures
            self.begun(r, Method::Get, "items"@, Some("items"@), None),
    {
        self.get("items", Some("items"))
    }

    /// Ends the fetch of the catalogue. Fails with the error of the
    /// exchange; else with `SerdeError` if the payload is no list of items.
    pub fn get_tradable_items(&self, outcome: Result<Reply, GlobleError>) -> (r: Result<Vec<Item>, GlobleError>)
        ensures
            match outcome {
                Ok(reply) => match item_list_of_json(reply.payload@) {
                    Some(items) => r matches Ok(found) && item_views(found@) == items,
                    None => r matches Err(e) && e@ == shape_fault(reply.payload@),
                },
                Err(failure) => r matches Err(e) && e@ == failure@,
            },
    {
        match outcome {
            Ok(reply) => Item::list_from_json(&reply.payload),
            Err(failure) => Err(failure),
        }
    }

    /// Begins the fetch of one item: `items/` and the item, member `item`.
    pub fn get_item_request(&self, item: &str) -> (r: (Exchange, Action))
        ensures
            self.begun(r, Method::Get, "items/"@ + item@, Some("item"@), None),
    {
        let mut url = String::from_str("items/");
        url.append(item);
        self.get(url.as_str(), Some("item"))
    }

    /// Ends the fetch of one item, and logs how it went: on success the
    /// item as it came, its id and the members of its set, as JSON text; on
    /// failure the item asked for and the error. Fails with the error of
    /// the exchange; else with `SerdeError` if the payload is no item with
    /// its set.
    pub fn get_item(&self, item: &str, outcome: Result<Reply, GlobleError>) -> (r: Finished<ItemDetails>)
        ensures
            match outcome {
                Ok(reply) => match item_details_of_json(reply.payload@) {
                    Some(details) => {
                        &&& r.result matches Ok(found)
                        &&& found@ == details
                        &&& opt_log_view(r.log) == Some(
                            info_log(
                                "WarframeMarket:GetItem"@,
                                "For Item: "@ + rendered(json_of_item_details(details), false),
                                Some(self.log_file()),
                            ),
                        )
                    },
                    None => {
                        &&& r.result matches Err(e)
                        &&& e@ == shape_fault(reply.payload@)
                        &&& opt_log_view(r.log) == Some(
                            error_log(
                                "WarframeMarket:GetItem"@,
                                "Item: "@ + item@ + ", Error: "@ + description(shape_fault(reply.payload@)),
                                Some(self.log_file()),
                            ),
                        )
                    },
                },
                Err(failure) => {
                    &&& r.result matches Err(e)
                    &&& e@ == failure@
                    &&& opt_log_view(r.log) == Some(
                        error_log(
                            "WarframeMarket:GetItem"@,
                            "Item: "@ + item@ + ", Error: "@ + description(failure@),
                            Some(self.log_file()),
                        ),
                    )
                },
            },
    {
        let decoded = match outcome {
            Ok(reply) => ItemDetails::from_json(&reply.payload),
            Err(failure) => Err(failure),
        };
        match decoded {
            Ok(found) => {
                let mut message = String::from_str("For Item: ");
                message.append(found.to_json().to_text().as_str());
                Finished { result: Ok(found), log: Some(self.info("WarframeMarket:GetItem", message, true)) }
            },
            Err(e) => {
                let mut message = String::from_str("Item: ");
                message.append(item);
                message.append(", Error: ");
                message.append(e.describe().as_str());
                Finished { result: Err(e), log: Some(self.error("WarframeMarket:GetItem", message, true)) }
            },
        }
    }

    /// Begins the fetch of the trader's own listings: `profile/`, the
    /// trader's name, `/orders`; the whole payload is asked for.
    ///
    /// Fails with `OtherError`, and begins nothing, if and only if the
    /// credentials hold no name.
    pub fn get_user_ordres_request(&self) -> (r: Result<(Exchange, Action), GlobleError>)
        ensures
            match r {
                Ok(begun) => self.auth().ingame_name.len() > 0 && self.begun(
                    begun,
                    Method::Get,
                    "profile/"@ + self.auth().ingame_name + "/orders"@,
                    None,
                    None,
                ),
                Err(e) => self.auth().ingame_name.len() == 0 && e@ == ErrorView::OtherError(
                    "the credentials hold no name"@,
                ),
            },
    {
        if self.auth.ingame_name.as_str().unicode_len() == 0 {
            return Err(GlobleError::OtherError(String::from_str("the credentials hold no name")));
        }
        let mut url = String::from_str("profile/");
        url.append(self.auth.ingame_name.as_str());
        url.append("/orders");
        Ok(self.get(url.as_str(), None))
    }

    /// Ends the fetch of the trader's own listings, and logs how it went.
    /// Fails with the error of the exchange; else with `SerdeError` if the
    /// payload does not hold the two lists of listings.
    pub fn get_user_ordres(&self, outcome: Result<Reply, GlobleError>) -> (r: Finished<Ordres>)
        ensures
            match outcome {
                Ok(reply) => match ordres_of_json(reply.payload@) {
                    Some(listed) => {
                        &&& r.result matches Ok(found)
                        &&& found@ == listed
                        &&& opt_log_view(r.log) == Some(
                            info_log(
                                "WarframeMarket:GetUserOrdres"@,
                                "From User: "@ + self.auth().ingame_name,
                                Some(self.log_file()),
                            ),
                        )
                    },
                    None => {
                        &&& r.result matches Err(e)
                        &&& e@ == shape_fault(reply.payload@)
                        &&& opt_log_view(r.log) == Some(
                            error_log(
                                "WarframeMarket:GetUserOrdres"@,
                                "User: "@ + self.auth().ingame_name + ", Error: "@ + description(
                                    shape_fault(reply.payload@),
                                ),
                                None,
                            ),
                        )
                    },
                },
                Err(failure) => {
                    &&& r.result matches Err(e)
                    &&& e@ == failure@
                    &&& opt_log_view(r.log) == Some(
                        error_log(
                            "WarframeMarket:GetUserOrdres"@,
                            "User: "@ + self.auth().ingame_name + ", Error: "@ + description(failure@),
                            None,
                        ),
                    )
                },
            },
    {
        let decoded = match outcome {
            Ok(reply) => Ordres::from_json(&reply.payload),
            Err(failure) => Err(failure),
        };
        match decoded {
            Ok(found) => {
                let mut message = String::from_str("From User: ");
                message.append(self.auth.ingame_name.as_str());
                Finished {
                    result: Ok(found),
                    log: Some(self.info("WarframeMarket:GetUserOrdres", message, true)),
                }
            },
            Err(e) => {
                let mut message = String::from_str("User: ");
                message.append(self.auth.ingame_name.as_str());
                message.append(", Error: ");
                message.append(e.describe().as_str());
                Finished {
                    result: Err(e),
                    log: Some(self.error("WarframeMarket:GetUserOrdres", message, false)),
                }
            },
        }
    }

    /// Begins the making of a listing: the body of [`order_body`] is posted
    /// to `profile/orders`, and the member `order` is asked for.
    pub fn post_ordre_request(
        &self,
        item_id: &str,
        order_type: &str,
        platinum: i64,
        quantity: i64,
        visible: bool,
        rank: Option<Number>,
    ) -> (r: (Exchange, Action))
        ensures
            self.begun(
                r,
                Method::Post,
                "profile/orders"@,
                Some("order"@),
                Some(order_body(item_id@, order_type@, platinum, quantity, visible, opt_number_view(rank))),
            ),
    {
        let mut entries: Vec<(String, Json)> = Vec::new();
        entries.push((String::from_str("item"), Json::Text(String::from_str(item_id))));
        entries.push((String::from_str("order_type"), Json::Text(String::from_str(order_type))));
        entries.push((String::from_str("platinum"), Json::Int(platinum)));
        entries.push((String::from_str("quantity"), Json::Int(quantity)));
        entries.push((String::from_str("visible"), Json::Bool(visible)));
        match &rank {
            Some(r) => entries.push((String::from_str("rank"), write_number(r))),
            None => {},
        }
        let body = Json::Object(entries);
        proof {
            lemma_json_view(body);
            assert(entry_views(entries@) =~= order_body(
                item_id@,
                order_type@,
                platinum,
                quantity,
                visible,
                opt_number_view(rank),
            )->Object_0);
        }
        self.post("profile/orders", Some("order"), body)
    }

    /// Ends the making of a listing, and logs how it went. Fails with the
    /// error of the exchange; else with `SerdeError` if the payload is no
    /// listing.
    pub fn post_ordre(
        &self,
        item_name: &str,
        item_id: &str,
        order_type: &str,
        platinum: i64,
        quantity: i64,
        visible: bool,
        outcome: Result<Reply, GlobleError>,
    ) -> (r: Finished<Order>)
        ensures
            match outcome {
                Ok(reply) => match order_of_json(reply.payload@) {
                    Some(made) => {
                        &&& r.result matches Ok(order)
                        &&& order@ == made
                        &&& opt_log_view(r.log) == Some(
                            info_log(
                                "WarframeMarket:PostOrder"@,
                                created_message(order_type@, item_name@, item_id@, platinum, quantity, visible),
                                Some(self.log_file()),
                            ),
                        )
                    },
                    None => {
                        &&& r.result matches Err(e)
                        &&& e@ == shape_fault(reply.payload@)
                        &&& opt_log_view(r.log) == Some(
                            error_log(
                                "WarframeMarket:PostOrder"@,
                                description(shape_fault(reply.payload@)),
                                Some(self.log_file()),
                            ),
                        )
                    },
                },
                Err(failure) => {
                    &&& r.result matches Err(e)
                    &&& e@ == failure@
                    &&& opt_log_view(r.log) == Some(
                        error_log("WarframeMarket:PostOrder"@, description(failure@), Some(self.log_file())),
                    )
                },
            },
    {
        let decoded = match outcome {
            Ok(reply) => Order::from_json(&reply.payload),
            Err(failure) => Err(failure),
        };
        match decoded {
            Ok(order) => {
                let mut message = String::from_str("Created Order: ");
                message.append(order_type);
                message.append(", Item Name: ");
                message.append(item_name);
                message.append(", Item Id: ");
                message.append(item_id);
                message.append(",  Platinum: ");
                message.append(integer_text(platinum).as_str());
                message.append(", Quantity: ");
                message.append(integer_text(quantity).as_str());
                message.append(", Visible: ");
                message.append(truth_text(visible).as_str());
                Finished { result: Ok(order), log: Some(self.info("WarframeMarket:PostOrder", message, true)) }
            },
            Err(e) => {
                let message = e.describe();
                Finished { result: Err(e), log: Some(self.error("WarframeMarket:PostOrder", message, true)) }
            },
        }
    }

    /// Begins the removal of a listing: a DELETE of `profile/orders/` and
    /// the listing's id; the member `order_id` is asked for.
    pub fn delete_order_request(&self, order_id: &str) -> (r: (Exchange, Action))
        ensures
            self.begun(r, Method::Delete, "profile/orders/"@ + order_id@, Some("order_id"@), None),
    {
        let mut url = String::from_str("profile/orders/");
        url.append(order_id);
        self.delete(url.as_str(), Some("order_id"))
    }

    /// Ends the removal of a listing, and logs how it went. Yields the id
    /// that the service confirms. Fails with the error of the exchange;
    /// else with `SerdeError` if the payload is no text.
    pub fn delete_order(
        &self,
        item_name: &str,
        item_id: &str,
        order_type: &str,
        outcome: Result<Reply, GlobleError>,
    ) -> (r: Finished<String>)
        ensures
            match outcome {
                Ok(reply) => match text_of(reply.payload@) {
                    Some(id) => {
                        &&& r.result matches Ok(removed)
                        &&& removed@ == id
                        &&& opt_log_view(r.log) == Some(
                            info_log(
                                "WarframeMarket:DeleteOrder"@,
                                deleted_message(id, item_name@, item_id@, order_type@),
                                Some(self.log_file()),
                            ),
                        )
                    },
                    None => {
                        &&& r.result matches Err(e)
                        &&& e@ == shape_fault(reply.payload@)
                        &&& opt_log_view(r.log) == Some(
                            error_log(
                                "WarframeMarket:DeleteOrder"@,
                                description(shape_fault(reply.payload@)),
                                None,
                            ),
                        )
                    },
                },
                Err(failure) => {
                    &&& r.result matches Err(e)
                    &&& e@ == failure@
                    &&& opt_log_view(r.log) == Some(
                        error_log("WarframeMarket:DeleteOrder"@, description(failure@), None),
                    )
                },
            },
    {
        let decoded = match outcome {
            Ok(reply) => match &reply.payload {
                Json::Text(id) => Ok(id.clone()),
                _ => Err(decode_failure(&reply.payload)),
            },
            Err(failure) => Err(failure),
        };
        match decoded {
            Ok(removed) => {
                let mut message = String::from_str("Deleted order: ");
                message.append(removed.as_str());
                message.append(", Item Name: ");
                message.append(item_name);
                message.append(", Item Id: ");
                message.append(item_id);
                message.append(", Type: ");
                message.append(order_type);
                Finished {
                    result: Ok(removed),
                    log: Some(self.info("WarframeMarket:DeleteOrder", message, true)),
                }
            },
            Err(e) => {
                let message = e.describe();
                Finished { result: Err(e), log: Some(self.error("WarframeMarket:DeleteOrder", message, false)) }
            },
        }
    }

    /// Begins the change of a listing: the body of [`update_body`] is put
    /// to `profile/orders/` and the listing's id; the member `order` is
    /// asked for.
    pub fn update_order_listing_request(&self, order_id: &str, platinum: i64, quantity: i64, visible: bool) -> (r:
        (Exchange, Action))
        ensures
            self.begun(
                r,
                Method::Put,
                "profile/orders/"@ + order_id@,
                Some("order"@),
                Some(update_body(platinum, quantity, visible)),
            ),
    {
        let mut entries: Vec<(String, Json)> = Vec::new();
        entries.push((String::from_str("platinum"), Json::Int(platinum)));
        entries.push((String::from_str("quantity"), Json::Int(quantity)));
        entries.push((String::from_str("visible"), Json::Bool(visible)));
        let body = Json::Object(entries);
        proof {
            lemma_json_view(body);
            assert(entry_views(entries@) =~= update_body(platinum, quantity, visible)->Object_0);
        }
        let mut url = String::from_str("profile/orders/");
        url.append(order_id);
        self.put(url.as_str(), Some("order"), Some(body))
    }

    /// Ends the change of a listing, and logs how it went. Fails with the
    /// error of the exchange; else with `SerdeError` if the payload is no
    /// listing.
    pub fn update_order_listing(
        &self,
        order_id: &str,
        platinum: i64,
        quantity: i64,
        visible: bool,
        item_name: &str,
        item_id: &str,
        order_type: &str,
        outcome: Result<Reply, GlobleError>,
    ) -> (r: Finished<Order>)
        ensures
            match outcome {
                Ok(reply) => match order_of_json(reply.payload@) {
                    Some(changed) => {
                        &&& r.result matches Ok(order)
                        &&& order@ == changed
                        &&& opt_log_view(r.log) == Some(
                            info_log(
                                "WarframeMarket:UpdateOrderListing"@,
                                updated_message(
                                    order_id@,
                                    item_name@,
                                    item_id@,
                                    platinum,
                                    quantity,
                                    visible,
                                    order_type@,
                                ),
                                Some(self.log_file()),
                            ),
                        )
                    },
                    None => {
                        &&& r.result matches Err(e)
                        &&& e@ == shape_fault(reply.payload@)
                        &&& opt_log_view(r.log) == Some(
                            error_log(
                                "WarframeMarket:UpdateOrderListing"@,
                                description(shape_fault(reply.payload@)),
                                Some(self.log_file()),
                            ),
                        )
                    },
                },
                Err(failure) => {
                    &&& r.result matches Err(e)
                    &&& e@ == failure@
                    &&& opt_log_view(r.log) == Some(
                        error_log(
                            "WarframeMarket:UpdateOrderListing"@,
                            description(failure@),
                            Some(self.log_file()),
                        ),
                    )
                },
            },
    {
        let decoded = match outcome {
            Ok(reply) => Order::from_json(&reply.payload),
            Err(failure) => Err(failure),
        };
        match decoded {
            Ok(order) => {
                let mut message = String::from_str("Updated Order Id: ");
                message.append(order_id);
                message.append(", Item Name: ");
                message.append(item_name);
                message.append(", Item Id: ");
                message.append(item_id);
                message.append(", Platinum: ");
                message.append(integer_text(platinum).as_str());
                message.append(", Quantity: ");
                message.append(integer_text(quantity).as_str());
                message.append(", Visible: ");
                message.append(truth_text(visible).as_str());
                message.append(", Type: ");
                message.append(order_type);
                Finished {
                    result: Ok(order),
                    log: Some(self.info("WarframeMarket:UpdateOrderListing", message, true)),
                }
            },
            Err(e) => {
                let message = e.describe();
                Finished {
                    result: Err(e),
                    log: Some(self.error("WarframeMarket:UpdateOrderListing", message, true)),
                }
            },
        }
    }

    /// Begins the trial of the token: a buy listing of one piece for one
    /// platinum, hidden, is made for the probe item.
    pub fn validate_request(&self) -> (r: (Exchange, Action))
        ensures
            self.begun(
                r,
                Method::Post,
                "profile/orders"@,
                Some("order"@),
                Some(order_body(probe_item(), "buy"@, 1, 1, false, None)),
            ),
    {
        self.post_ordre_request("56783f24cbfa8f0432dd89a2", "buy", 1, 1, false, None)
    }

    /// Goes on with the trial of the token once the probe listing was
    /// asked for: where it was made, its removal begins; where it was not,
    /// there is nothing more to ask, and the trial has failed.
    pub fn validate_created(&self, created: &Result<Order, GlobleError>) -> (r: Option<(Exchange, Action)>)
        ensures
            match created {
                Ok(order) => r matches Some(begun) && self.begun(
                    begun,
                    Method::Delete,
                    "profile/orders/"@ + order.id@,
                    Some("order_id"@),
                    None,
                ),
                Err(_) => r is None,
            },
    {
        match created {
            Ok(order) => Some(self.delete_order_request(order.id.as_str())),
            Err(_) => None,
        }
    }

    /// Ends the trial of the token: it is usable if and only if the probe
    /// listing was made and was removed again. A failure of either step
    /// turns into `false`, never into an error.
    pub fn validate(&self, created: &Result<Order, GlobleError>, removed: Option<&Result<String, GlobleError>>) -> (r:
        Result<bool, GlobleError>)
        ensures
            r == Ok::<bool, GlobleError>(created is Ok && removed matches Some(Ok(_))),
    {
        match (created, removed) {
            (Ok(_), Some(Ok(_))) => Ok(true),
            _ => Ok(false),
        }
    }
}


/// The table of a sequence of listings: one row for each, in their order,
/// with the columns `id`, `visible`, `url_name`, `platinum`, `platform`,
/// `quantity`, `last_update` and `creation_date`.
pub open spec fn orders_table(orders: Seq<OrderView>) -> Seq<ColumnView> {
    seq![
        ColumnView {
            name: "id"@,
            dtype: ColumnType::String,
            cells: Seq::new(orders.len(), |i: int| CellView::String(orders[i].id)),
        },
        ColumnView {
            name: "visible"@,
            dtype: ColumnType::Bool,
            cells: Seq::new(orders.len(), |i: int| CellView::Bool(orders[i].visible)),
        },
        ColumnView {
            name: "url_name"@,
            dtype: ColumnType::String,
            cells: Seq::new(orders.len(), |i: int| CellView::String(orders[i].item.url_name)),
        },
        ColumnView {
            name: "platinum"@,
            dtype: ColumnType::I64,
            cells: Seq::new(orders.len(), |i: int| CellView::I64(orders[i].platinum)),
        },
        ColumnView {
            name: "platform"@,
            dtype: ColumnType::String,
            cells: Seq::new(orders.len(), |i: int| CellView::String(orders[i].platform)),
        },
        ColumnView {
            name: "quantity"@,
            dtype: ColumnType::I64,
            cells: Seq::new(orders.len(), |i: int| CellView::I64(orders[i].quantity)),
        },
        ColumnView {
            name: "last_update"@,
            dtype: ColumnType::String,
            cells: Seq::new(orders.len(), |i: int| CellView::String(orders[i].last_update)),
        },
        ColumnView {
            name: "creation_date"@,
            dtype: ColumnType::String,
            cells: Seq::new(orders.len(), |i: int| CellView::String(orders[i].creation_date)),
        },
    ]
}

/// The table of a sequence of listings.
pub fn orders_frame(orders: &Vec<Order>) -> (r: Table)
    ensures
        r@ == orders_table(order_views(orders@)),
{
    let ghost views = order_views(orders@);
    let mut ids: Vec<String> = Vec::new();
    let mut visibles: Vec<bool> = Vec::new();
    let mut url_names: Vec<String> = Vec::new();
    let mut platinums: Vec<i64> = Vec::new();
    let mut platforms: Vec<String> = Vec::new();
    let mut quantities: Vec<i64> = Vec::new();
    let mut last_updates: Vec<String> = Vec::new();
    let mut creation_dates: Vec<String> = Vec::new();
    let mut i: usize = 0;
    while i < orders.len()
        invariant
            i <= orders.len(),
            views == order_views(orders@),
            ids@.len() == i,
            visibles@.len() == i,
            url_names@.len() == i,
            platinums@.len() == i,
            platforms@.len() == i,
            quantities@.len() == i,
            last_updates@.len() == i,
            creation_dates@.len() == i,
            forall|k: int| 0 <= k < i ==> (#[trigger] ids@[k])@ == views[k].id,
            forall|k: int| 0 <= k < i ==> #[trigger] visibles@[k] == views[k].visible,
            forall|k: int| 0 <= k < i ==> (#[trigger] url_names@[k])@ == views[k].item.url_name,
            forall|k: int| 0 <= k < i ==> #[trigger] platinums@[k] == views[k].platinum,
            forall|k: int| 0 <= k < i ==> (#[trigger] platforms@[k])@ == views[k].platform,
            forall|k: int| 0 <= k < i ==> #[trigger] quantities@[k] == views[k].quantity,
            forall|k: int| 0 <= k < i ==> (#[trigger] last_updates@[k])@ == views[k].last_update,
            forall|k: int| 0 <= k < i ==> (#[trigger] creation_dates@[k])@ == views[k].creation_date,
        decreases orders.len() - i,
    {
        let order = &orders[i];
        ids.push(order.id.clone());
        visibles.push(order.visible);
        url_names.push(order.item.url_name.clone());
        platinums.push(order.platinum);
        platforms.push(order.platform.clone());
        quantities.push(order.quantity);
        last_updates.push(order.last_update.clone());
        creation_dates.push(order.creation_date.clone());
        i += 1;
    }
    let ghost target = orders_table(views);
    let mut columns: Vec<Column> = Vec::new();
    let c0 = Column::from_strings("id", ids);
    let c1 = Column::from_bools("visible", visibles);
    let c2 = Column::from_strings("url_name", url_names);
    let c3 = Column::from_i64s("platinum", platinums);
    let c4 = Column::from_strings("platform", platforms);
    let c5 = Column::from_i64s("quantity", quantities);
    let c6 = Column::from_strings("last_update", last_updates);
    let c7 = Column::from_strings("creation_date", creation_dates);
    proof {
        assert(c0@.cells =~= target[0].cells);
        assert(c1@.cells =~= target[1].cells);
        assert(c2@.cells =~= target[2].cells);
        assert(c3@.cells =~= target[3].cells);
        assert(c4@.cells =~= target[4].cells);
        assert(c5@.cells =~= target[5].cells);
        assert(c6@.cells =~= target[6].cells);
        assert(c7@.cells =~= target[7].cells);
        assert(c0@ == target[0]);
        assert(c1@ == target[1]);
        assert(c2@ == target[2]);
        assert(c3@ == target[3]);
        assert(c4@ == target[4]);
        assert(c5@ == target[5]);
        assert(c6@ == target[6]);
        assert(c7@ == target[7]);
    }
    columns.push(c0);
    columns.push(c1);
    columns.push(c2);
    columns.push(c3);
    columns.push(c4);
    columns.push(c5);
    columns.push(c6);
    columns.push(c7);
    proof {
        assert(column_views(columns@) =~= target);
        reveal_strlit("id");
        reveal_strlit("visible");
        reveal_strlit("url_name");
        reveal_strlit("platinum");
        reveal_strlit("platform");
        reveal_strlit("quantity");
        reveal_strlit("last_update");
        reveal_strlit("creation_date");
        assert("id"@.len() == 2);
        assert("visible"@.len() == 7);
        assert("url_name"@.len() == 8);
        assert("platinum"@.len() == 8);
        assert("platform"@.len() == 8);
        assert("quantity"@.len() == 8);
        assert("last_update"@.len() == 11);
        assert("creation_date"@.len() == 13);
        assert("url_name"@[0] != "platinum"@[0]);
        assert("url_name"@[0] != "platform"@[0]);
        assert("url_name"@[0] != "quantity"@[0]);
        assert("platinum"@[4] != "platform"@[4]);
        assert("platinum"@[0] != "quantity"@[0]);
        assert("platform"@[0] != "quantity"@[0]);
        assert(names_distinct(target));
        assert(equal_heights(target));
    }
    match Table::new(columns) {
        Ok(table) => table,
        Err(_) => {
            assert(false);
            Table::empty()
        },
    }
}

/// The larger of two ranks, no rank counting as the least.
pub open spec fn higher_rank(a: Option<i64>, b: Option<i64>) -> Option<i64> {
    match (a, b) {
        (Some(x), Some(y)) => if x < y {
            b
        } else {
            a
        },
        (None, _) => b,
        (_, None) => a,
    }
}

/// The highest rank among the listings, no rank counting as the least.
pub open spec fn top_rank(orders: Seq<OrderByItemView>) -> Option<i64>
    decreases orders.len(),
{
    if orders.len() == 0 {
        None
    } else {
        higher_rank(top_rank(orders.drop_last()), orders.last().mod_rank)
    }
}

/// The highest rank is the rank of one of the listings, and none of them
/// has a higher one.
pub proof fn lemma_top_rank(orders: Seq<OrderByItemView>)
    requires
        orders.len() > 0,
    ensures
        exists|i: int| 0 <= i < orders.len() && (#[trigger] orders[i]).mod_rank == top_rank(orders),
        forall|i: int|
            0 <= i < orders.len() ==> higher_rank(top_rank(orders), (#[trigger] orders[i]).mod_rank) == top_rank(
                orders,
            ),
    decreases orders.len(),
{
    let rest = orders.drop_last();
    let last = orders.len() - 1;
    if rest.len() == 0 {
        assert(orders[last].mod_rank == top_rank(orders));
    } else {
        lemma_top_rank(rest);
        let w = choose|i: int| 0 <= i < rest.len() && (#[trigger] rest[i]).mod_rank == top_rank(rest);
        assert(rest[w] == orders[w]);
        if top_rank(orders) == top_rank(rest) {
            assert(orders[w].mod_rank == top_rank(orders));
        } else {
            assert(orders[last].mod_rank == top_rank(orders));
        }
        assert forall|i: int| 0 <= i < orders.len() implies higher_rank(
            top_rank(orders),
            (#[trigger] orders[i]).mod_rank,
        ) == top_rank(orders) by {
            if i < last {
                assert(rest[i] == orders[i]);
            }
        }
    }
}

/// Whether a listing is of a trader who is online and has the given rank.
pub open spec fn in_top_tier(order: OrderByItemView, top: Option<i64>) -> bool {
    order.user.status == "online"@ && order.mod_rank == top
}

/// The cell of an optional rank: null for none.
pub open spec fn rank_cell(rank: Option<i64>) -> CellView {
    match rank {
        Some(r) => CellView::I64(r),
        None => CellView::Null,
    }
}

/// The listings that compete for an item, as a table: of the listings of
/// the highest rank present, those of traders who are online, in their
/// order, with the columns `username`, `platinum`, `mod_rank` and
/// `order_type`. Without listings, the table without columns.
pub open spec fn competing_table(orders: Seq<OrderByItemView>) -> Seq<ColumnView> {
    if orders.len() == 0 {
        Seq::empty()
    } else {
        let rows = rows_where(|i: int| in_top_tier(orders[i], top_rank(orders)), orders.len());
        seq![
            ColumnView {
                name: "username"@,
                dtype: ColumnType::String,
                cells: Seq::new(rows.len(), |k: int| CellView::String(orders[rows[k]].user.ingame_name)),
            },
            ColumnView {
                name: "platinum"@,
                dtype: ColumnType::I64,
                cells: Seq::new(rows.len(), |k: int| CellView::I64(orders[rows[k]].platinum)),
            },
            ColumnView {
                name: "mod_rank"@,
                dtype: ColumnType::I64,
                cells: Seq::new(rows.len(), |k: int| rank_cell(orders[rows[k]].mod_rank)),
            },
            ColumnView {
                name: "order_type"@,
                dtype: ColumnType::String,
                cells: Seq::new(rows.len(), |k: int| CellView::String(orders[rows[k]].order_type)),
            },
        ]
    }
}

fn highest_rank(orders: &Vec<OrderByItem>) -> (r: Option<i64>)
    ensures
        r == top_rank(order_by_item_views(orders@)),
{
    let ghost views = order_by_item_views(orders@);
    let mut top: Option<i64> = None;
    let mut i: usize = 0;
    assert(views.take(0) =~= Seq::<OrderByItemView>::empty());
    while i < orders.len()
        invariant
            i <= orders.len(),
            views == order_by_item_views(orders@),
            top == top_rank(views.take(i as int)),
        decreases orders.len() - i,
    {
        proof {
            assert(views.take(i + 1).drop_last() =~= views.take(i as int));
            assert(views.take(i + 1).last() == views[i as int]);
        }
        let rank = orders[i].mod_rank;
        top = match (top, rank) {
            (Some(x), Some(y)) => if x < y {
                rank
            } else {
                top
            },
            (None, _) => rank,
            (_, None) => top,
        };
        i += 1;
    }
    assert(views.take(orders.len() as int) =~= views);
    top
}

/// The table of the listings that compete for an item.
pub fn competing_frame(orders: &Vec<OrderByItem>) -> (r: Table)
    ensures
        r@ == competing_table(order_by_item_views(orders@)),
{
    if orders.len() == 0 {
        return Table::empty();
    }
    let ghost views = order_by_item_views(orders@);
    let top = highest_rank(orders);
    let online = String::from_str("online");
    let ghost keep = |i: int| in_top_tier(views[i], top_rank(views));
    let mut usernames: Vec<String> = Vec::new();
    let mut platinums: Vec<i64> = Vec::new();
    let mut ranks: Vec<Option<i64>> = Vec::new();
    let mut order_types: Vec<String> = Vec::new();
    let ghost mut rows: Seq<int> = Seq::empty();
    let mut i: usize = 0;
    while i < orders.len()
        invariant
            i <= orders.len(),
            views == order_by_item_views(orders@),
            top == top_rank(views),
            online@ == "online"@,
            keep == (|i: int| in_top_tier(views[i], top_rank(views))),
            rows == rows_where(keep, i as nat),
            usernames@.len() == rows.len(),
            platinums@.len() == rows.len(),
            ranks@.len() == rows.len(),
            order_types@.len() == rows.len(),
            forall|k: int| 0 <= k < rows.len() ==> 0 <= #[trigger] rows[k] < i,
            forall|k: int| 0 <= k < rows.len() ==> (#[trigger] usernames@[k])@ == views[rows[k]].user.ingame_name,
            forall|k: int| 0 <= k < rows.len() ==> #[trigger] platinums@[k] == views[rows[k]].platinum,
            forall|k: int| 0 <= k < rows.len() ==> #[trigger] ranks@[k] == views[rows[k]].mod_rank,
            forall|k: int| 0 <= k < rows.len() ==> (#[trigger] order_types@[k])@ == views[rows[k]].order_type,
        decreases orders.len() - i,
    {
        let order = &orders[i];
        let same_rank = match (order.mod_rank, top) {
            (Some(x), Some(y)) => x == y,
            (None, None) => true,
            _ => false,
        };
        assert(keep(i as int) == (order.user.status@ == "online"@ && order.mod_rank == top));
        if order.user.status == online && same_rank {
            usernames.push(order.user.ingame_name.clone());
            platinums.push(order.platinum);
            ranks.push(order.mod_rank);
            order_types.push(order.order_type.clone());
            proof {
                rows = rows.push(i as int);
            }
        }
        i += 1;
    }
    let ghost target = competing_table(views);
    let c0 = Column::from_strings("username", usernames);
    let c1 = Column::from_i64s("platinum", platinums);
    let c2 = Column::from_optional_i64s("mod_rank", ranks);
    let c3 = Column::from_strings("order_type", order_types);
    proof {
        assert(c0@.cells =~= target[0].cells);
        assert(c1@.cells =~= target[1].cells);
        assert(c2@.cells =~= target[2].cells);
        assert(c3@.cells =~= target[3].cells);
        assert(c0@ == target[0]);
        assert(c1@ == target[1]);
        assert(c2@ == target[2]);
        assert(c3@ == target[3]);
    }
    let mut columns: Vec<Column> = Vec::new();
    columns.push(c0);
    columns.push(c1);
    columns.push(c2);
    columns.push(c3);
    proof {
        assert(column_views(columns@) =~= target);
        reveal_strlit("username");
        reveal_strlit("platinum");
        reveal_strlit("mod_rank");
        reveal_strlit("order_type");
        assert("username"@.len() == 8);
        assert("platinum"@.len() == 8);
        assert("mod_rank"@.len() == 8);
        assert("order_type"@.len() == 10);
        assert("username"@[0] != "platinum"@[0]);
        assert("username"@[0] != "mod_rank"@[0]);
        assert("platinum"@[0] != "mod_rank"@[0]);
        assert(names_distinct(target));
        assert(equal_heights(target));
    }
    match Table::new(columns) {
        Ok(table) => table,
        Err(_) => {
            assert(false);
            Table::empty()
        },
    }
}

/// The listings of a trader in the order in which they are searched: what
/// is sought first, then what is sold.
pub open spec fn searched(listed: OrdresView) -> Seq<OrderView> {
    listed.buy_orders + listed.sell_orders
}

/// Whether the listing at `i` is the first about the item.
pub open spec fn first_about(orders: Seq<OrderView>, item: Seq<char>, i: int) -> bool {
    &&& 0 <= i < orders.len()
    &&& orders[i].item.url_name == item
    &&& forall|k: int| 0 <= k < i ==> (#[trigger] orders[k]).item.url_name != item
}

/// Whether no listing is about the item.
pub open spec fn none_about(orders: Seq<OrderView>, item: Seq<char>) -> bool {
    forall|k: int| 0 <= k < orders.len() ==> (#[trigger] orders[k]).item.url_name != item
}

fn first_listing<'a>(orders: &'a Vec<Order>, item: &str) -> (r: Option<&'a Order>)
    ensures
        match r {
            Some(order) => exists|i: int|
                first_about(order_views(orders@), item@, i) && order@ == #[trigger] order_views(orders@)[i],
            None => none_about(order_views(orders@), item@),
        },
{
    let wanted = String::from_str(item);
    let ghost views = order_views(orders@);
    let mut i: usize = 0;
    while i < orders.len()
        invariant
            i <= orders.len(),
            wanted@ == item@,
            views == order_views(orders@),
            forall|k: int| 0 <= k < i ==> (#[trigger] views[k]).item.url_name != item@,
        decreases orders.len() - i,
    {
        if orders[i].item.url_name == wanted {
            assert(first_about(views, item@, i as int) && orders[i as int]@ == views[i as int]);
            return Some(&orders[i]);
        }
        i += 1;
    }
    None
}

impl WFMClientState {
    /// Ends the fetch of the trader's own listings as tables: one of what
    /// is sought and one of what is sold, in that order, each as
    /// [`orders_table`] says. Fails with the error of the fetch.
    pub fn get_ordres_data_frames(&self, fetched: Result<Ordres, GlobleError>) -> (r: Result<
        (Table, Table),
        GlobleError,
    >)
        ensures
            match fetched {
                Ok(listed) => r matches Ok(tables) && tables.0@ == orders_table(listed@.buy_orders) && tables.1@
                    == orders_table(listed@.sell_orders),
                Err(failure) => r matches Err(e) && e@ == failure@,
            },
    {
        match fetched {
            Ok(listed) => {
                let buy = orders_frame(&listed.buy_orders);
                let sell = orders_frame(&listed.sell_orders);
                Ok((buy, sell))
            },
            Err(failure) => Err(failure),
        }
    }

    /// The table of a single listing: the one row of [`orders_table`].
    pub fn convet_order_to_datafream(&self, order: Order) -> (r: Result<Table, GlobleError>)
        ensures
            r matches Ok(table) && table@ == orders_table(seq![order@]),
    {
        let mut orders: Vec<Order> = Vec::new();
        orders.push(order);
        assert(order_views(orders@) =~= seq![order@]);
        Ok(orders_frame(&orders))
    }

    /// Begins the fetch of the listings that compete for an item: `items/`,
    /// the item, `/orders`; the member `orders` is asked for.
    pub fn get_ordres_by_item_request(&self, item: &str) -> (r: (Exchange, Action))
        ensures
            self.begun(r, Method::Get, "items/"@ + item@ + "/orders"@, Some("orders"@), None),
    {
        let mut url = String::from_str("items/");
        url.append(item);
        url.append("/orders");
        self.get(url.as_str(), Some("orders"))
    }

    /// Ends the fetch of the listings that compete for an item. A fetch
    /// that failed, or a payload that is no list of listings, is logged and
    /// then counts as no listings at all; the operation never fails. The
    /// table is that of [`competing_table`].
    pub fn get_ordres_by_item(&self, item: &str, outcome: Result<Reply, GlobleError>) -> (r: Finished<Table>)
        ensures
            match outcome {
                Ok(reply) => match order_by_item_list_of_json(reply.payload@) {
                    Some(orders) => r.result matches Ok(table) && table@ == competing_table(orders) && r.log
                        is None,
                    None => {
                        &&& r.result matches Ok(table)
                        &&& table@ == Seq::<ColumnView>::empty()
                        &&& opt_log_view(r.log) == Some(
                            error_log(
                                "WarframeMarket:GetOrdresByItem"@,
                                "Item: "@ + item@ + ", Error: "@ + description(shape_fault(reply.payload@)),
                                Some(self.log_file()),
                            ),
                        )
                    },
                },
                Err(failure) => {
                    &&& r.result matches Ok(table)
                    &&& table@ == Seq::<ColumnView>::empty()
                    &&& opt_log_view(r.log) == Some(
                        error_log(
                            "WarframeMarket:GetOrdresByItem"@,
                            "Item: "@ + item@ + ", Error: "@ + description(failure@),
                            Some(self.log_file()),
                        ),
                    )
                },
            },
    {
        let decoded = match outcome {
            Ok(reply) => OrderByItem::list_from_json(&reply.payload),
            Err(failure) => Err(failure),
        };
        match decoded {
            Ok(orders) => Finished { result: Ok(competing_frame(&orders)), log: None },
            Err(e) => {
                let mut message = String::from_str("Item: ");
                message.append(item);
                message.append(", Error: ");
                message.append(e.describe().as_str());
                Finished {
                    result: Ok(Table::empty()),
                    log: Some(self.error("WarframeMarket:GetOrdresByItem", message, true)),
                }
            },
        }
    }

    /// Goes on with the closing of the listing about an item, once the
    /// trader's listings are known. The listing is the first about the
    /// item among what is sought and then what is sold, whatever its price
    /// or age. Its closing begins: a PUT of `profile/orders/close/` and its
    /// id, without a body; the member `order_id` is asked for. Where no
    /// listing is about the item, nothing begins.
    pub fn close_order_by_url_request(&self, item: &str, listed: &Ordres) -> (r: Option<
        (String, (Exchange, Action)),
    >)
        ensures
            match r {
                Some(found) => exists|i: int|
                    {
                        &&& first_about(searched(listed@), item@, i)
                        &&& found.0@ == (#[trigger] searched(listed@)[i]).id
                        &&& self.begun(
                            found.1,
                            Method::Put,
                            "profile/orders/close/"@ + found.0@,
                            Some("order_id"@),
                            None,
                        )
                    },
                None => none_about(searched(listed@), item@),
            },
    {
        let ghost all = searched(listed@);
        let ghost buy = order_views(listed.buy_orders@);
        let ghost sell = order_views(listed.sell_orders@);
        let order = match first_listing(&listed.buy_orders, item) {
            Some(order) => {
                proof {
                    let i = choose|i: int| first_about(buy, item@, i) && order@ == #[trigger] buy[i];
                    assert(first_about(all, item@, i) && order@ == all[i]) by {
                        assert forall|k: int| 0 <= k < i implies (#[trigger] all[k]).item.url_name != item@ by {
                            assert(all[k] == buy[k]);
                        }
                    }
                }
                order
            },
            None => match first_listing(&listed.sell_orders, item) {
                Some(order) => {
                    proof {
                        let i = choose|i: int| first_about(sell, item@, i) && order@ == #[trigger] sell[i];
                        let at = buy.len() + i;
                        assert(first_about(all, item@, at) && order@ == all[at]) by {
                            assert forall|k: int| 0 <= k < at implies (#[trigger] all[k]).item.url_name
                                != item@ by {
                                if k < buy.len() {
                                    assert(all[k] == buy[k]);
                                } else {
                                    assert(all[k] == sell[k - buy.len()]);
                                }
                            }
                        }
                    }
                    order
                },
                None => {
                    proof {
                        assert forall|k: int| 0 <= k < all.len() implies (#[trigger] all[k]).item.url_name
                            != item@ by {
                            if k < buy.len() {
                                assert(all[k] == buy[k]);
                            } else {
                                assert(all[k] == sell[k - buy.len()]);
                            }
                        }
                    }
                    return None;
                },
            },
        };
        let id = order.id.clone();
        let mut url = String::from_str("profile/orders/close/");
        url.append(id.as_str());
        let begun = self.put(url.as_str(), Some("order_id"), None);
        Some((id, begun))
    }

    /// Ends the closing of the listing about an item, and logs how it
    /// went. `closing` is absent where no listing was about the item: the
    /// operation then yields `No Order Found`, which is no error, and logs
    /// nothing. Else it holds the id of the listing and the outcome of the
    /// exchange: the operation yields the text of the payload, or `Order
    /// Successfully Closed` for a null payload. Fails with the error of the
    /// exchange; else with `SerdeError` if the payload is neither.
    pub fn close_order_by_url(&self, closing: Option<(String, Result<Reply, GlobleError>)>) -> (r: Finished<
        String,
    >)
        ensures
            match closing {
                None => r.result matches Ok(message) && message@ == "No Order Found"@ && r.log is None,
                Some((id, Ok(reply))) => match reply.payload@ {
                    JsonView::Text(confirmed) => {
                        &&& r.result matches Ok(message)
                        &&& message@ == confirmed
                        &&& opt_log_view(r.log) == Some(
                            info_log("WarframeMarket:CloseOrder"@, "Closed Order: "@ + id@, Some(self.log_file())),
                        )
                    },
                    JsonView::Null => {
                        &&& r.result matches Ok(message)
                        &&& message@ == "Order Successfully Closed"@
                        &&& opt_log_view(r.log) == Some(
                            info_log("WarframeMarket:CloseOrder"@, "Closed Order: "@ + id@, Some(self.log_file())),
                        )
                    },
                    _ => {
                        &&& r.result matches Err(e)
                        &&& e@ == shape_fault(reply.payload@)
                        &&& opt_log_view(r.log) == Some(
                            error_log(
                                "WarframeMarket:CloseOrder"@,
                                description(shape_fault(reply.payload@)),
                                Some(self.log_file()),
                            ),
                        )
                    },
                },
                Some((_, Err(failure))) => {
                    &&& r.result matches Err(e)
                    &&& e@ == failure@
                    &&& opt_log_view(r.log) == Some(
                        error_log("WarframeMarket:CloseOrder"@, description(failure@), Some(self.log_file())),
                    )
                },
            },
    {
        match closing {
            None => Finished { result: Ok(String::from_str("No Order Found")), log: None },
            Some((id, outcome)) => {
                let decoded = match outcome {
                    Ok(reply) => match &reply.payload {
                        Json::Text(confirmed) => Ok(confirmed.clone()),
                        Json::Null => Ok(String::from_str("Order Successfully Closed")),
                        _ => Err(decode_failure(&reply.payload)),
                    },
                    Err(failure) => Err(failure),
                };
                match decoded {
                    Ok(message) => {
                        let mut line = String::from_str("Closed Order: ");
                        line.append(id.as_str());
                        Finished {
                            result: Ok(message),
                            log: Some(self.info("WarframeMarket:CloseOrder", line, true)),
                        }
                    },
                    Err(e) => {
                        let line = e.describe();
                        Finished { result: Err(e), log: Some(self.error("WarframeMarket:CloseOrder", line, true)) }
                    },
                }
            },
        }
    }
}

} // verus!
