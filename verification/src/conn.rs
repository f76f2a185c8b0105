use vstd::prelude::*;
use crate::dispatch::{
    build_error_response, build_result_response, error_reply_matches, ok_result,
};
use crate::json::{any_field, lookup, str_field, u64_field, Json};

verus! {

// ---------------------------------------------------------------------------
// The per-connection protocol state machine. A connection starts
// unauthenticated unless the daemon runs without a token; until it
// authenticates, only the "auth" method is heard. Authentication is
// terminal: there is no logout.
// ---------------------------------------------------------------------------

/// What one inbound envelope asks the connection loop to do.
pub enum LineAction {
    /// Queue this reply, if any, and go on reading.
    Reply(Option<Json>),
    /// Authentication just succeeded: queue the reply, if any, and open
    /// this connection's event subscription now.
    AuthOk(Option<Json>),
    /// Route the request and reply with what comes back.
    Dispatch { id: Option<u64>, method: String, params: Json },
}

/// The id an envelope carries, if any.
pub open spec fn envelope_id(msg: Json) -> Option<u64> {
    u64_field(msg, "id"@)
}

/// The method an envelope names; anything unreadable reads as the empty
/// name, which no table routes.
pub open spec fn envelope_method(msg: Json) -> Seq<char> {
    match str_field(msg, "method"@) {
        Some(s) => s,
        None => ""@,
    }
}

/// The parameters an envelope carries; absent ones read as null.
pub open spec fn envelope_params(msg: Json) -> Json {
    match any_field(msg, "params"@) {
        Some(j) => j,
        None => Json::Null,
    }
}

/// The token an auth request offers: a bare string, or the `token`
/// field of an object.
pub open spec fn auth_token_of(params: Json) -> Option<Seq<char>> {
    match params {
        Json::Str(s) => Some(s@),
        Json::Obj(f) => match lookup(f@, "token"@) {
            Some(Json::Str(s)) => Some(s@),
            _ => None,
        },
        _ => None,
    }
}

/// What the daemon compares against: its configured token, or nothing.
pub open spec fn expected_token(token: Option<String>) -> Seq<char> {
    match token {
        Option::Some(t) => t@,
        Option::None => ""@,
    }
}

/// What the client offered, with silence reading as nothing.
pub open spec fn offered_token(params: Json) -> Seq<char> {
    match auth_token_of(params) {
        Some(s) => s,
        None => ""@,
    }
}

/// One connection's protocol state.
pub struct Connection {
    pub authenticated: bool,
}

impl Connection {
    /// A fresh connection: it starts authenticated exactly when the
    /// daemon runs without a configured token.
    pub fn new(has_token: bool) -> (r: Connection)
        ensures
            r.authenticated == !has_token,
    {
        Connection { authenticated: !has_token }
    }

    /// Reads the `token` field of an auth request's parameters.
    fn parse_auth_token(params: &Json) -> (r: Option<String>)
        ensures
            match r {
                Some(s) => auth_token_of(*params) == Some(s@),
                None => auth_token_of(*params) is None,
            },
    {
        match params {
            Json::Str(s) => Some(s.clone()),
            Json::Obj(f) => match crate::json::obj_get(f, "token") {
                Option::Some(Json::Str(s)) => Some(s.clone()),
                _ => None,
            },
            _ => None,
        }
    }

    /// Handles one decoded envelope. Before authentication, any method
    /// but "auth" is refused as unauthorized; a wrong token is refused
    /// as invalid and the connection may retry; the right token makes
    /// the connection authenticated for good and opens its event
    /// subscription. After authentication every envelope is dispatched.
    pub fn handle_envelope(&mut self, token: &Option<String>, msg: Json) -> (r: LineAction)
        ensures
            final(self).authenticated == (old(self).authenticated || (envelope_method(msg)
                == "auth"@ && offered_token(envelope_params(msg)) == expected_token(*token))),
            old(self).authenticated ==> (r matches LineAction::Dispatch { id, method, params } && {
                &&& id == envelope_id(msg)
                &&& method@ == envelope_method(msg)
                &&& params == envelope_params(msg)
            }),
            !old(self).authenticated && envelope_method(msg) != "auth"@ ==> (r matches
                LineAction::Reply(resp) && error_reply_matches(
                resp,
                envelope_id(msg),
                "unauthorized"@,
            )),
            !old(self).authenticated && envelope_method(msg) == "auth"@ && offered_token(
                envelope_params(msg),
            ) != expected_token(*token) ==> (r matches LineAction::Reply(resp)
                && error_reply_matches(resp, envelope_id(msg), "invalid token"@)),
            !old(self).authenticated && envelope_method(msg) == "auth"@ && offered_token(
                envelope_params(msg),
            ) == expected_token(*token) ==> (r matches LineAction::AuthOk(resp)
                && crate::dispatch::ok_reply_matches(resp, envelope_id(msg))),
    {
        proof {
            reveal_strlit("");
            assert(""@ =~= Seq::<char>::empty());
        }
        let id = crate::dispatch::parse_optional_u64(&msg, "id");
        let method = match crate::dispatch::parse_optional_string(&msg, "method") {
            Option::Some(m) => m,
            Option::None => String::new(),
        };
        let params = match msg {
            Json::Obj(fields) => match crate::dispatch::take_field(fields, "params") {
                Option::Some(p) => p,
                Option::None => Json::Null,
            },
            _ => Json::Null,
        };
        if self.authenticated {
            return LineAction::Dispatch { id, method, params };
        }
        if !crate::strutil::str_eq(method.as_str(), "auth") {
            return LineAction::Reply(build_error_response(id, "unauthorized"));
        }
        let expected = match token {
            Option::Some(t) => t.clone(),
            Option::None => String::new(),
        };
        let provided = match Self::parse_auth_token(&params) {
            Option::Some(p) => p,
            Option::None => String::new(),
        };
        if !crate::strutil::str_eq(expected.as_str(), provided.as_str()) {
            return LineAction::Reply(build_error_response(id, "invalid token"));
        }
        self.authenticated = true;
        LineAction::AuthOk(build_result_response(id, ok_result()))
    }
}

} // verus!
