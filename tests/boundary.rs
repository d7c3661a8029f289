use carbonbond_rpc::codegen::{
    first_undeclared, render_client, render_client_types, render_server, TypeDecl,
};
use carbonbond_rpc::dispatch::{
    accept_args, begin, encode_outcome, finish, reject_request, to_response, Context, Step,
    STATUS_BAD_REQUEST, STATUS_OK,
};
use carbonbond_rpc::error::{Error, ErrorKey};
use carbonbond_rpc::login::{login, login_outcome, Credential};
use carbonbond_rpc::model::UserRelationKind;
use carbonbond_rpc::schema::{Operation, Schema, SchemaError, Shape};
use carbonbond_rpc::wire::{frame_tagged, parse_tagged, render_decimal};

fn op(name: &str, args: Vec<(&str, Shape)>, result: Shape, is_mutation: bool) -> Operation {
    Operation {
        name: name.to_string(),
        args: args.into_iter().map(|(n, s)| (n.to_string(), s)).collect(),
        result,
        is_mutation,
    }
}

fn forum_schema() -> Schema {
    let ops = vec![
        op("GetUser", vec![("id", Shape::Int64)], Shape::Named("User".to_string()), false),
        op(
            "Login",
            vec![("name", Shape::Text), ("password", Shape::Text)],
            Shape::Unit,
            true,
        ),
        op("GetBoard", vec![("id", Shape::Int64)], Shape::Named("Board".to_string()), false),
    ];
    match Schema::new(ops) {
        Ok(s) => s,
        Err(e) => panic!("schema refused: {:?}", e),
    }
}

#[test]
fn logic_error_keeps_message_and_key() {
    match Error::new_logic("bad password", 401) {
        Error::LogicError { msg, key } => {
            assert_eq!(msg, "bad password");
            assert_eq!(key, 401);
        }
        _ => panic!("expected a logic error"),
    }
}

#[test]
fn internal_errors_keep_their_cause() {
    match Error::new_internal("IO 錯誤", "disk on fire") {
        Error::InternalError { msg, source } => {
            assert_eq!(msg, "IO 錯誤");
            assert_eq!(source, Some("disk on fire".to_string()));
        }
        _ => panic!("expected an internal error"),
    }
    match Error::internal_without_source("oops") {
        Error::InternalError { msg, source } => {
            assert_eq!(msg, "oops");
            assert_eq!(source, None);
        }
        _ => panic!("expected an internal error"),
    }
}

#[test]
fn error_codes_and_wire_objects() {
    let e = Error::new_logic("bad password", 401);
    assert_eq!(e.code(), 401);
    assert_eq!(e.to_json(), "{\"code\":401,\"message\":\"bad password\"}");
    let i = Error::internal_without_source("whatever");
    assert_eq!(i.code(), 500);
    assert_eq!(i.to_json(), "{\"code\":500,\"message\":\"內部錯誤\"}");
}

#[test]
fn wire_message_is_escaped() {
    let e = Error::new_logic("say \"hi\"\n", -3);
    assert_eq!(e.to_json(), "{\"code\":-3,\"message\":\"say \\\"hi\\\"\\n\"}");
}

#[test]
fn internal_cause_is_redacted_but_logged() {
    let e = Error::new_internal("db down", "password=hunter2");
    let body = e.to_json();
    assert!(!body.contains("hunter2"));
    assert!(!body.contains("db down"));
    assert_eq!(body, Error::new_internal("other", "other cause").to_json());
    let line = e.log_line();
    assert!(line.contains("password=hunter2"));
    assert_eq!(line, "內部錯誤：db down，原始錯誤：password=hunter2");
    assert_eq!(
        Error::internal_without_source("x").log_line(),
        "內部錯誤：x，原始錯誤：無"
    );
    assert_eq!(Error::new_logic("m", 7).log_line(), "邏輯錯誤：m，錯誤種類：7");
}

#[test]
fn error_key_labels() {
    assert_eq!(ErrorKey::Internal.label(), "INTERNAL");
    assert_eq!(ErrorKey::Auth.label(), "AUTH");
}

#[test]
fn relation_kind_labels() {
    assert_eq!(UserRelationKind::Follow.label(), "follow");
    assert_eq!(UserRelationKind::Hate.label(), "hate");
    assert_eq!(UserRelationKind::OpenlyHate.label(), "openly_hate");
}

#[test]
fn decimal_rendering() {
    assert_eq!(render_decimal(0), "0");
    assert_eq!(render_decimal(7), "7");
    assert_eq!(render_decimal(-123), "-123");
    assert_eq!(render_decimal(i32::MAX), "2147483647");
    assert_eq!(render_decimal(i32::MIN), "-2147483648");
}

#[test]
fn framing_and_parsing() {
    let framed = frame_tagged("GetUser", "{\"id\":7}");
    assert_eq!(framed, "{\"GetUser\":{\"id\":7}}");
    assert_eq!(
        parse_tagged(&framed),
        Some(("GetUser".to_string(), "{\"id\":7}".to_string()))
    );
    assert_eq!(parse_tagged("{\"\":}"), Some((String::new(), String::new())));
    assert_eq!(parse_tagged("not json"), None);
    assert_eq!(parse_tagged("{\"GetUser\" {}}"), None);
    assert_eq!(parse_tagged("{\"Get\\\"User\":{}}"), None);
    assert_eq!(parse_tagged(""), None);
}

#[test]
fn tag_round_trip_for_every_operation() {
    let schema = forum_schema();
    for i in 0..schema.len() {
        let name = schema.operation(i).name.clone();
        let framed = frame_tagged(&name, "{\"a\":[1,2]}");
        assert_eq!(parse_tagged(&framed), Some((name, "{\"a\":[1,2]}".to_string())));
    }
}

#[test]
fn duplicate_operation_names_are_rejected() {
    let ops = vec![
        op("GetUser", vec![], Shape::Unit, false),
        op("Login", vec![], Shape::Unit, true),
        op("GetUser", vec![], Shape::Bool, false),
    ];
    assert_eq!(Schema::new(ops).err(), Some(SchemaError::DuplicateName(0, 2)));
}

#[test]
fn unrepresentable_names_are_rejected() {
    let ops = vec![op("Ok", vec![], Shape::Unit, false), op("", vec![], Shape::Unit, false)];
    assert_eq!(Schema::new(ops).err(), Some(SchemaError::UnrepresentableName(1)));
    let ops = vec![op("Bad\"Name", vec![], Shape::Unit, false)];
    assert_eq!(Schema::new(ops).err(), Some(SchemaError::UnrepresentableName(0)));
}

#[test]
fn operations_are_found_by_tag() {
    let schema = forum_schema();
    assert_eq!(schema.len(), 3);
    assert_eq!(schema.find("Login"), Some(1));
    assert_eq!(schema.find("GetBoard"), Some(2));
    assert_eq!(schema.find("getuser"), None);
}

#[test]
fn get_user_request_yields_ok_body() {
    let schema = forum_schema();
    let (op, args) = match begin(&schema, "{\"GetUser\":{\"id\":7}}") {
        Step::Invoke { op, args } => (op, args),
        Step::Reject(_) => panic!("request refused"),
    };
    assert_eq!(op, 0);
    assert_eq!(args, "{\"id\":7}");
    let user = "{\"id\":7,\"user_name\":\"a\",\"energy\":0}";
    let env = encode_outcome(Ok(user.to_string()));
    assert_eq!(env.body, "{\"Ok\":{\"id\":7,\"user_name\":\"a\",\"energy\":0}}");
    assert!(env.observed_error.is_none());
    let mut ctx = Context::new(vec![]);
    assert_eq!(finish(&mut ctx, Ok(user.to_string())), None);
    let reply = to_response(Ok(ctx.into_reply()));
    assert_eq!(reply.status, STATUS_OK);
    assert_eq!(reply.body, "{\"Ok\":{\"id\":7,\"user_name\":\"a\",\"energy\":0}}");
}

#[test]
fn failed_login_yields_err_body_and_observed_error() {
    let schema = forum_schema();
    match begin(&schema, "{\"Login\":{\"name\":\"a\",\"password\":\"wrong\"}}") {
        Step::Invoke { op, args } => {
            assert_eq!(op, 1);
            assert_eq!(args, "{\"name\":\"a\",\"password\":\"wrong\"}");
        }
        Step::Reject(_) => panic!("request refused"),
    }
    let env = encode_outcome(Err(Error::new_logic("bad password", 401)));
    assert_eq!(env.body, "{\"Err\":{\"code\":401,\"message\":\"bad password\"}}");
    assert!(env.observed_error.is_some());

    let mut ctx = Context::new(vec![]);
    let logged = finish(&mut ctx, Err(Error::new_logic("bad password", 401)));
    assert_eq!(ctx.resp_body, "{\"Err\":{\"code\":401,\"message\":\"bad password\"}}");
    assert_eq!(logged, Some("邏輯錯誤：bad password，錯誤種類：401".to_string()));
    let reply = to_response(Ok(ctx.into_reply()));
    assert_eq!(reply.status, STATUS_OK);
    assert_eq!(reply.body, "{\"Err\":{\"code\":401,\"message\":\"bad password\"}}");
}

#[test]
fn malformed_request_is_a_transport_error() {
    let schema = forum_schema();
    let mut handler_calls: u32 = 0;
    for request in ["{\"GetUser\" 7", "{\"Unknown\":{}}", "[1,2]", ""] {
        match begin(&schema, request) {
            Step::Invoke { .. } => handler_calls += 1,
            Step::Reject(reply) => {
                assert_eq!(reply.status, STATUS_BAD_REQUEST);
                assert_eq!(reply.body, "{\"code\":400,\"message\":\"無法解析請求\"}");
            }
        }
    }
    assert_eq!(handler_calls, 0);
}

#[test]
fn transport_error_reply_carries_the_error_object() {
    let reply = to_response(Err(Error::new_internal("x", "secret cause")));
    assert_eq!(reply.status, STATUS_BAD_REQUEST);
    assert_eq!(reply.body, "{\"code\":500,\"message\":\"內部錯誤\"}");
}

#[test]
fn concurrent_requests_keep_separate_contexts() {
    let mut first = Context::new(vec![("cookie".to_string(), "a=1".to_string())]);
    let mut second = Context::new(vec![]);
    first.set_header("set-cookie".to_string(), "token=abc".to_string());
    let l1 = finish(&mut second, Ok("{\"id\":3}".to_string()));
    let l2 = finish(&mut first, Err(Error::new_logic("no", 403)));
    assert_eq!(l1, None);
    assert!(l2.is_some());
    assert_eq!(second.resp_body, "{\"Ok\":{\"id\":3}}");
    assert!(second.resp_headers.is_empty());
    assert!(second.headers.is_empty());
    assert_eq!(first.resp_body, "{\"Err\":{\"code\":403,\"message\":\"no\"}}");
    assert_eq!(first.resp_headers, vec![("set-cookie".to_string(), "token=abc".to_string())]);
    assert_eq!(first.headers.len(), 1);
}

#[test]
fn server_trait_rendering() {
    let ops = vec![
        op("GetUser", vec![("id", Shape::Int64)], Shape::Named("User".to_string()), false),
        op(
            "Search",
            vec![
                ("words", Shape::List(Box::new(Shape::Text))),
                ("board", Shape::Optional(Box::new(Shape::Int32))),
            ],
            Shape::List(Box::new(Shape::Bool)),
            false,
        ),
        op("Ping", vec![], Shape::Unit, false),
    ];
    let schema = Schema::new(ops).ok().unwrap();
    let text = render_server(&schema, "&crate::Ctx", "crate::custom_error::Error");
    let arm = |name: &str, pattern: &str, call: &str| {
        format!(
            "            RootQuery::{} {{{} }} => {{\n                let resp = self.{}(ctx{}).await;\n                let body = serde_json::to_string(&resp)?;\n                Ok((body, resp.err()))\n            }}\n",
            name, pattern, name, call
        )
    };
    let expected = format!(
        "#[derive(Serialize, Deserialize, Debug, Clone)]\npub enum RootQuery {{\n\
         \x20   GetUser {{ id: i64, }},\n\
         \x20   Search {{ words: Vec<String>, board: Option<i32>, }},\n\
         \x20   Ping {{ }},\n\
         }}\n\
         #[async_trait]\npub trait RootQueryRouter {{\n\
         \x20   async fn GetUser(&self, ctx: &crate::Ctx, id: i64) -> Result<User, crate::custom_error::Error>;\n\
         \x20   async fn Search(&self, ctx: &crate::Ctx, words: Vec<String>, board: Option<i32>) -> Result<Vec<bool>, crate::custom_error::Error>;\n\
         \x20   async fn Ping(&self, ctx: &crate::Ctx) -> Result<(), crate::custom_error::Error>;\n\
         \x20   async fn handle(&self, ctx: &crate::Ctx, query: RootQuery) -> Result<(String, Option<crate::custom_error::Error>), serde_json::Error> {{\n\
         \x20       match query {{\n{}{}{}        }}\n    }}\n}}\n",
        arm("GetUser", " id,", ", id"),
        arm("Search", " words, board,", ", words, board"),
        arm("Ping", "", ""),
    );
    assert_eq!(text, expected);
}

#[test]
fn client_rendering() {
    let ops = vec![op(
        "Search",
        vec![
            ("words", Shape::List(Box::new(Shape::Text))),
            ("board", Shape::Optional(Box::new(Shape::Int64))),
        ],
        Shape::Named("BoardName".to_string()),
        false,
    )];
    let schema = Schema::new(ops).ok().unwrap();
    let text = render_client(&schema, "any");
    assert_eq!(
        text,
        "export type Option<T> = T | undefined | null;\n\
         export type Result<T, E> = {\n    'Ok': T\n} | {\n    'Err': E\n};\n\
         export async function call<T, E>(query: object): Promise<Result<T, E>> {\n\
         \x20   const resp = await fetch('/api', { method: 'POST', body: JSON.stringify(query) });\n\
         \x20   return resp.json();\n}\n\
         export type SearchArgs = {\n    words: Array<string>,\n    board: Option<number>,\n};\n\
         export function Search(words: Array<string>, board: Option<number>, ): Promise<Result<BoardName, any>> {\n\
         \x20   return call({ \"Search\": { words, board, } });\n}\n"
    );
}

#[test]
fn login_outcomes() {
    match login_outcome(false, None) {
        Err(Error::LogicError { msg, key }) => {
            assert_eq!(msg, "找不到 ID");
            assert_eq!(key, 401);
        }
        _ => panic!("expected a logic error"),
    }
    assert!(login_outcome(true, Some(true)).is_ok());
    match login_outcome(true, Some(false)) {
        Err(Error::LogicError { msg, key }) => {
            assert_eq!(msg, "密碼錯誤");
            assert_eq!(key, 401);
        }
        _ => panic!("expected a logic error"),
    }
    assert!(matches!(
        login_outcome(true, None),
        Err(Error::InternalError { source: None, .. })
    ));
}

#[test]
fn login_checks_the_stored_hash() {
    let salt = b"somesalt-0123".to_vec();
    let hash = argon2::hash_raw(b"correct horse", &salt, &argon2::Config::original()).unwrap();
    let cred = Credential { salt, password_hashed: hash };
    assert!(login(Some(&cred), "correct horse").is_ok());
    match login(Some(&cred), "wrong") {
        Err(Error::LogicError { msg, key }) => {
            assert_eq!(msg, "密碼錯誤");
            assert_eq!(key, 401);
        }
        _ => panic!("expected a wrong password"),
    }
    assert!(matches!(login(None, "x"), Err(Error::LogicError { key: 401, .. })));
    let short = Credential { salt: b"ab".to_vec(), password_hashed: vec![0; 32] };
    assert!(matches!(login(Some(&short), "x"), Err(Error::InternalError { .. })));
}

fn model_decls() -> Vec<TypeDecl> {
    vec![
        TypeDecl::Record {
            name: "BoardName".to_string(),
            fields: vec![
                ("id".to_string(), Shape::Int64),
                ("board_name".to_string(), Shape::Text),
                ("ruling".to_string(), Shape::Optional(Box::new(Shape::Bool))),
            ],
        },
        TypeDecl::Enumeration {
            name: "UserRelationKind".to_string(),
            variants: vec!["Follow".to_string(), "Hate".to_string(), "OpenlyHate".to_string()],
        },
        TypeDecl::Enumeration { name: "Nothing".to_string(), variants: vec![] },
    ]
}

#[test]
fn client_type_declarations() {
    assert_eq!(
        render_client_types(&model_decls()),
        "export type BoardName = {\n    id: number,\n    board_name: string,\n    ruling: Option<boolean>,\n};\n\
         export type UserRelationKind = never | \"Follow\" | \"Hate\" | \"OpenlyHate\";\n\
         export type Nothing = never;\n"
    );
    assert_eq!(render_client_types(&vec![]), "");
}

#[test]
fn undeclared_types_are_found_before_rendering() {
    let ok = Schema::new(vec![
        op("Names", vec![("kind", Shape::Named("UserRelationKind".to_string()))],
            Shape::List(Box::new(Shape::Named("BoardName".to_string()))), false),
        op("Ping", vec![], Shape::Unit, false),
    ])
    .ok()
    .unwrap();
    assert_eq!(first_undeclared(&ok, &model_decls()), None);
    let bad = Schema::new(vec![
        op("Ping", vec![], Shape::Unit, false),
        op("GetUser", vec![("id", Shape::Int64)], Shape::Named("User".to_string()), false),
        op("Find", vec![("q", Shape::Optional(Box::new(Shape::Named("Query".to_string()))))],
            Shape::Unit, false),
    ])
    .ok()
    .unwrap();
    assert_eq!(first_undeclared(&bad, &model_decls()), Some(1));
}

#[test]
fn malformed_argument_record_is_rejected_before_the_handler() {
    let schema = forum_schema();
    let args = match begin(&schema, "{\"GetUser\":xx}") {
        Step::Invoke { op, args } => {
            assert_eq!(op, 0);
            args
        }
        Step::Reject(_) => panic!("the tag is known"),
    };
    let decoded = args.starts_with('{');
    let reply = accept_args(decoded).expect("a rejection");
    assert_eq!(reply.status, STATUS_BAD_REQUEST);
    assert!(reply.headers.is_empty());
    assert_eq!(reply.body, "{\"code\":400,\"message\":\"無法解析請求\"}");
    assert!(accept_args(true).is_none());
    assert_eq!(reject_request().body, reply.body);
}

#[test]
fn handler_status_and_headers_reach_the_reply() {
    let mut ctx = Context::new(vec![]);
    ctx.set_header("set-cookie".to_string(), "token=abc".to_string());
    ctx.set_status(201);
    finish(&mut ctx, Ok("1".to_string()));
    let reply = to_response(Ok(ctx.into_reply()));
    assert_eq!(reply.status, 201);
    assert_eq!(reply.headers, vec![("set-cookie".to_string(), "token=abc".to_string())]);
    assert_eq!(reply.body, "{\"Ok\":1}");
}

#[test]
fn control_characters_are_escaped_in_hex() {
    let e = Error::new_logic("a\u{1}b\u{1f}\\/\t", 1);
    assert_eq!(e.to_json(), "{\"code\":1,\"message\":\"a\\u0001b\\u001f\\\\/\\t\"}");
}

#[test]
fn requests_may_carry_json_whitespace() {
    assert_eq!(
        parse_tagged(" {\n \"GetUser\" :{\"id\":7} }\r\n"),
        Some(("GetUser".to_string(), "{\"id\":7} ".to_string()))
    );
    assert_eq!(parse_tagged("  \t "), None);
    assert_eq!(parse_tagged("{ } "), None);
    assert_eq!(parse_tagged("{\"A\" x:1}"), None);
    let schema = forum_schema();
    match begin(&schema, "{ \"Login\": {\"name\":\"a\",\"password\":\"b\"}}\n") {
        Step::Invoke { op, args } => {
            assert_eq!(op, 1);
            assert_eq!(args, " {\"name\":\"a\",\"password\":\"b\"}");
        }
        Step::Reject(_) => panic!("a request with whitespace was refused"),
    }
}
