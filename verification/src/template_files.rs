//! The template of a generated project. Each file is kept as its text and
//! handed out as `(relative path, base64 content)`, the form the rendering
//! pipeline decodes.

use vstd::prelude::*;
use crate::base64::{b64_encoded, base64_encode, lemma_base64_roundtrip};
use crate::project::template_text;

verus! {

/// Text of `src/common/utils.rs`.
pub const TEMPLATE_SRC_COMMON_UTILS_RS: &'static str = "#![allow(dead_code)]\nuse chrono::{Datelike, Duration, Utc};\nuse nanoid::nanoid;\nuse std::env;\nuse std::sync::LazyLock;\n\n// ---------------------------------------------------------------------------\n// Environment variables (LazyLock statics)\n// ---------------------------------------------------------------------------\n\n// static API_KEY: LazyLock<String> = LazyLock::new(|| {\n//     env::var(\"API_KEY\").expect(\"API_KEY environment variable must be set\")\n// });\n\npub static TABLENAME: LazyLock<String> =\n    LazyLock::new(|| env::var(\"TABLE_NAME\").unwrap_or_else(|_| \"ici-users\".to_string()));\n\npub static SITE: LazyLock<String> =\n    LazyLock::new(|| env::var(\"SITE\").unwrap_or_else(|_| \"ICI\".to_string()));\n\npub static DOMAIN: LazyLock<String> =\n    LazyLock::new(|| env::var(\"DOMAIN\").unwrap_or_else(|_| \"dev.intercci.com\".to_string()));\n\npub static COOKIE_DOMAIN: LazyLock<Option<String>> =\n    LazyLock::new(|| env::var(\"COOKIE_DOMAIN\").ok());\n\npub static FROM: LazyLock<String> =\n    LazyLock::new(|| env::var(\"FROM\").unwrap_or_else(|_| \"admin@intercci.com\".to_string()));\n\npub static RESET_TEMPLATE: LazyLock<String> = LazyLock::new(|| {\n    env::var(\"RESET_TEMPLATE\").unwrap_or_else(|_| \"ResetTemplateDev\".to_string())\n});\n\npub static IMAGE_BUCKET: LazyLock<String> =\n    LazyLock::new(|| env::var(\"IMAGE_BUCKET\").unwrap_or_else(|_| \"images\".to_string()));\n\npub static IMAGE_FOLDER: LazyLock<String> =\n    LazyLock::new(|| env::var(\"IMAGE_FOLDER\").unwrap_or_else(|_| \"modules/images/\".to_string()));\n\npub static DEFAULT_HOST_EMAIL: LazyLock<String> =\n    LazyLock::new(|| env::var(\"HOST_EMAIL\").unwrap_or_else(|_| \"admin@intercci.com\".to_string()));\n\npub const MODULE_INDEX: &'static str = \"GSI1Index\";\n\n// ---------------------------------------------------------------------------\n// Timestamp helpers\n// ---------------------------------------------------------------------------\n\n/// Return a timestamp in seconds.\npub fn timestamp_secs() -> i64 {\n    Utc::now().timestamp()\n}\n\n/// Return a timestamp in milliseconds.\npub fn timestamp_millis() -> i64 {\n    Utc::now().timestamp_millis()\n}\n\npub fn timextamp_short() -> String {\n    format!(\"{:x}\", Utc::now().timestamp())\n}\n\npub fn timextamp_long() -> String {\n    format!(\"{:x}\", Utc::now().timestamp_millis())\n}\n\n// ---------------------------------------------------------------------------\n// DynamoDB key helpers\n// ---------------------------------------------------------------------------\n\npub fn gen_pk(prefix: &str) -> String {\n    format!(\"{prefix}#{}\", timextamp_short())\n}\n\n/// Make a pk string in the pattern `<prefix>#<id>`.\npub fn make_pk(prefix: &str, id: &str) -> String {\n    format!(\"{}#{}\", prefix, id)\n}\n\n/// Extract the id portion after `#` from a pk string.\n///\n/// If the input contains no `#`, it is returned as-is.\n///\n/// # Example\n/// ```\n/// assert_eq!(extract_id(\"User#1234\"), \"1234\");\n/// assert_eq!(extract_id(\"a123\"), \"a123\");\n/// ```\npub fn extract_id(pk_or_id: &str) -> String {\n    match pk_or_id.split_once('#') {\n        Some((_, id)) => id.to_string(),\n        None => pk_or_id.to_string(),\n    }\n}\n\n// ---------------------------------------------------------------------------\n// ID generation\n// ---------------------------------------------------------------------------\n\n/// Generate a nano-id with `n` characters.\n///\n/// # Example\n/// ```\n/// let sid = gen_nanoid(5);\n/// assert_eq!(sid.len(), 5);\n/// ```\npub fn gen_nanoid(n: usize) -> String {\n    nanoid!(n)\n}\n\n// ---------------------------------------------------------------------------\n// Date / expiry helpers\n// ---------------------------------------------------------------------------\n\npub fn expires_in(hours: i64) -> i64 {\n    (Utc::now() + Duration::hours(hours)).timestamp()\n}\n\npub fn this_year() -> String {\n    Utc::now().year().to_string()\n}\n";

/// Text of `src/handlers/users.rs`.
pub const TEMPLATE_SRC_HANDLERS_USERS_RS: &'static str = "#![allow(dead_code)]\nuse crate::models::user::User;\nuse anyhow::Result;\nuse iciaws_dynamo::DynamoClient;\nuse iciaws_router::{\n    addons::AddonHolder,\n    errors::bad_request_error,\n    input::RouteHandlerInput,\n    output::{\n        get_failed, get_ok, item_created, item_deleted, item_updated, query_ok, query_page_ok,\n        RouteHandlerOutput,\n    },\n    types::RouteHandler,\n};\nuse iciaws_macros::route;\nuse tracing::instrument;\nuse std::pin::Pin;\nuse std::future::Future;\n\n#[instrument(skip(addons))]\n#[route(\"GET/users\")]\npub async fn query_users(\n    input: RouteHandlerInput,\n    addons: &AddonHolder,\n) -> Result<RouteHandlerOutput> {\n    let last: Option<String> = input.get_query_value(\"last\").ok();\n\n    let dynamo = addons.get::<&DynamoClient>(\"dynamo\")?;\n    let rs = User::query_users(dynamo, last).await;\n    match rs {\n        Ok((users, last)) => query_page_ok(\"users\", users, last),\n        Err(_) => query_ok(\"users\", vec![] as Vec<User>),\n    }\n}\n\n#[instrument(skip(addons))]\n#[route(\"GET/users/{uid}\")]\npub async fn get_user(\n    input: RouteHandlerInput,\n    addons: &AddonHolder,\n) -> Result<RouteHandlerOutput> {\n    let uid = input.get_path_value(\"uid\")?;\n    // let me = input.get_claim(\"uid\")?; // me == uid or me is host or admin\n    let dynamo = addons.get::<&DynamoClient>(\"dynamo\")?;\n    let usr = User::get_user(dynamo, &uid).await;\n    match usr {\n        Ok(user) => get_ok(\"user\", user),\n        Err(_) => get_failed(\"user\"),\n    }\n}\n\n#[instrument(skip(addons))]\n#[route(\"POST/users\")]\npub async fn create_user(\n    input: RouteHandlerInput,\n    addons: &AddonHolder,\n) -> Result<RouteHandlerOutput> {\n    let dynamo = addons.get::<&DynamoClient>(\"dynamo\")?;\n    let body = input.body.ok_or_else(|| bad_request_error(\"request body required\"))?;\n    let uid = User::create_user(dynamo, body).await?;\n    item_created(\"user\", \"uid\", &uid)\n}\n\n#[instrument(skip(addons))]\n#[route(\"PUT/users/{uid}\")]\npub async fn update_user(\n    input: RouteHandlerInput,\n    addons: &AddonHolder,\n) -> Result<RouteHandlerOutput> {\n    let uid = input.get_path_value(\"uid\")?;\n    let dynamo = addons.get::<&DynamoClient>(\"dynamo\")?;\n    let body = input.body.ok_or_else(|| bad_request_error(\"request body required\"))?;\n    let fields = [\"name\", \"given_name\", \"family_name\", \"title\", \"role\"];\n    User::update_user(dynamo, &uid, body, &fields).await?;\n    item_updated(\"user\")\n}\n\n#[instrument(skip(addons))]\n#[route(\"DELETE/users/{uid}\")]\npub async fn delete_user(\n    input: RouteHandlerInput,\n    addons: &AddonHolder,\n) -> Result<RouteHandlerOutput> {\n    let uid = input.get_path_value(\"uid\")?;\n    let dynamo = addons.get::<&DynamoClient>(\"dynamo\")?;\n    let _ = User::delete_user(dynamo, &uid).await?;\n    item_deleted(\"user\")\n}\n";

/// Text of `src/handlers/versions.rs`.
pub const TEMPLATE_SRC_HANDLERS_VERSIONS_RS: &'static str = "use anyhow::Result;\nuse http::StatusCode;\nuse iciaws_router::{\n    addons::AddonHolder,\n    input::RouteHandlerInput,\n    output::RouteHandlerOutput,\n    types::RouteHandler,\n};\nuse iciaws_macros::route;\nuse std::pin::Pin;\nuse std::future::Future;\n\nconst VERSION: &str = \"0.0.1\"; // this can be incremented using the tool upver upon deployment\n\n/// Handle `GET /version` — returns service name and version.\n#[route(\"GET/version\")]\npub async fn get_version(\n    _input: RouteHandlerInput,\n    _addons: &AddonHolder,\n) -> Result<RouteHandlerOutput> {\n    Ok(RouteHandlerOutput::message_output(StatusCode::OK, VERSION))\n}\n";

/// Text of `src/main.rs`.
pub const TEMPLATE_SRC_MAIN_RS: &'static str = "use iciaws_router::{addons::AddonHolder, router::Router};\nuse lambda_http::{Body, Error, Request, Response, run, service_fn, tracing};\nmod common;\nmod handlers;\nmod models;\nmod routes;\nuse common::utils::TABLENAME;\nuse iciaws_dynamo::get_dynamo_client;\nuse routes::add_routes;\nuse iciaws_s3::get_s3_client;\nuse iciaws_ses::get_ses_client;\nuse iciaws_sns::get_sns_client;\n\nasync fn function_handler(event: Request, router: &Router) -> Result<Response<Body>, Error> {\n    let resp: Response<Body> = router.route(event).await.try_into()?;\n    tracing::info!(\" <---- function_handler returns: {resp:?}\");\n    Ok(resp)\n}\n\n#[tokio::main]\nasync fn main() -> Result<(), Error> {\n    tracing::init_default_subscriber();\n\n    let addon_map = AddonHolder::new();\n    addon_map.put_addon(\"dynamo\", get_dynamo_client(Some(TABLENAME.clone())).await);\n    addon_map.put_addon(\"s3\", get_s3_client().await);\n    addon_map.put_addon(\"ses\", get_ses_client().await);\n    addon_map.put_addon(\"sns\", get_sns_client().await);\n\n    let mut router = Router::new(addon_map);\n    add_routes(&mut router);\n\n    // Borrow router so the move closure below can share it across invocations.\n    let router = &router;\n\n    run(service_fn(move |event| async move {\n        function_handler(event, router).await\n    }))\n    .await\n}\n\n#[cfg(test)]\nmod tests {\n    use super::*;\n    use http::Request;\n    use lambda_http::{Body, RequestExt};\n\n    fn test_router() -> Router {\n        let mut router = Router::new(AddonHolder::new());\n        add_routes(&mut router);\n        router\n    }\n\n    async fn route_get(router: &Router, path: &str) -> Response<Body> {\n        let request = Request::builder()\n            .uri(path)\n            .method(http::Method::GET)\n            .body(Body::Empty)\n            .unwrap()\n            .with_raw_http_path(path);\n        router.route(request).await.try_into().unwrap()\n    }\n\n    #[tokio::test]\n    async fn test_version_endpoint_returns_200() {\n        let router = test_router();\n        let response = route_get(&router, \"/version\").await;\n\n        assert_eq!(response.status(), 200);\n        let body = String::from_utf8(response.body().to_vec()).unwrap();\n        assert!(body.contains(\"version\"), \"response body: {body}\");\n        assert!(body.contains(\"Running\"), \"response body: {body}\");\n    }\n}\n";

/// Text of `src/models/user.rs`.
pub const TEMPLATE_SRC_MODELS_USER_RS: &'static str = "#![allow(dead_code)]\nuse iciaws_router::types::DefaultKeys;\nuse iciaws_router::errors::{not_found_error, bad_request_error};\nuse crate::common::utils::{gen_pk};\nuse anyhow::Result;\nuse iciaws_dynamo::DynamoClient;\nuse iciaws_dynamo::builder::Updates;\nuse iciaws_dynamo::pagekey::last_evaluated_key_to_base64;\nuse chrono::{DateTime, Utc};\nuse aws_sdk_dynamodb::types::AttributeValue;\nuse iciaws_macros::TransDynamo;\nuse serde::{Deserialize, Serialize};\nuse serde_dynamo;\nuse serde_json;\nuse std::collections::HashMap;\n\n#[derive(Debug, Serialize, Deserialize, TransDynamo)]\npub struct User {\n    pub pk: Option<String>,\n    pub sk: Option<String>,\n    pub email: String,\n    pub name: String,\n    //pub pwd: Option<String>, // not neccessary if using SSO\n    pub role: String,\n    //pub pwd: Option<String>, // not neccessary if using SSO\n    #[serde(skip_serializing_if = \"Option::is_none\")]\n    pub given_name: Option<String>,\n    #[serde(skip_serializing_if = \"Option::is_none\")]\n    pub family_name: Option<String>,\n    #[serde(skip_serializing_if = \"Option::is_none\")]\n    pub picture: Option<String>,\n    #[serde(skip_serializing_if = \"Option::is_none\")]\n    pub status: Option<String>,\n    #[serde(skip_serializing_if = \"Option::is_none\")]\n    pub created: Option<DateTime<Utc>>,\n}\n\nimpl DefaultKeys for User {\n    fn set_default_keys(&mut self, from_map: &serde_json::Value) -> Result<()> {\n        self.pk = Some(\n            from_map\n                .get(\"uid\")\n                .and_then(serde_json::Value::as_str)\n                .map_or_else(|| gen_pk(\"User\"), |uid| format!(\"User#{uid}\")),\n        );\n        self.sk = Some(\"#\".to_string());\n        Ok(())\n    }\n}\n\nimpl User {\n    pub fn makepk(uid: Option<&str>) -> String {\n        uid.map_or(\"User\".to_string(), |u| format!(\"User#{u}\"))\n    }\n\n    pub fn makesk(uid: Option<&str>) -> String {\n        uid.map_or(\"#\".to_string(), |u| format!(\"#{u}\"))\n    }\n\n    pub fn uid(&self) -> String {\n        self.pk\n            .as_deref()\n            .and_then(|pk| pk.strip_prefix(\"User#\"))\n            .or_else(|| self.sk.as_deref().and_then(|sk| sk.strip_prefix('#')))\n            .unwrap_or_default()\n            .to_owned()\n    }\n\n    pub fn iam(&self, role: &str) -> bool {\n        self.role == role\n    }\n\n    fn user_scan_params() -> (&'static str, HashMap<String, String>, HashMap<String, AttributeValue>) {\n        let ean = HashMap::from([(\"#pk\".to_string(), \"pk\".to_string())]);\n        let eav = HashMap::from([(\":pkv\".to_string(), AttributeValue::S(\"User#\".to_string()))]);\n        (\"begins_with(#pk, :pkv)\", ean, eav)\n    }\n\n    pub async fn query_users(\n        dynamo: &DynamoClient,\n        last_key_str: Option<String>,\n    ) -> Result<(Vec<User>, Option<String>)> {\n        let (filter, ean, eav) = Self::user_scan_params();\n        let qo = dynamo.scan_with_filter2(filter, ean, eav, last_key_str, None).await?;\n        let last = qo.last_evaluated_key.and_then(|v| last_evaluated_key_to_base64(v).ok());\n        qo.items.map_or_else(\n            || Err(not_found_error(\"users\").into()),\n            |items| Ok((users_from_dynamodb(items)?, last)),\n        )\n    }\n\n    pub async fn get_user(dynamo: &DynamoClient, uid: &str) -> Result<Self> {\n        let pk = Self::makepk(Some(uid));\n        let sk = Self::makesk(None);\n        let go = dynamo.get_by_pksk(&pk, &sk, None).await?;\n        tracing::info!(\"get_user(uid={uid}, pk={pk}, sk={sk}) returned: {go:?}\");\n        go.item.map_or_else(\n            || Err(not_found_error(\"user\").into()),\n            |item| item.try_into(),\n        )\n    }\n\n    pub async fn create_user(dynamo: &DynamoClient, data: serde_json::Value) -> Result<String> {\n        let user = Self::try_from(data)?;\n        let sk = user.sk.clone().unwrap_or_default();\n        tracing::info!(\n            \"create_user returned: {:?}\",\n            dynamo.put_over(user.try_into()?, None).await?\n        );\n        Ok(sk)\n    }\n\n    pub async fn delete_user(dynamo: &DynamoClient, uid: &str) -> Result<()> {\n        dynamo.delete_by_pksk(&Self::makepk(Some(uid)), &Self::makesk(None), None).await?;\n        Ok(())\n    }\n\n    pub async fn update_user(\n        dynamo: &DynamoClient,\n        uid: &str,\n        data: serde_json::Value,\n        fields: &[&str],\n    ) -> Result<()> {\n        let pk = Self::makepk(Some(uid));\n        let sk = Self::makesk(None);\n        let mut builder = Updates::builder().set_pksk(Some(&pk), Some(&sk));\n\n        let body = data\n            .as_object()\n            .ok_or_else(|| bad_request_error(\"request body must be a JSON object\"))?;\n\n        let mut changed = false;\n        for key in fields {\n            if let Some(value) = body.get(*key).and_then(serde_json::Value::as_str) {\n                builder =\n                    builder.add_update_with_value(key, &serde_json::Value::String(value.to_string()));\n                changed = true;\n            }\n        }\n\n        if !changed {\n            return Err(bad_request_error(\"No attributes to update\").into());\n        }\n\n        let updates = builder\n            .build()\n            .map_err(|_| bad_request_error(\"failed to build update expression\"))?;\n\n        dynamo\n            .update(\n                updates.key.clone(),\n                updates.uex(),\n                updates.ean,\n                updates.eav,\n                None,\n            )\n            .await?;\n        Ok(())\n    }\n}\n";

/// Text of `src/routes.rs`.
pub const TEMPLATE_SRC_ROUTES_RS: &'static str = "use iciaws_router::router::Router;\n\nuse crate::handlers::{versions::GetVersionHandler, users::GetMyselfHandler,};\n\npub fn add_routes(router: &mut Router) {\n    router.add_route(GetVersionHandler::get_key(), Box::new(GetVersionHandler));\n    router.add_route(GetMyselfHandler::get_key(), Box::new(GetMyselfHandler));\n}\n";

/// Text of `tests/versions_test.rs`.
pub const TEMPLATE_TESTS_VERSIONS_TEST_RS: &'static str = "use iciaws_test_helper::{call_router, create_get, create_router, fmt_error, StatusValue};\nuse __PROJECT_NAME__::routes::add_routes;\nuse regex::Regex;\n\n#[tokio::test]\nasync fn test_get_version() {\n    let mut router = create_router(\"ici-users\").await;\n    add_routes(&mut router);\n    let req = create_get(\"/version\");\n    let StatusValue { status, value } = call_router(&router, req).await.unwrap();\n    assert_eq!(status, http::StatusCode::OK, \"{}\", fmt_error(&value));\n    assert_eq!(value[\"status\"].as_str(), Some(\"OK\"));\n    let vp = Regex::new(r\"^\\d+\\.\\d+\\.\\d+$\").unwrap();\n    let ver = value[\"message\"].as_str().unwrap();\n    assert!(vp.is_match(ver));\n}\n";

/// Relative paths of the embedded template files, in order.
pub open spec fn template_paths() -> Seq<Seq<char>> {
    seq![
        "src/common/utils.rs"@,
        "src/handlers/users.rs"@,
        "src/handlers/versions.rs"@,
        "src/main.rs"@,
        "src/models/user.rs"@,
        "src/routes.rs"@,
        "tests/versions_test.rs"@,
    ]
}

/// Texts of the embedded template files, in the order of `template_paths`.
pub open spec fn template_sources() -> Seq<Seq<char>> {
    seq![
        TEMPLATE_SRC_COMMON_UTILS_RS@,
        TEMPLATE_SRC_HANDLERS_USERS_RS@,
        TEMPLATE_SRC_HANDLERS_VERSIONS_RS@,
        TEMPLATE_SRC_MAIN_RS@,
        TEMPLATE_SRC_MODELS_USER_RS@,
        TEMPLATE_SRC_ROUTES_RS@,
        TEMPLATE_TESTS_VERSIONS_TEST_RS@,
    ]
}

/// The base64 form in which a text is handed out: its UTF-8 bytes, encoded.
pub open spec fn embedded(text: Seq<char>) -> Seq<char> {
    b64_encoded(vstd::utf8::encode_utf8(text))
}

/// The relative paths of a list of template entries.
pub open spec fn entry_paths(v: Seq<(&str, String)>) -> Seq<Seq<char>> {
    v.map_values(|e: (&str, String)| e.0@)
}

/// An embedded text decodes back to itself; in particular its bytes are
/// valid UTF-8.
pub proof fn lemma_embedded_decodes(text: Seq<char>)
    ensures
        template_text(embedded(text)) == Some(text),
{
    lemma_base64_roundtrip(vstd::utf8::encode_utf8(text));
    vstd::utf8::encode_utf8_valid_utf8(text);
    vstd::utf8::encode_utf8_decode_utf8(text);
}

fn entry(path: &'static str, text: &'static str) -> (r: (&'static str, String))
    ensures
        r.0@ == path@,
        r.1@ == embedded(text@),
{
    (path, base64_encode(text.as_bytes()))
}

/// Return a list of (relative_path, base64_content) pairs from the embedded
/// template. Every entry decodes to the text of its file.
pub fn get_template_files() -> (r: Vec<(&'static str, String)>)
    ensures
        entry_paths(r@) == template_paths(),
        r@.len() == template_sources().len(),
        forall|i: int|
            0 <= i < r@.len() ==> #[trigger] r@[i].1@ == embedded(template_sources()[i]),
        forall|i: int|
            0 <= i < r@.len() ==> #[trigger] template_text(r@[i].1@) == Some(template_sources()[i]),
{
    let r = vec![
        entry("src/common/utils.rs", TEMPLATE_SRC_COMMON_UTILS_RS),
        entry("src/handlers/users.rs", TEMPLATE_SRC_HANDLERS_USERS_RS),
        entry("src/handlers/versions.rs", TEMPLATE_SRC_HANDLERS_VERSIONS_RS),
        entry("src/main.rs", TEMPLATE_SRC_MAIN_RS),
        entry("src/models/user.rs", TEMPLATE_SRC_MODELS_USER_RS),
        entry("src/routes.rs", TEMPLATE_SRC_ROUTES_RS),
        entry("tests/versions_test.rs", TEMPLATE_TESTS_VERSIONS_TEST_RS),
    ];
    assert(entry_paths(r@) == template_paths());
    assert forall|i: int| 0 <= i < r@.len() implies #[trigger] template_text(r@[i].1@) == Some(
        template_sources()[i],
    ) by {
        lemma_embedded_decodes(template_sources()[i]);
    }
    r
}

} // verus!
