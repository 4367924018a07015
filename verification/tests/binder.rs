use webhook_rebind::binder::{
    bind_outcome, bind_request, webhook_url_for, BindOutcome, BindRequest, PlatformReply,
};
use webhook_rebind::credentials::{resolve_token, token_variable_for, Credential};
use webhook_rebind::services::DiscoveredService;

fn service(name: &str, public_url: &str) -> DiscoveredService {
    DiscoveredService { name: name.to_string(), public_url: public_url.to_string() }
}

fn credential(name: &str, token: &str) -> Credential {
    Credential { service_name: name.to_string(), token: token.to_string() }
}

#[test]
fn token_variable_is_prefix_and_upper_case_name() {
    assert_eq!(token_variable_for("gpt4o"), "BOT_TOKEN_GPT4O");
    assert_eq!(token_variable_for("mixtral"), "BOT_TOKEN_MIXTRAL");
    assert_eq!(token_variable_for("deepseek"), "BOT_TOKEN_DEEPSEEK");
    assert_eq!(token_variable_for(""), "BOT_TOKEN_");
}

#[test]
fn token_variable_raises_ascii_letters_only() {
    assert_eq!(token_variable_for("Az-09_z"), "BOT_TOKEN_AZ-09_Z");
    assert_eq!(token_variable_for("caf\u{e9}"), "BOT_TOKEN_CAF\u{e9}");
    assert_eq!(token_variable_for("`{"), "BOT_TOKEN_`{");
}

#[test]
fn token_is_absent_when_unset_or_empty() {
    assert_eq!(resolve_token("gpt4o", None), None);
    assert_eq!(resolve_token("gpt4o", Some(String::new())), None);
}

#[test]
fn token_is_taken_as_it_stands() {
    assert_eq!(
        resolve_token("gpt4o", Some("123:abc".to_string())),
        Some(credential("gpt4o", "123:abc"))
    );
    assert_eq!(resolve_token("gpt4o", Some(" ".to_string())), Some(credential("gpt4o", " ")));
}

#[test]
fn webhook_url_appends_the_path() {
    assert_eq!(webhook_url_for("https://abc.example"), "https://abc.example/webhook");
    assert_eq!(webhook_url_for("https://abc.example/"), "https://abc.example//webhook");
    assert_eq!(webhook_url_for(""), "/webhook");
}

#[test]
fn request_goes_to_the_endpoint_of_the_token() {
    let request = bind_request(
        &service("gpt4o", "https://abc.example"),
        &credential("gpt4o", "123:abc"),
        "s3cret",
    );
    assert_eq!(
        request,
        BindRequest {
            service_name: "gpt4o".to_string(),
            endpoint: "https://api.telegram.org/bot123:abc/setWebhook".to_string(),
            content_type: "application/json".to_string(),
            body: b"{\"secret_token\":\"s3cret\",\"url\":\"https://abc.example/webhook\"}".to_vec(),
        }
    );
}

#[test]
fn request_body_holds_url_and_secret() {
    for (public_url, secret) in [
        ("https://abc.example", "s3cret"),
        ("", ""),
        ("https://x.example/a?b=\"c\"", "quote\" back\\slash"),
        ("https://\u{fc}ml\u{e4}ut.example", "line\nbreak\ttab"),
    ] {
        let request = bind_request(&service("bot", public_url), &credential("bot", "t"), secret);
        let read: serde_json::Value = serde_json::from_slice(&request.body).unwrap();
        let members = read.as_object().unwrap();
        assert_eq!(members.len(), 2);
        assert_eq!(read.get("url").unwrap().as_str(), Some(format!("{}/webhook", public_url).as_str()));
        assert_eq!(read.get("secret_token").unwrap().as_str(), Some(secret));
    }
}

#[test]
fn response_of_success_is_a_bound_webhook() {
    let bot = service("gpt4o", "https://abc.example");
    for status in [200u16, 201, 299] {
        let reply = PlatformReply::Response { status, body: "{\"ok\":true}".to_string() };
        assert_eq!(
            bind_outcome(&bot, &reply),
            BindOutcome {
                service_name: "gpt4o".to_string(),
                succeeded: true,
                detail: "https://abc.example/webhook".to_string(),
            }
        );
    }
}

#[test]
fn response_of_refusal_gives_its_body() {
    let bot = service("gpt4o", "https://abc.example");
    for status in [199u16, 300, 401, 404, 500] {
        let reply = PlatformReply::Response { status, body: "{\"ok\":false}".to_string() };
        assert_eq!(
            bind_outcome(&bot, &reply),
            BindOutcome {
                service_name: "gpt4o".to_string(),
                succeeded: false,
                detail: "{\"ok\":false}".to_string(),
            }
        );
    }
}

#[test]
fn failed_call_gives_the_transport_account() {
    let reply = PlatformReply::Failed { detail: "dns error".to_string() };
    assert_eq!(
        bind_outcome(&service("mixtral", "https://m.example"), &reply),
        BindOutcome {
            service_name: "mixtral".to_string(),
            succeeded: false,
            detail: "dns error".to_string(),
        }
    );
}
