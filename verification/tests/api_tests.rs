use glin_client::api::client::{read_reply, Operation, Reply, NOT_FOUND};
use glin_client::api::{BackendClient, ProviderStatus};
use glin_client::error::ClientError;

fn refusal(reply: Reply) -> String {
    match reply {
        Reply::Refused(ClientError::Api(detail)) => detail,
        other => panic!("unexpected {:?}", other),
    }
}

#[test]
fn base_address_loses_its_trailing_slashes() {
    assert_eq!(BackendClient::new("http://h:3000/").base_url(), "http://h:3000");
    assert_eq!(BackendClient::new("http://h:3000///").base_url(), "http://h:3000");
    assert_eq!(BackendClient::new("http://h:3000").base_url(), "http://h:3000");
    assert_eq!(BackendClient::new("http://h/api/").base_url(), "http://h/api");
    assert_eq!(BackendClient::new("").base_url(), "");
}

#[test]
fn token_is_unset_until_set() {
    let mut client = BackendClient::new("http://h");
    assert_eq!(client.token(), None);
    client.set_token("a");
    assert_eq!(client.token(), Some("a"));
    client.set_token("b");
    assert_eq!(client.token(), Some("b"));
    assert_eq!(client.base_url(), "http://h");
}

#[test]
fn endpoint_addresses() {
    let client = BackendClient::new("http://h:3000/");
    assert_eq!(client.register_url(), "http://h:3000/api/v1/providers/register");
    assert_eq!(client.heartbeat_url(), "http://h:3000/api/v1/providers/heartbeat");
    assert_eq!(client.tasks_url(), "http://h:3000/api/v1/providers/tasks");
    assert_eq!(client.submit_url(), "http://h:3000/api/v1/gradients/submit");
    assert_eq!(
        client.provider_url(0x550e8400e29b41d4a716446655440000),
        "http://h:3000/api/v1/providers/550e8400-e29b-41d4-a716-446655440000"
    );
}

#[test]
fn success_is_accepted_for_every_operation() {
    for op in [
        Operation::Register,
        Operation::Heartbeat,
        Operation::GetProvider,
        Operation::GetTasks,
        Operation::SubmitGradient,
    ] {
        assert!(matches!(read_reply(op, 200, "200 OK", "{}"), Reply::Accepted));
        assert!(matches!(read_reply(op, 204, "204 No Content", ""), Reply::Accepted));
    }
}

#[test]
fn missing_task_list_is_an_empty_one() {
    assert_eq!(NOT_FOUND, 404);
    assert!(matches!(read_reply(Operation::GetTasks, 404, "404 Not Found", ""), Reply::NoTasks));
    assert_eq!(
        refusal(read_reply(Operation::GetProvider, 404, "404 Not Found", "")),
        "Get provider failed (404 Not Found): "
    );
}

#[test]
fn refusals_show_status_and_body() {
    assert_eq!(
        refusal(read_reply(Operation::Register, 400, "400 Bad Request", "Invalid request")),
        "Registration failed (400 Bad Request): Invalid request"
    );
    assert_eq!(
        refusal(read_reply(Operation::Heartbeat, 401, "401 Unauthorized", "no token")),
        "Heartbeat failed (401 Unauthorized): no token"
    );
    assert_eq!(
        refusal(read_reply(Operation::GetTasks, 500, "500 Internal Server Error", "boom")),
        "Get tasks failed (500 Internal Server Error): boom"
    );
    assert_eq!(
        refusal(read_reply(Operation::SubmitGradient, 302, "302 Found", "")),
        "Submit gradient failed (302 Found): "
    );
}

#[test]
fn operation_labels() {
    assert_eq!(Operation::Register.label(), "Registration");
    assert_eq!(Operation::Heartbeat.label(), "Heartbeat");
    assert_eq!(Operation::GetProvider.label(), "Get provider");
    assert_eq!(Operation::GetTasks.label(), "Get tasks");
    assert_eq!(Operation::SubmitGradient.label(), "Submit gradient");
}

#[test]
fn provider_status_values_are_distinct() {
    assert_ne!(ProviderStatus::Active, ProviderStatus::Idle);
    assert_eq!(ProviderStatus::Banned, ProviderStatus::Banned);
}
