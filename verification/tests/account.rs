use liquidlauncher::auth::ClientAccountAuthenticator;
use liquidlauncher::minecraft::auth::MinecraftAccount;

#[test]
fn sends_the_browser_back_to_the_launcher() {
    assert_eq!(ClientAccountAuthenticator::redirect_uri("127.0.0.1", 51234), "http://127.0.0.1:51234/");
}

#[test]
fn takes_the_code_and_the_state_from_the_redirect() {
    let pair = |k: &str, v: &str| (k.to_owned(), v.to_owned());
    let pairs = vec![pair("state", "s1"), pair("code", "c1"), pair("code", "c2")];
    assert_eq!(
        ClientAccountAuthenticator::authorization(&pairs),
        Ok(("c1".to_owned(), "s1".to_owned()))
    );
    assert_eq!(
        ClientAccountAuthenticator::authorization(&vec![pair("state", "s1")]),
        Err("Missing code in the response".to_owned())
    );
    assert_eq!(
        ClientAccountAuthenticator::authorization(&vec![pair("code", "c1")]),
        Err("Missing state in the response".to_owned())
    );
}

#[test]
fn answers_the_browser_with_the_page_and_its_length_in_bytes() {
    assert_eq!(
        ClientAccountAuthenticator::success_response("<p>Zurück</p>"),
        "HTTP/1.1 200 OK\r\ncontent-type: text/html\r\ncontent-length: 14\r\n\r\n<p>Zurück</p>"
    );
}

#[test]
fn opens_a_session_from_a_token_response() {
    let account = ClientAccountAuthenticator::session(
        "access".to_owned(),
        Some(3600),
        Some("refresh".to_owned()),
        1_700_000_000,
    )
    .unwrap();
    assert_eq!(account.get_access_token(), "access");
    assert_eq!(account.get_refresh_token(), "refresh");
    assert_eq!(account.get_expires_at(), 1_700_003_600);
    assert!(account.get_user_information().is_none());
    assert!(!account.is_expired(1_700_003_600));
    assert!(account.is_expired(1_700_003_601));

    assert!(matches!(
        ClientAccountAuthenticator::session("a".to_owned(), None, Some("r".to_owned()), 0),
        Err(message) if message == "Missing expires_in"
    ));
    assert!(matches!(
        ClientAccountAuthenticator::session("a".to_owned(), Some(1), None, 0),
        Err(message) if message == "Missing refresh token"
    ));
}

#[test]
fn refreshes_only_microsoft_accounts() {
    let offline = MinecraftAccount::auth_offline("Steve".to_owned());
    assert!(!offline.refreshes_online());
    assert!(offline.logout().is_ok());
    let premium = MinecraftAccount::MsaAccount { state: "{}".to_owned(), name: "Alex".to_owned(), id: [0; 16] };
    assert!(premium.refreshes_online());
}
