use taskmaster::action::Action as ClientAction;
use taskmaster::api::Action as ApiAction;

#[test]
fn client_requests_map_onto_the_daemon_protocol() {
    let r = ClientAction::Config("t".to_string()).to_api();
    assert!(matches!(r, Some(ApiAction::Config(name)) if name == "t"));

    let r = ClientAction::Status(None).to_api();
    assert!(matches!(r, Some(ApiAction::Status(None))));

    let r = ClientAction::Update(Some("t".to_string())).to_api();
    assert!(matches!(r, Some(ApiAction::Update(Some(name))) if name == "t"));

    let r = ClientAction::Start(Some(("t".to_string(), Some(2)))).to_api();
    assert!(matches!(r, Some(ApiAction::Start(name, Some(2))) if name == "t"));

    let r = ClientAction::Stop(Some(("t".to_string(), None))).to_api();
    assert!(matches!(r, Some(ApiAction::Stop(name, None)) if name == "t"));

    let r = ClientAction::Shutdown.to_api();
    assert!(matches!(r, Some(ApiAction::Shutdown)));
}

#[test]
fn log_history_and_start_all_are_expanded_by_the_client() {
    assert!(ClientAction::Maintail(Some(10)).to_api().is_none());
    assert!(ClientAction::Start(None).to_api().is_none());
    assert!(ClientAction::Stop(None).to_api().is_none());
}
