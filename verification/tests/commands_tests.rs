use iotics_cli::commands::{
    delete_log_cue, follow_step, host_search_property, model_search_property, network_type_of,
    should_close_stream, should_stop_following, Command, DeleteAllTwins, DeleteAllTwinsArgs,
    DeleteTwins, DeleteTwinsArgs, DidKG, DidKGArgs, FollowAction, FollowByModel,
    FollowByModelArgs, FollowEvent, ListHosts, ListHostsArgs, SEARCH_PAGE_SIZE,
};
use iotics_cli::host_worker::NetworkType;
use iotics_cli::settings::{IoticsSettings, Settings};

fn sample_settings() -> Settings {
    Settings {
        iotics: IoticsSettings {
            host_address: "https://myhost.iotics.space:10001".to_string(),
            resolver_address: "https://resolver.example".to_string(),
            token_duration: 600,
            user_did: "did:iotics:user".to_string(),
            agent_did: "did:iotics:agent".to_string(),
            agent_key_name: "agent-key".to_string(),
            agent_name: "#agent".to_string(),
            agent_secret: "SECRET-REDACTED".to_string(),
        },
    }
}

#[test]
fn full_page_keeps_the_stream_open() {
    // Boundary: a page holding exactly the maximum page size must not
    // close the stream; a strictly smaller page must.
    assert!(!should_close_stream(SEARCH_PAGE_SIZE, SEARCH_PAGE_SIZE));
    assert!(should_close_stream(SEARCH_PAGE_SIZE - 1, SEARCH_PAGE_SIZE));
    assert!(!should_close_stream(SEARCH_PAGE_SIZE + 1, SEARCH_PAGE_SIZE));
    assert!(should_close_stream(0, SEARCH_PAGE_SIZE));
    assert_eq!(SEARCH_PAGE_SIZE, 100);
}

#[test]
fn network_type_follows_the_host_address() {
    assert_eq!(network_type_of("https://myhost.dev.iotics.space:10001"), NetworkType::Dev);
    assert_eq!(network_type_of("https://myhost.iotics.space:10001"), NetworkType::Prod);
}

#[test]
fn delete_logging_breaks_a_line_every_64_silent_deletes() {
    let cue = delete_log_cue(0, false);
    assert!(!cue.announce);
    assert!(!cue.break_line);
    assert!(delete_log_cue(64, false).break_line);
    assert!(delete_log_cue(128, false).break_line);
    assert!(!delete_log_cue(65, false).break_line);
    let verbose = delete_log_cue(64, true);
    assert!(verbose.announce);
    assert!(!verbose.break_line);
}

#[test]
fn delete_twins_counts_finds_and_successes() {
    let args = DeleteTwinsArgs {
        config: "prod".to_string(),
        model_did: "did:iotics:model".to_string(),
        delete_model: false,
        verbose: false,
    };
    let mut command = DeleteTwins::new(args, sample_settings());
    assert_eq!(command.twins_found, 0);
    // this command breaks the silent line on the very first delete too
    assert!(command.delete_cue(false).break_line);
    assert!(command.delete_cue(true).announce);
    command.record_delete(true);
    command.record_delete(false);
    command.record_delete(true);
    assert_eq!(command.twins_found, 3);
    assert_eq!(command.twins_deleted, 2);
    assert!(!command.delete_cue(false).break_line);
}

#[test]
fn delete_all_twins_counts_finds_and_successes() {
    let args = DeleteAllTwinsArgs { config: "prod".to_string(), verbose: true };
    let mut command = DeleteAllTwins::new(args, sample_settings());
    command.record_delete(false);
    command.record_delete(true);
    assert_eq!(command.twins_found, 2);
    assert_eq!(command.twins_deleted, 1);
}

#[test]
fn follower_cap_closes_the_stream() {
    assert!(!should_stop_following(2, 3));
    assert!(should_stop_following(3, 3));
    assert!(should_stop_following(4, 3));
}

#[test]
fn follow_decodes_only_json_feed_data() {
    let event = FollowEvent::Payload("application/json; charset=utf-8".to_string(), vec![1, 2]);
    match follow_step(event) {
        FollowAction::DecodeJson(data) => assert_eq!(data, vec![1, 2]),
        _ => panic!("json feed data is decoded"),
    }
    assert!(matches!(
        follow_step(FollowEvent::Payload("text/plain".to_string(), vec![3])),
        FollowAction::Ignore
    ));
    assert!(matches!(follow_step(FollowEvent::NoPayload), FollowAction::Ignore));
    assert!(matches!(follow_step(FollowEvent::Stalled), FollowAction::LogStall));
    assert!(matches!(follow_step(FollowEvent::Failed), FollowAction::Stop));
}

#[test]
fn search_properties_name_the_fixed_vocabulary() {
    let (key, value) = host_search_property();
    assert_eq!(key, "http://www.w3.org/1999/02/22-rdf-syntax-ns#type");
    assert_eq!(value, "http://data.iotics.com/public#HostTwin");
    let (key, value) = model_search_property("did:iotics:model");
    assert_eq!(key, "https://data.iotics.com/app#model");
    assert_eq!(value, "did:iotics:model");
}

#[test]
fn commands_wrap_their_arguments() {
    let follow = FollowByModel::new(
        FollowByModelArgs {
            config: "prod".to_string(),
            model_did: "did:iotics:model".to_string(),
            feed_id: "feed".to_string(),
            follower_twin_did: "did:iotics:follower".to_string(),
            maximum_twins: 10,
            verbose: false,
        },
        sample_settings(),
    );
    assert_eq!(follow.opts.maximum_twins, 10);

    let list = ListHosts::new(
        ListHostsArgs {
            config: "prod".to_string(),
            with_version: true,
            with_twins: false,
            verbose: false,
        },
        sample_settings(),
    );
    assert!(list.opts.with_version);

    let kg = DidKG::new(
        DidKGArgs { config: "prod".to_string(), verbose: true },
        sample_settings(),
    );
    assert!(kg.opts.verbose);

    let command = Command::DidKG(DidKGArgs { config: "prod".to_string(), verbose: false });
    assert!(matches!(command, Command::DidKG(_)));
}
