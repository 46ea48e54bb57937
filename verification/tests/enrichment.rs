use oculus::errors::JobError;
use oculus::init::{backfill_max_pages, backfill_step, collect_slack_ids, BackfillStep};
use oculus::models::{
    HackatimeData, HackatimeResponse, RawComment, RawDevlog, RawProject, SlackProfile,
    TrustFactor,
};
use oculus::prune::{devlog_prune_action, fetch_all_next_page, project_prune_action, PruneAction};
use oculus::reform::{parse_reembed_target, Target};
use oculus::text::{project_embed_text, reform_project_text};
use oculus::trace::{
    choose_slack_token, pick_pfp_url, pick_username, slack_fetch_step, user_needs_info,
    SlackFetchStep, TrustManager,
};
use oculus::zenith::{should_process_payouts, zenith_entry_action, ZenithAction};

fn empty_profile() -> SlackProfile {
    SlackProfile {
        display_name: None,
        real_name: None,
        image_24: None,
        image_32: None,
        image_48: None,
        image_72: None,
        image_192: None,
        image_512: None,
    }
}

#[test]
fn enrichment_selects_users_still_missing_fields() {
    let named = Some("kai".to_string());
    let url = "https://img".to_string();
    let notfound = "notfound".to_string();
    let trusted = Some("blue".to_string());
    let unavailable = Some("unavailable".to_string());
    assert!(user_needs_info(&None, &url, &trusted));
    assert!(user_needs_info(&named, &notfound, &trusted));
    assert!(user_needs_info(&named, &url, &unavailable));
    assert!(!user_needs_info(&named, &url, &trusted));
    assert!(!user_needs_info(&named, &url, &None));
}

#[test]
fn usernames_fall_back_from_display_to_real_to_unknown() {
    let mut p = empty_profile();
    assert_eq!(pick_username(&p), "unknown");
    p.real_name = Some("Kai Doe".to_string());
    assert_eq!(pick_username(&p), "Kai Doe");
    p.display_name = Some("kai".to_string());
    assert_eq!(pick_username(&p), "kai");
}

#[test]
fn avatars_prefer_192_then_512_then_72_then_48() {
    let mut p = empty_profile();
    assert_eq!(pick_pfp_url(&p), "notfound");
    p.image_48 = Some("48".to_string());
    assert_eq!(pick_pfp_url(&p), "48");
    p.image_72 = Some("72".to_string());
    assert_eq!(pick_pfp_url(&p), "72");
    p.image_512 = Some("512".to_string());
    assert_eq!(pick_pfp_url(&p), "512");
    p.image_192 = Some("192".to_string());
    assert_eq!(pick_pfp_url(&p), "192");
}

#[test]
fn token_choice_prefers_configuration_over_cache() {
    let configured = "configured-token".to_string();
    let cached = Some(("cached-token".to_string(), 100u64));
    assert_eq!(choose_slack_token(&configured, &cached), Ok(configured.clone()));
    assert_eq!(
        choose_slack_token(&String::new(), &cached),
        Ok("cached-token".to_string())
    );
    let stale = Some(("cached-token".to_string(), 36000u64));
    assert!(matches!(
        choose_slack_token(&String::new(), &stale),
        Err(JobError::ExternalApi(_))
    ));
    assert!(matches!(
        choose_slack_token(&String::new(), &None),
        Err(JobError::ExternalApi(_))
    ));
}

#[test]
fn profile_fetches_classify_by_status() {
    assert_eq!(slack_fetch_step(429), SlackFetchStep::RateLimited);
    assert_eq!(slack_fetch_step(200), SlackFetchStep::ReadBody);
    assert_eq!(slack_fetch_step(403), SlackFetchStep::SkipUser);
}

#[test]
fn trust_fields_pass_through_known_users_only() {
    let stats = HackatimeResponse {
        data: HackatimeData { username: Some("kai".to_string()), user_id: "U1".to_string() },
        trust_factor: TrustFactor { trust_level: "blue".to_string(), trust_value: 3 },
    };
    assert_eq!(
        TrustManager::trust_fields(&Some(stats)),
        Some(("blue".to_string(), 3))
    );
    assert_eq!(TrustManager::trust_fields(&None), None);
}

#[test]
fn leaderboard_entries_decide_create_update_or_nothing() {
    assert_eq!(zenith_entry_action(&None, 10), ZenithAction::CreateUser);
    assert_eq!(zenith_entry_action(&Some(None), 10), ZenithAction::UpdateShells);
    assert_eq!(zenith_entry_action(&Some(Some(9)), 10), ZenithAction::UpdateShells);
    assert_eq!(zenith_entry_action(&Some(Some(10)), 10), ZenithAction::Nothing);
    assert!(!should_process_payouts(&None));
    assert!(!should_process_payouts(&Some(Vec::new())));
}

#[test]
fn reconciliation_updates_on_newer_or_diverged_projects() {
    let upstream = RawProject {
        id: 1,
        title: "T".to_string(),
        description: None,
        readme_link: None,
        slack_id: "U1".to_string(),
        created_at: "2024-01-01T00:00:00Z".to_string(),
        updated_at: "2024-01-02T00:00:00Z".to_string(),
    };
    // upstream moved ahead of the mirrored timestamp
    let action = project_prune_action(
        &"T".to_string(),
        &None,
        1704067200000,
        &Some(upstream.clone()),
    );
    assert_eq!(action, Ok(PruneAction::Update));
    // same instant, and both sides trim to the same text: keep.
    // The mirrored title carries a stray trailing space.
    let action = project_prune_action(
        &"T ".to_string(),
        &None,
        1704153600000,
        &Some(upstream.clone()),
    );
    assert_eq!(action, Ok(PruneAction::Keep));
    // same instant but diverging text: update
    let action = project_prune_action(
        &"other".to_string(),
        &None,
        1704153600000,
        &Some(upstream.clone()),
    );
    assert_eq!(action, Ok(PruneAction::Update));
    // gone upstream: delete
    let action = project_prune_action(&"T".to_string(), &None, 0, &None);
    assert_eq!(action, Ok(PruneAction::Delete));
    let mut bad = upstream;
    bad.updated_at = "not a date".to_string();
    assert!(project_prune_action(&"T".to_string(), &None, 0, &Some(bad)).is_err());
}

#[test]
fn reconciliation_compares_devlogs_by_raw_text() {
    let upstream = RawDevlog {
        id: 10,
        text: "hello".to_string(),
        project_id: 1,
        slack_id: "U1".to_string(),
        created_at: "2024-01-01T00:00:00Z".to_string(),
        updated_at: "2024-01-01T00:00:00Z".to_string(),
    };
    let action = devlog_prune_action(&"hello".to_string(), 1704067200000, &Some(upstream.clone()));
    assert_eq!(action, Ok(PruneAction::Keep));
    // devlog text is not trimmed before comparison
    let action = devlog_prune_action(&"hello ".to_string(), 1704067200000, &Some(upstream));
    assert_eq!(action, Ok(PruneAction::Update));
    let action = devlog_prune_action(&"hello".to_string(), 0, &None);
    assert_eq!(action, Ok(PruneAction::Delete));
}

#[test]
fn full_fetch_pages_until_empty_or_reported_end() {
    assert_eq!(fetch_all_next_page(3, true, &Some(9)), None);
    assert_eq!(fetch_all_next_page(3, false, &Some(3)), None);
    assert_eq!(fetch_all_next_page(3, false, &Some(9)), Some(4));
    assert_eq!(fetch_all_next_page(3, false, &None), Some(4));
}

#[test]
fn reembed_targets_parse_with_a_catch_all() {
    assert_eq!(parse_reembed_target(&"projects".to_string()), Target::Projects);
    assert_eq!(parse_reembed_target(&"comments".to_string()), Target::Comments);
    assert_eq!(parse_reembed_target(&"devlogs".to_string()), Target::Devlogs);
    assert_eq!(parse_reembed_target(&"all".to_string()), Target::All);
    assert_eq!(parse_reembed_target(&"".to_string()), Target::All);
}

#[test]
fn embed_text_joins_and_trims() {
    assert_eq!(
        project_embed_text(&"Title".to_string(), &Some("desc".to_string())),
        "Title desc"
    );
    // a missing description leaves a trailing space, which trimming
    // removes; an untrimming implementation would keep it
    assert_eq!(project_embed_text(&"Title".to_string(), &None), "Title");
    assert_eq!(project_embed_text(&"  padded  ".to_string(), &None), "padded");
    // the re-embedding pass keeps the raw join
    assert_eq!(reform_project_text(&"Title".to_string(), &None), "Title ");
}

#[test]
fn backfill_walk_honors_caps_and_totals() {
    assert_eq!(backfill_max_pages(true), 5);
    assert_eq!(backfill_max_pages(false), i32::MAX);
    assert_eq!(backfill_step(5, 5, false, &Some(9)), BackfillStep::DiscardAndStop);
    assert_eq!(backfill_step(2, 5, true, &Some(9)), BackfillStep::DiscardAndStop);
    assert_eq!(backfill_step(2, 5, false, &Some(2)), BackfillStep::StoreAndStop);
    assert_eq!(backfill_step(2, 5, false, &Some(9)), BackfillStep::StoreAndContinue(3));
    assert_eq!(backfill_step(2, 5, false, &None), BackfillStep::StoreAndContinue(3));
}

#[test]
fn author_ids_collect_once_across_all_streams() {
    let project = RawProject {
        id: 1,
        title: "T".to_string(),
        description: None,
        readme_link: None,
        slack_id: "U1".to_string(),
        created_at: String::new(),
        updated_at: String::new(),
    };
    let devlog = RawDevlog {
        id: 10,
        text: "hi".to_string(),
        project_id: 1,
        slack_id: "U2".to_string(),
        created_at: String::new(),
        updated_at: String::new(),
    };
    let comment = RawComment {
        text: "yo".to_string(),
        devlog_id: 10,
        slack_id: "U1".to_string(),
        created_at: String::new(),
    };
    let ids = collect_slack_ids(&vec![project], &vec![comment], &vec![devlog]);
    let mut sorted = ids.clone();
    sorted.sort();
    assert_eq!(sorted, vec!["U1".to_string(), "U2".to_string()]);
}
