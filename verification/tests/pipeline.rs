use deploy_pipeline::config::{Config, Environment, ProjectVariant};
use deploy_pipeline::error::DeployError;
use deploy_pipeline::pipeline::{Action, DeployRequest, Event, Pack, Pipeline, Stage, Step};
use deploy_pipeline::preflight::Check;
use deploy_pipeline::resolve::VersionPolicy;

fn config() -> Config {
    Config {
        host: "deploy.example".to_string(),
        username: "www".to_string(),
        port: 22,
        history_path: "/srv/history".to_string(),
        output_path: "/srv/www/app".to_string(),
        build: "build:dev".to_string(),
        git_checkout: "develop".to_string(),
        local_path: "work/app".to_string(),
    }
}

fn request(environment: Environment, policy: VersionPolicy) -> DeployRequest {
    DeployRequest { environment, policy }
}

fn exited(stdout: &str, status: i32) -> Event {
    Event::Exited { stdout: stdout.to_string(), status }
}

fn ok() -> Event {
    exited("", 0)
}

fn strings(items: &[&str]) -> Vec<String> {
    items.iter().map(|s| s.to_string()).collect()
}

fn remote(command: &str) -> Action {
    Action::Remote { command: command.to_string() }
}

fn inspect(args: &[&str]) -> Action {
    Action::Inspect {
        directory: "work/app".to_string(),
        program: "git".to_string(),
        args: strings(args),
    }
}

const LISTING: &str = "total 16\n\
    -rw-r--r-- 1 www www 10 Jan  5 10:00 v1.0.0.zip\n\
    -rw-r--r-- 1 www www 10 Jan  6 10:00 v1.2.0.zip\n\
    -rw-r--r-- 1 www www 10 Jan  7 10:00 garbage\n\
    -rw-r--r-- 1 www www 10 Jan  8 10:00 v1.1.5.zip\n";

/// Feeds `events` to `pipeline` one after the other and returns the actions
/// that were pending: the first one, then the one after each event.
fn drive(pipeline: &mut Pipeline, events: &[Event]) -> Vec<Action> {
    let mut actions = vec![pipeline.action()];
    for event in events {
        actions.push(pipeline.step(event));
    }
    actions
}

fn build_events() -> Vec<Event> {
    vec![
        exited(LISTING, 0),
        exited("develop\n", 0),
        exited("", 0),
        exited("", 0),
        exited("built in 3s\n", 0),
        Event::Probed { present: vec![true, true] },
        Event::Completed,
        Event::Completed,
    ]
}

#[test]
fn full_run_of_the_server_variant_in_dev() {
    let mut pipeline =
        Pipeline::new(config(), ProjectVariant::next(), request(Environment::Dev, VersionPolicy::Increment));
    assert_eq!(pipeline.stage(), Stage::Resolving);
    let mut events = build_events();
    events.extend(vec![exited("", 1), ok(), ok(), ok(), ok(), ok(), ok(), ok()]);
    let actions = drive(&mut pipeline, &events);
    let expected = vec![
        remote("cd /srv/history && ls -l"),
        inspect(&["branch", "--show-current"]),
        inspect(&["status", "--porcelain"]),
        inspect(&["rev-list", "@{u}..HEAD"]),
        Action::Build {
            directory: "work/app".to_string(),
            program: "pnpm".to_string(),
            args: strings(&["run", "build:dev"]),
        },
        Action::Probe { directory: "work/app".to_string(), dirs: strings(&["dist", "prisma"]) },
        Action::Archive {
            directory: "work/app".to_string(),
            name: "v1.2.1.zip".to_string(),
            dirs: strings(&["dist", "prisma"]),
        },
        Action::Upload { path: "/srv/history/v1.2.1.zip".to_string() },
        remote("cd / && [ -d /srv/www/app ]"),
        remote("mkdir -p /srv/www/app"),
        remote("cp /srv/history/v1.2.1.zip /srv/www/app/v1.2.1.zip"),
        remote("cd /srv/www/app && unzip -o v1.2.1.zip && rm v1.2.1.zip && chmod -R 755 dist prisma"),
        remote("cd /home/www/jobabc-internal && npx prisma db pull"),
        remote("cd /home/www/jobabc-internal && npx prisma generate"),
        remote("pm2 restart jobabc-internal-dev"),
        remote("nginx -s reload"),
        Action::Finish,
    ];
    assert_eq!(actions, expected);
    assert_eq!(pipeline.stage(), Stage::Done);
    assert_eq!(pipeline.outcome(), Some(Ok(())));
    assert!(pipeline.is_finished());
    assert_eq!(pipeline.archive(), "v1.2.1.zip");
}

#[test]
fn prod_runs_the_migrations_instead_of_the_pull() {
    let policy = VersionPolicy::Replay("v1.0.0.zip".to_string());
    let mut pipeline = Pipeline::new(config(), ProjectVariant::next(), request(Environment::Prod, policy));
    let actions = drive(&mut pipeline, &[ok(), ok(), ok(), ok(), ok(), ok(), ok()]);
    let expected = vec![
        remote("cd / && [ -d /srv/www/app ]"),
        remote("cp /srv/history/v1.0.0.zip /srv/www/app/v1.0.0.zip"),
        remote("cd /srv/www/app && unzip -o v1.0.0.zip && rm v1.0.0.zip && chmod -R 755 dist prisma"),
        remote("cd /home/www/jobabc-internal && npx prisma migrate deploy"),
        remote("cd /home/www/jobabc-internal && npx prisma generate"),
        remote("pm2 restart jobabc-internal"),
        remote("nginx -s reload"),
        Action::Finish,
    ];
    assert_eq!(actions, expected);
    assert_eq!(pipeline.outcome(), Some(Ok(())));
}

#[test]
fn static_variant_has_no_post_steps_and_one_directory() {
    let policy = VersionPolicy::Explicit("v3.0.0".to_string());
    let mut pipeline = Pipeline::new(config(), ProjectVariant::admin(), request(Environment::Prod, policy));
    assert_eq!(pipeline.stage(), Stage::Preflight(Check::Branch));
    assert_eq!(pipeline.archive(), "v3.0.0.zip");
    let events = vec![
        exited("  develop \n", 0),
        ok(),
        ok(),
        ok(),
        Event::Probed { present: vec![true] },
        Event::Completed,
        Event::Completed,
        ok(),
        ok(),
        ok(),
        ok(),
    ];
    let actions = drive(&mut pipeline, &events);
    assert_eq!(
        actions[4],
        Action::Probe { directory: "work/app".to_string(), dirs: strings(&["dist"]) }
    );
    assert_eq!(
        &actions[7..],
        &[
            remote("cd / && [ -d /srv/www/app ]"),
            remote("cp /srv/history/v3.0.0.zip /srv/www/app/v3.0.0.zip"),
            remote("cd /srv/www/app && unzip -o v3.0.0.zip && rm v3.0.0.zip && chmod -R 755 dist"),
            remote("nginx -s reload"),
            Action::Finish,
        ]
    );
    assert_eq!(pipeline.stage(), Stage::Done);
}

#[test]
fn empty_history_resolves_to_the_first_version() {
    let mut pipeline =
        Pipeline::new(config(), ProjectVariant::admin(), request(Environment::Dev, VersionPolicy::Increment));
    pipeline.step(&exited("total 0\n", 0));
    assert_eq!(pipeline.archive(), "v1.0.0.zip");
    assert_eq!(pipeline.stage(), Stage::Preflight(Check::Branch));
}

#[test]
fn failed_listing_fails_the_run_with_its_status() {
    let mut pipeline =
        Pipeline::new(config(), ProjectVariant::admin(), request(Environment::Dev, VersionPolicy::Increment));
    let action = pipeline.step(&exited("", 2));
    assert_eq!(action, Action::Abort(DeployError::RemoteCommand { status: 2 }));
    assert_eq!(pipeline.outcome(), Some(Err(DeployError::RemoteCommand { status: 2 })));
}

#[test]
fn history_without_a_successor_is_an_invalid_version() {
    let mut pipeline =
        Pipeline::new(config(), ProjectVariant::admin(), request(Environment::Dev, VersionPolicy::Increment));
    let listing = "-rw-r--r-- 1 www www 10 Jan  5 10:00 v4294967295.99.99.zip\n";
    assert_eq!(pipeline.step(&exited(listing, 0)), Action::Abort(DeployError::InvalidVersion));
}

#[test]
fn invalid_explicit_version_fails_before_anything_is_asked() {
    let policy = VersionPolicy::Explicit("1.2".to_string());
    let pipeline = Pipeline::new(config(), ProjectVariant::next(), request(Environment::Dev, policy));
    assert_eq!(pipeline.stage(), Stage::Failed(DeployError::InvalidVersion));
    assert_eq!(pipeline.action(), Action::Abort(DeployError::InvalidVersion));
    assert_eq!(pipeline.outcome(), Some(Err(DeployError::InvalidVersion)));
}

#[test]
fn branch_mismatch_aborts_before_any_build() {
    let mut pipeline =
        Pipeline::new(config(), ProjectVariant::next(), request(Environment::Dev, VersionPolicy::Increment));
    let mut events = vec![exited(LISTING, 0), exited("main\n", 0)];
    events.extend(vec![ok(), ok(), ok(), Event::Completed, Event::Completed]);
    let actions = drive(&mut pipeline, &events);
    assert_eq!(actions[2], Action::Abort(DeployError::BranchMismatch));
    assert!(actions.iter().all(|action| !matches!(action, Action::Build { .. })));
    assert!(actions[2..].iter().all(|action| *action == Action::Abort(DeployError::BranchMismatch)));
    assert_eq!(pipeline.stage(), Stage::Failed(DeployError::BranchMismatch));
}

#[test]
fn branch_query_that_fails_is_a_mismatch() {
    let policy = VersionPolicy::Explicit("v1.0.0".to_string());
    let mut pipeline = Pipeline::new(config(), ProjectVariant::next(), request(Environment::Dev, policy));
    assert_eq!(pipeline.step(&exited("develop\n", 128)), Action::Abort(DeployError::BranchMismatch));
}

#[test]
fn dirty_tree_aborts() {
    let policy = VersionPolicy::Explicit("v1.0.0".to_string());
    let mut pipeline = Pipeline::new(config(), ProjectVariant::next(), request(Environment::Dev, policy));
    let actions = drive(&mut pipeline, &[exited("develop", 0), exited(" M src/main.rs\n", 0), ok()]);
    assert_eq!(actions[2], Action::Abort(DeployError::DirtyTree));
    assert_eq!(actions[3], Action::Abort(DeployError::DirtyTree));
}

#[test]
fn status_query_that_fails_counts_as_a_dirty_tree() {
    let policy = VersionPolicy::Explicit("v1.0.0".to_string());
    let mut pipeline = Pipeline::new(config(), ProjectVariant::next(), request(Environment::Dev, policy));
    let actions = drive(&mut pipeline, &[exited("develop", 0), exited("", 128)]);
    assert_eq!(actions[2], Action::Abort(DeployError::DirtyTree));
}

#[test]
fn unpushed_commits_abort() {
    let policy = VersionPolicy::Explicit("v1.0.0".to_string());
    let mut pipeline = Pipeline::new(config(), ProjectVariant::next(), request(Environment::Dev, policy));
    let actions = drive(&mut pipeline, &[exited("develop", 0), ok(), exited("8f3c2e1\n", 0)]);
    assert_eq!(actions[3], Action::Abort(DeployError::UnpushedCommits));
}

#[test]
fn build_failure_prevents_any_upload() {
    let mut pipeline =
        Pipeline::new(config(), ProjectVariant::next(), request(Environment::Dev, VersionPolicy::Increment));
    let mut events = vec![exited(LISTING, 0), exited("develop\n", 0), ok(), ok(), exited("error TS2304", 1)];
    events.extend(vec![Event::Probed { present: vec![true, true] }, Event::Completed, Event::Completed, ok()]);
    let actions = drive(&mut pipeline, &events);
    assert_eq!(actions[5], Action::Abort(DeployError::BuildFailed));
    assert!(actions
        .iter()
        .all(|action| !matches!(action, Action::Upload { .. } | Action::Archive { .. })));
    assert_eq!(pipeline.outcome(), Some(Err(DeployError::BuildFailed)));
}

#[test]
fn missing_directory_prevents_archive_and_upload() {
    let mut pipeline =
        Pipeline::new(config(), ProjectVariant::next(), request(Environment::Dev, VersionPolicy::Increment));
    let mut events = build_events();
    events[5] = Event::Probed { present: vec![true, false] };
    let actions = drive(&mut pipeline, &events);
    assert_eq!(actions[6], Action::Abort(DeployError::MissingArtifact));
    assert!(actions
        .iter()
        .all(|action| !matches!(action, Action::Upload { .. } | Action::Archive { .. })));
    assert_eq!(pipeline.stage(), Stage::Failed(DeployError::MissingArtifact));
}

#[test]
fn probe_must_answer_for_every_directory() {
    for present in [vec![], vec![true], vec![true, true, true], vec![false, true]] {
        let mut pipeline = Pipeline::new(
            config(),
            ProjectVariant::next(),
            request(Environment::Dev, VersionPolicy::Increment),
        );
        let mut events = build_events();
        events.truncate(5);
        events.push(Event::Probed { present });
        let actions = drive(&mut pipeline, &events);
        assert_eq!(actions[6], Action::Abort(DeployError::MissingArtifact));
    }
}

#[test]
fn compression_failure_ends_the_run() {
    let mut pipeline =
        Pipeline::new(config(), ProjectVariant::next(), request(Environment::Dev, VersionPolicy::Increment));
    let mut events = build_events();
    events[6] = Event::Aborted(DeployError::Compression);
    let actions = drive(&mut pipeline, &events);
    assert_eq!(actions[7], Action::Abort(DeployError::Compression));
    assert_eq!(actions[8], Action::Abort(DeployError::Compression));
}

#[test]
fn upload_failure_prevents_activation() {
    let mut pipeline =
        Pipeline::new(config(), ProjectVariant::next(), request(Environment::Dev, VersionPolicy::Increment));
    let mut events = build_events();
    events[7] = Event::Aborted(DeployError::Transfer);
    events.extend(vec![ok(), ok(), ok()]);
    let actions = drive(&mut pipeline, &events);
    assert_eq!(actions[8], Action::Abort(DeployError::Transfer));
    assert!(actions[1..].iter().all(|action| !matches!(action, Action::Remote { .. })));
    assert_eq!(pipeline.stage(), Stage::Failed(DeployError::Transfer));
}

#[test]
fn replay_skips_everything_before_activation() {
    let policy = VersionPolicy::Replay("v1.1.5.zip".to_string());
    let mut pipeline = Pipeline::new(config(), ProjectVariant::next(), request(Environment::Dev, policy));
    assert_eq!(pipeline.stage(), Stage::Activating(Step::Probe));
    assert_eq!(pipeline.archive(), "v1.1.5.zip");
    let actions = drive(&mut pipeline, &[ok(), ok(), ok(), ok(), ok(), ok(), ok()]);
    assert_eq!(actions[0], remote("cd / && [ -d /srv/www/app ]"));
    assert_eq!(actions[1], remote("cp /srv/history/v1.1.5.zip /srv/www/app/v1.1.5.zip"));
    assert!(actions
        .iter()
        .all(|action| matches!(action, Action::Remote { .. } | Action::Finish)));
    assert_eq!(actions.len(), 8);
    assert_eq!(actions[7], Action::Finish);
}

#[test]
fn directory_is_created_only_when_the_test_fails() {
    let policy = VersionPolicy::Replay("v1.0.0.zip".to_string());
    let mut present =
        Pipeline::new(config(), ProjectVariant::admin(), request(Environment::Dev, policy.clone()));
    assert_eq!(present.step(&ok()), remote("cp /srv/history/v1.0.0.zip /srv/www/app/v1.0.0.zip"));
    assert_eq!(present.stage(), Stage::Activating(Step::Copy));

    let mut absent = Pipeline::new(config(), ProjectVariant::admin(), request(Environment::Dev, policy));
    assert_eq!(absent.step(&exited("", 1)), remote("mkdir -p /srv/www/app"));
    assert_eq!(absent.stage(), Stage::Activating(Step::Mkdir));
    assert_eq!(absent.step(&ok()), remote("cp /srv/history/v1.0.0.zip /srv/www/app/v1.0.0.zip"));
}

#[test]
fn every_activation_command_is_fatal_when_it_fails() {
    for failing in 1..8 {
        let policy = VersionPolicy::Replay("v1.0.0.zip".to_string());
        let mut pipeline = Pipeline::new(config(), ProjectVariant::next(), request(Environment::Dev, policy));
        let mut last = pipeline.step(&exited("", 1));
        for index in 1..=failing {
            let status = if index == failing { 7 } else { 0 };
            last = pipeline.step(&exited("", status));
        }
        assert_eq!(last, Action::Abort(DeployError::RemoteCommand { status: 7 }));
        assert_eq!(pipeline.step(&ok()), Action::Abort(DeployError::RemoteCommand { status: 7 }));
    }
}

#[test]
fn lost_connection_ends_the_run_at_any_stage() {
    for steps in 0..6 {
        let policy = VersionPolicy::Replay("v1.0.0.zip".to_string());
        let mut pipeline = Pipeline::new(config(), ProjectVariant::next(), request(Environment::Dev, policy));
        for _ in 0..steps {
            pipeline.step(&ok());
        }
        assert_eq!(
            pipeline.step(&Event::Aborted(DeployError::Connection)),
            Action::Abort(DeployError::Connection)
        );
    }
}

#[test]
fn event_that_does_not_answer_the_action_fails_the_run() {
    let mut pipeline =
        Pipeline::new(config(), ProjectVariant::next(), request(Environment::Dev, VersionPolicy::Increment));
    assert_eq!(pipeline.step(&Event::Completed), Action::Abort(DeployError::UnexpectedEvent));

    let mut pipeline =
        Pipeline::new(config(), ProjectVariant::next(), request(Environment::Dev, VersionPolicy::Increment));
    let events = build_events();
    drive(&mut pipeline, &events[..5]);
    assert_eq!(pipeline.stage(), Stage::Packaging(Pack::Probe));
    assert_eq!(pipeline.step(&ok()), Action::Abort(DeployError::UnexpectedEvent));

    let policy = VersionPolicy::Replay("v1.0.0.zip".to_string());
    let mut pipeline = Pipeline::new(config(), ProjectVariant::next(), request(Environment::Dev, policy));
    assert_eq!(
        pipeline.step(&Event::Probed { present: vec![true] }),
        Action::Abort(DeployError::UnexpectedEvent)
    );
}

#[test]
fn finished_run_ignores_further_events() {
    let policy = VersionPolicy::Replay("v1.0.0.zip".to_string());
    let mut pipeline = Pipeline::new(config(), ProjectVariant::admin(), request(Environment::Dev, policy));
    drive(&mut pipeline, &[ok(), ok(), ok(), ok()]);
    assert_eq!(pipeline.stage(), Stage::Done);
    assert_eq!(pipeline.step(&exited("", 1)), Action::Finish);
    assert_eq!(pipeline.step(&Event::Aborted(DeployError::Connection)), Action::Finish);
    assert_eq!(pipeline.stage(), Stage::Done);
}

#[test]
fn stages_are_passed_in_order() {
    let mut pipeline =
        Pipeline::new(config(), ProjectVariant::next(), request(Environment::Dev, VersionPolicy::Increment));
    let mut events = build_events();
    events.extend(vec![ok(), ok(), ok(), ok(), ok(), ok(), ok()]);
    let mut stages = vec![pipeline.stage()];
    for event in &events {
        pipeline.step(event);
        stages.push(pipeline.stage());
    }
    let expected = vec![
        Stage::Resolving,
        Stage::Preflight(Check::Branch),
        Stage::Preflight(Check::WorkingTree),
        Stage::Preflight(Check::Upstream),
        Stage::Building,
        Stage::Packaging(Pack::Probe),
        Stage::Packaging(Pack::Archive),
        Stage::Uploading,
        Stage::Activating(Step::Probe),
        Stage::Activating(Step::Copy),
        Stage::Activating(Step::Extract),
        Stage::Activating(Step::Post(0)),
        Stage::Activating(Step::Post(1)),
        Stage::Activating(Step::Post(2)),
        Stage::Activating(Step::Reload),
        Stage::Done,
    ];
    assert_eq!(stages, expected);
}

#[test]
fn aborted_action_fails_the_run_with_the_reason_given() {
    let reasons = [
        DeployError::Connection,
        DeployError::Auth,
        DeployError::ConfigMissing,
        DeployError::Parse,
        DeployError::BranchMismatch,
        DeployError::DirtyTree,
        DeployError::UnpushedCommits,
        DeployError::LocalCommand,
        DeployError::BuildFailed,
        DeployError::MissingArtifact,
        DeployError::Compression,
        DeployError::Transfer,
        DeployError::RemoteCommand { status: -1 },
        DeployError::InvalidVersion,
        DeployError::UnexpectedEvent,
    ];
    for reason in reasons {
        let mut pipeline =
            Pipeline::new(config(), ProjectVariant::next(), request(Environment::Dev, VersionPolicy::Increment));
        assert_eq!(pipeline.failed_at(), None);
        assert_eq!(pipeline.step(&Event::Aborted(reason)), Action::Abort(reason));
        assert_eq!(pipeline.stage(), Stage::Failed(reason));
        assert_eq!(pipeline.failed_at(), Some(Stage::Resolving));
        assert_eq!(pipeline.outcome(), Some(Err(reason)));
        assert_eq!(pipeline.step(&ok()), Action::Abort(reason));
    }
}

#[test]
fn failure_records_the_stage_at_which_it_came() {
    // The same reason, from the listing and from each command of activation.
    let mut pipeline =
        Pipeline::new(config(), ProjectVariant::next(), request(Environment::Dev, VersionPolicy::Increment));
    pipeline.step(&exited("", 3));
    assert_eq!(pipeline.stage(), Stage::Failed(DeployError::RemoteCommand { status: 3 }));
    assert_eq!(pipeline.failed_at(), Some(Stage::Resolving));

    let steps = [
        Step::Mkdir,
        Step::Copy,
        Step::Extract,
        Step::Post(0),
        Step::Post(1),
        Step::Post(2),
        Step::Reload,
    ];
    for (index, step) in steps.iter().enumerate() {
        let policy = VersionPolicy::Replay("v1.0.0.zip".to_string());
        let mut pipeline = Pipeline::new(config(), ProjectVariant::next(), request(Environment::Dev, policy));
        pipeline.step(&exited("", 1));
        for _ in 0..index {
            pipeline.step(&ok());
            assert_eq!(pipeline.failed_at(), None);
        }
        assert_eq!(pipeline.stage(), Stage::Activating(*step));
        pipeline.step(&exited("", 3));
        assert_eq!(pipeline.stage(), Stage::Failed(DeployError::RemoteCommand { status: 3 }));
        assert_eq!(pipeline.failed_at(), Some(Stage::Activating(*step)));
        pipeline.step(&ok());
        assert_eq!(pipeline.failed_at(), Some(Stage::Activating(*step)));
    }
}

#[test]
fn failure_of_each_local_stage_records_that_stage() {
    let cases: Vec<(usize, Event, DeployError, Stage)> = vec![
        (1, exited("main\n", 0), DeployError::BranchMismatch, Stage::Preflight(Check::Branch)),
        (2, exited("M a\n", 0), DeployError::DirtyTree, Stage::Preflight(Check::WorkingTree)),
        (3, exited("abc\n", 0), DeployError::UnpushedCommits, Stage::Preflight(Check::Upstream)),
        (3, Event::Aborted(DeployError::LocalCommand), DeployError::LocalCommand, Stage::Preflight(Check::Upstream)),
        (4, exited("", 2), DeployError::BuildFailed, Stage::Building),
        (5, Event::Probed { present: vec![false, true] }, DeployError::MissingArtifact, Stage::Packaging(Pack::Probe)),
        (6, Event::Aborted(DeployError::Compression), DeployError::Compression, Stage::Packaging(Pack::Archive)),
        (7, Event::Aborted(DeployError::Transfer), DeployError::Transfer, Stage::Uploading),
        (7, ok(), DeployError::UnexpectedEvent, Stage::Uploading),
        (8, Event::Aborted(DeployError::Connection), DeployError::Connection, Stage::Activating(Step::Probe)),
    ];
    for (passed, event, error, stage) in cases {
        let mut pipeline = Pipeline::new(
            config(),
            ProjectVariant::next(),
            request(Environment::Dev, VersionPolicy::Increment),
        );
        drive(&mut pipeline, &build_events()[..passed]);
        assert_eq!(pipeline.stage(), stage);
        assert_eq!(pipeline.failed_at(), None);
        assert_eq!(pipeline.step(&event), Action::Abort(error));
        assert_eq!(pipeline.failed_at(), Some(stage));
    }
}

#[test]
fn invalid_explicit_version_fails_at_resolving() {
    for text in ["1.2", "vv1.2.3", "v1.2.3.zip.zip", ""] {
        let policy = VersionPolicy::Explicit(text.to_string());
        let pipeline = Pipeline::new(config(), ProjectVariant::next(), request(Environment::Dev, policy));
        assert_eq!(pipeline.stage(), Stage::Failed(DeployError::InvalidVersion));
        assert_eq!(pipeline.failed_at(), Some(Stage::Resolving));
    }
}

#[test]
fn successful_run_records_no_failure() {
    let policy = VersionPolicy::Replay("v1.0.0.zip".to_string());
    let mut pipeline = Pipeline::new(config(), ProjectVariant::admin(), request(Environment::Dev, policy));
    drive(&mut pipeline, &[ok(), ok(), ok(), ok()]);
    assert_eq!(pipeline.stage(), Stage::Done);
    assert_eq!(pipeline.failed_at(), None);
}

#[test]
fn failed_queries_stop_the_run_before_the_build() {
    // Each of the three queries ending with another status than zero.
    for failing in 1..=3 {
        let mut pipeline = Pipeline::new(
            config(),
            ProjectVariant::next(),
            request(Environment::Dev, VersionPolicy::Increment),
        );
        let mut events = build_events();
        events[failing] = exited(if failing == 1 { "develop\n" } else { "" }, 128);
        let actions = drive(&mut pipeline, &events);
        assert!(actions.iter().all(|action| !matches!(action, Action::Build { .. })));
        assert!(matches!(pipeline.stage(), Stage::Failed(_)));
    }
}
