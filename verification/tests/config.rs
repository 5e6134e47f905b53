use deploy_pipeline::commands::{archive_path, build_args, check_args, copy, extract, mkdir, probe};
use deploy_pipeline::config::{clone_strings, Environment, ProjectVariant, Sshconfig};
use deploy_pipeline::error::DeployError;
use deploy_pipeline::pipeline::every_present;
use deploy_pipeline::preflight::Check;
use deploy_pipeline::resolve::{is_replay, VersionPolicy};
use deploy_pipeline::text::{chars_of, is_space, push_decimal, trimmed};

fn strings(items: &[&str]) -> Vec<String> {
    items.iter().map(|s| s.to_string()).collect()
}

#[test]
fn environments_have_names() {
    assert_eq!(Environment::Dev.name(), "dev");
    assert_eq!(Environment::Prod.name(), "prod");
    assert_eq!(Environment::from_name("dev"), Some(Environment::Dev));
    assert_eq!(Environment::from_name("prod"), Some(Environment::Prod));
    assert_eq!(Environment::from_name("DEV"), None);
    assert_eq!(Environment::from_name("staging"), None);
    assert_eq!(Environment::from_name(""), None);
}

#[test]
fn fixed_record_takes_a_local_path() {
    let record = Sshconfig {
        host: "h".to_string(),
        port: 2222,
        username: "u".to_string(),
        history_path: "/history".to_string(),
        output_path: "/output".to_string(),
        build: "build".to_string(),
        git_checkout: "main".to_string(),
    };
    let config = record.with_local_path("projects/site".to_string());
    assert_eq!(config.host, "h");
    assert_eq!(config.port, 2222);
    assert_eq!(config.username, "u");
    assert_eq!(config.history_path, "/history");
    assert_eq!(config.output_path, "/output");
    assert_eq!(config.build, "build");
    assert_eq!(config.git_checkout, "main");
    assert_eq!(config.local_path, "projects/site");
}

#[test]
fn variants_differ_in_directories_and_post_steps() {
    let site = ProjectVariant::admin();
    assert_eq!(site.source_dirs, strings(&["dist"]));
    assert!(site.post_steps(Environment::Dev).is_empty());
    assert!(site.post_steps(Environment::Prod).is_empty());
    assert_eq!(site.reload, "nginx -s reload");
    let server = ProjectVariant::next();
    assert_eq!(server.source_dirs, strings(&["dist", "prisma"]));
    assert_eq!(
        *server.post_steps(Environment::Dev),
        strings(&[
            "cd /home/www/jobabc-internal && npx prisma db pull",
            "cd /home/www/jobabc-internal && npx prisma generate",
            "pm2 restart jobabc-internal-dev",
        ])
    );
    assert_eq!(
        *server.post_steps(Environment::Prod),
        strings(&[
            "cd /home/www/jobabc-internal && npx prisma migrate deploy",
            "cd /home/www/jobabc-internal && npx prisma generate",
            "pm2 restart jobabc-internal",
        ])
    );
}

#[test]
fn builds_the_remote_commands() {
    assert_eq!(probe("/srv/app"), "cd / && [ -d /srv/app ]");
    assert_eq!(mkdir("/srv/app"), "mkdir -p /srv/app");
    assert_eq!(copy("/h", "/o", "v1.0.0.zip"), "cp /h/v1.0.0.zip /o/v1.0.0.zip");
    assert_eq!(
        extract("/o", "v1.0.0.zip", &strings(&["dist", "prisma"])),
        "cd /o && unzip -o v1.0.0.zip && rm v1.0.0.zip && chmod -R 755 dist prisma"
    );
    assert_eq!(
        extract("/o", "a.zip", &strings(&[])),
        "cd /o && unzip -o a.zip && rm a.zip && chmod -R 755"
    );
    assert_eq!(archive_path("/h", "v1.0.0.zip"), "/h/v1.0.0.zip");
}

#[test]
fn builds_the_local_command_lines() {
    assert_eq!(check_args(Check::Branch), strings(&["branch", "--show-current"]));
    assert_eq!(check_args(Check::WorkingTree), strings(&["status", "--porcelain"]));
    assert_eq!(check_args(Check::Upstream), strings(&["rev-list", "@{u}..HEAD"]));
    assert_eq!(build_args("build:prod"), strings(&["run", "build:prod"]));
}

#[test]
fn judges_the_branch() {
    assert_eq!(Check::Branch.judge("main\n", 0, "main"), Ok(()));
    assert_eq!(Check::Branch.judge(" \tmain\r\n", 0, "main"), Ok(()));
    assert_eq!(Check::Branch.judge("main", 0, "main"), Ok(()));
    assert_eq!(Check::Branch.judge("Main\n", 0, "main"), Err(DeployError::BranchMismatch));
    assert_eq!(Check::Branch.judge("main2\n", 0, "main"), Err(DeployError::BranchMismatch));
    assert_eq!(Check::Branch.judge("", 0, "main"), Err(DeployError::BranchMismatch));
    assert_eq!(Check::Branch.judge("main\n", 1, "main"), Err(DeployError::BranchMismatch));
    assert_eq!(Check::Branch.judge("feature one\n", 0, "feature one"), Ok(()));
}

#[test]
fn judges_tree_and_upstream() {
    assert_eq!(Check::WorkingTree.judge("", 0, "main"), Ok(()));
    assert_eq!(Check::WorkingTree.judge("?? new.txt\n", 0, "main"), Err(DeployError::DirtyTree));
    assert_eq!(Check::WorkingTree.judge("\n", 0, "main"), Err(DeployError::DirtyTree));
    assert_eq!(Check::WorkingTree.judge("", 128, "main"), Err(DeployError::DirtyTree));
    assert_eq!(Check::Upstream.judge("", 0, "main"), Ok(()));
    assert_eq!(Check::Upstream.judge("abc123\n", 0, "main"), Err(DeployError::UnpushedCommits));
    assert_eq!(Check::Upstream.judge("", 128, "main"), Err(DeployError::UnpushedCommits));
}

#[test]
fn checks_follow_one_another() {
    assert_eq!(Check::Branch.next(), Some(Check::WorkingTree));
    assert_eq!(Check::WorkingTree.next(), Some(Check::Upstream));
    assert_eq!(Check::Upstream.next(), None);
}

#[test]
fn tells_replays_apart() {
    assert!(is_replay(&VersionPolicy::Replay("v1.0.0.zip".to_string())));
    assert!(!is_replay(&VersionPolicy::Increment));
    assert!(!is_replay(&VersionPolicy::Explicit("v1.0.0".to_string())));
}

#[test]
fn trims_white_space_at_both_ends() {
    assert_eq!(trimmed("  a b  "), "a b");
    assert_eq!(trimmed("\n\tmain\r\n"), "main");
    assert_eq!(trimmed("\u{3000}x\u{a0}"), "x");
    assert_eq!(trimmed(""), "");
    assert_eq!(trimmed(" \n "), "");
    assert_eq!(trimmed("\u{200b}x"), "\u{200b}x");
    for text in ["  a b  ", "\u{1680}x\u{2028}\u{2029}", "\u{85}y\u{202f}\u{205f}", "\u{1c}z\u{1f}"] {
        assert_eq!(trimmed(text), text.trim());
    }
}

#[test]
fn white_space_is_what_the_standard_library_says() {
    for code in 0..0x11_0000u32 {
        if let Some(c) = char::from_u32(code) {
            assert_eq!(is_space(c), c.is_whitespace(), "U+{:04X}", code);
        }
    }
}

#[test]
fn writes_numbers_in_decimal() {
    for n in [0u32, 1, 9, 10, 11, 99, 100, 101, 4096, 1_000_000, u32::MAX] {
        let mut out = String::from("n=");
        push_decimal(&mut out, n);
        assert_eq!(out, format!("n={}", n));
    }
}

#[test]
fn copies_and_counts() {
    assert_eq!(chars_of("a\u{e9}z"), vec!['a', '\u{e9}', 'z']);
    assert_eq!(clone_strings(&strings(&["a", "b"])), strings(&["a", "b"]));
    assert!(every_present(&vec![true, true], 2));
    assert!(every_present(&vec![], 0));
    assert!(!every_present(&vec![true, true], 3));
    assert!(!every_present(&vec![true, false], 2));
}

#[test]
fn environments_name_their_variables_and_keys() {
    assert_eq!(Environment::Dev.host_variable(), "DEV_HOST");
    assert_eq!(Environment::Prod.host_variable(), "PROD_HOST");
    assert_eq!(Environment::Dev.username_variable(), "DEV_USERNAME");
    assert_eq!(Environment::Prod.username_variable(), "PROD_USERNAME");
    assert_eq!(Environment::Dev.key_path(), strings(&[".ssh", "id_rsa"]));
    assert_eq!(Environment::Prod.key_path(), strings(&["jobabc", "job123"]));
}

#[test]
fn fixed_record_is_completed_with_the_fixed_path() {
    let record = Sshconfig {
        host: "h".to_string(),
        port: 22,
        username: "u".to_string(),
        history_path: "/history".to_string(),
        output_path: "/output".to_string(),
        build: "build".to_string(),
        git_checkout: "main".to_string(),
    };
    let config = record.clone().complete();
    assert_eq!(config.local_path, "jobabc/jobabc-internal-admin");
    assert_eq!(config, record.with_local_path("jobabc/jobabc-internal-admin".to_string()));
}
