//! What a host keeps, checks and prepares before a run: secrets, the
//! preflight, checks, workspaces, pushes, logs and the worker's own words.

use std::cell::RefCell;
use std::rc::Rc;

use epik::agent::claude_code::Update;
use epik::agent::coding::Budget;
use epik::agent::Exit;
use epik::check::{detect, judged, Check, Markers, Ran};
use epik::config::{Config, GitHub as GitHubSection, Model};
use epik::event::Money;
use epik::forge::{askpass_name, push, Credentials, Forge, GitHub, ASKPASS};
use epik::git::{argv, base_commit, settled, tool_answer, NO_PROMPT, PERSONA_EMAIL, PERSONA_NAME};
use epik::github::{Error as GitHubError, Issue, Repo, State};
use epik::ipc::command;
use epik::ipc::CHANNEL;
use epik::job::{
    default_branch, holder, locate, located, positional, provision, worktree_name, Commits, Event, Order,
    Phase, Provisioning, Record, Workspace, NARRATION_CAP, PREAMBLE, STDERR_CAP,
};
use epik::json::Json;
use epik::keystore::{InMemory, KeyStore, Resolved, Secret};
use epik::launch::{launch_feature, Error, Launch, LaunchFeature, Launcher, Provisioned};
use epik::logs::{civil, stamp, Date, Kind, Logs};
use epik::preflight::{
    binary, candidates, explicit, git, github_token, held, hunt, join, manifest, shimmed, version,
    versioned, Capability, CapabilityStatus, Standing,
};
use epik::run::{FeatureVerdict, Verdict};
use epik::worker::{
    clone_url, configured, credentialed, Cli, Ending, Job, Retained, Run, PATIENCE, USAGE_LINE,
};

// ----- the keystore -----

/// A machine with no secret service: every question is refused.
struct Unplugged;

impl KeyStore for Unplugged {
    fn get(&self, _: &str) -> Result<Option<Secret>, String> {
        Err("no default store has been set".to_owned())
    }

    fn set(&mut self, _: &str, _: Secret) -> Result<(), String> {
        Err("no default store has been set".to_owned())
    }
}

/// A store that remembers what it was asked.
#[derive(Default)]
struct Counting {
    reads: Rc<RefCell<Vec<String>>>,
}

impl KeyStore for Counting {
    fn get(&self, name: &str) -> Result<Option<Secret>, String> {
        self.reads.borrow_mut().push(name.to_owned());
        Ok(None)
    }

    fn set(&mut self, _: &str, _: Secret) -> Result<(), String> {
        Ok(())
    }
}

#[test]
fn an_unknown_name_has_no_secret_rather_than_an_error() {
    let store = InMemory::default();
    assert!(store.get("anthropic").unwrap() == None);
}

#[test]
fn a_stored_secret_comes_back() {
    let mut store = InMemory::default();
    store.set("anthropic", "sk-stored".into()).unwrap();
    assert!(store.get("anthropic").unwrap() == Some("sk-stored".into()));
}

#[test]
fn a_secret_stored_again_replaces_the_first() {
    let mut store = InMemory::default();
    store.set("anthropic", "sk-old".into()).unwrap();
    store.set("anthropic", "sk-new".into()).unwrap();
    assert!(store.get("anthropic").unwrap() == Some("sk-new".into()));
}

#[test]
fn secrets_are_filed_per_name() {
    let mut store = InMemory::default();
    store.set("anthropic", "sk-anthropic".into()).unwrap();
    store.set("groq", "gsk-groq".into()).unwrap();
    assert!(store.get("anthropic").unwrap() == Some("sk-anthropic".into()));
    assert!(store.get("groq").unwrap() == Some("gsk-groq".into()));
}

#[test]
fn resolution_reports_the_three_states_it_can_be_in() {
    let mut store = InMemory::default();
    store.set("kept", "sk-kept".into()).unwrap();

    assert!(store.resolve("kept") == Resolved::Found("sk-kept".into()));
    assert!(store.resolve("never-stored") == Resolved::Absent);
}

#[test]
fn a_store_that_will_not_answer_is_a_state_rather_than_a_failure() {
    let store = Unplugged;

    let Resolved::Unreachable(reason) = store.resolve("anthropic") else {
        panic!("a broken store should resolve to Unreachable");
    };
    assert!(reason.contains("no default store"), "{reason}");

    assert!(
        store.get("anthropic").is_err(),
        "the strict reading is still available to a caller that wants it"
    );
}

#[test]
fn resolution_yields_the_secret_a_caller_takes() {
    assert!(Resolved::Found("sk-x".into()).key() == Some("sk-x".into()));
    assert!(Resolved::Absent.key() == None);
    assert!(Resolved::Unreachable("broken".to_owned()).key() == None);
}

#[test]
fn debug_formatting_a_secret_yields_a_redaction_rather_than_the_bytes() {
    let secret = Secret::from("sk-super-secret");
    let debugged = secret.debug();

    assert!(!debugged.contains("sk-super-secret"), "{debugged}");
    assert_eq!(debugged, "[redacted]");
}

#[test]
fn debug_formatting_a_store_never_yields_the_secrets_it_holds() {
    let mut store = InMemory::default();
    store.set("anthropic", "sk-super-secret".into()).unwrap();
    let debugged = store.debug();

    assert!(!debugged.contains("sk-super-secret"), "{debugged}");
    assert!(
        debugged.contains("anthropic"),
        "the name is not the secret: {debugged}"
    );
}

// ----- the preflight -----

#[test]
fn a_refusal_renders_the_capability_and_the_locations_searched() {
    let absent = CapabilityStatus {
        capability: Capability::Git,
        standing: Standing::Absent {
            searched: vec!["/a/git".to_owned(), "/b/git".to_owned()],
        },
    };
    assert_eq!(absent.to_string(), "git is absent: searched /a/git, /b/git");

    let unfit = CapabilityStatus {
        capability: Capability::GithubToken,
        standing: Standing::Unfit {
            at: "the Epik/github keyring entry".to_owned(),
            reason: "no secret service".to_owned(),
        },
    };
    assert_eq!(
        unfit.to_string(),
        "the GitHub token at the Epik/github keyring entry is unfit: no secret service"
    );

    let nowhere = CapabilityStatus {
        capability: Capability::Agent {
            binary: "coder".to_owned(),
        },
        standing: Standing::Absent {
            searched: Vec::new(),
        },
    };
    assert_eq!(
        nowhere.to_string(),
        "the agent's coder is absent, with nowhere to search"
    );
}

#[test]
fn git_versions_parse_in_plain_and_apple_flavors() {
    assert_eq!(version("git version 2.42.0\n"), Some((2, 42)));
    assert_eq!(
        version("git version 2.39.3 (Apple Git-146)\n"),
        Some((2, 39))
    );
    assert_eq!(version("zsh: command not found: git"), None);
    assert_eq!(version("git version mystery"), None);
}

#[test]
fn a_version_must_be_two_numbers_that_fit() {
    assert_eq!(version("git version 2"), None);
    assert_eq!(version("git version 2."), None);
    assert_eq!(version("git version 2..30"), None);
    assert_eq!(version("git version 4294967296.1"), None);
    assert_eq!(
        version("git version 4294967295.0"),
        Some((4_294_967_295, 0))
    );
}

#[test]
fn a_git_is_held_to_the_floor() {
    let said = |words: &str| versioned("/usr/bin/git", &Ok(words.to_owned()));
    assert_eq!(
        said("git version 2.30.0\n"),
        Standing::Present {
            at: "/usr/bin/git".to_owned()
        }
    );
    assert_eq!(
        said("git version 2.29.9\n"),
        Standing::Unfit {
            at: "/usr/bin/git".to_owned(),
            reason: "version 2.29 is beneath the floor 2.30".to_owned(),
        }
    );
    assert!(matches!(said("git version 1.99"), Standing::Unfit { .. }));
    assert!(matches!(said("git version 3.0"), Standing::Present { .. }));
    assert_eq!(
        said("who's asking?\n"),
        Standing::Unfit {
            at: "/usr/bin/git".to_owned(),
            reason: "did not name its version: \"who's asking?\"".to_owned(),
        }
    );
    assert_eq!(
        versioned("/usr/bin/git", &Err("no such file".to_owned())),
        Standing::Unfit {
            at: "/usr/bin/git".to_owned(),
            reason: "would not start: no such file".to_owned(),
        }
    );
    let Standing::Unfit { reason, .. } = shimmed("/usr/bin/git") else {
        panic!("a shim is never present");
    };
    assert!(reason.contains("xcode-select -p"), "{reason}");
}

#[test]
fn a_bare_name_is_hunted_down_path_naming_every_stop() {
    let stops = candidates("present", "/empty:/tools");
    assert_eq!(stops, ["/empty/present", "/tools/present"]);

    let (searched, found) = hunt(&stops, &vec![false, true], explicit("present"));
    assert_eq!(found.as_deref(), Some("/tools/present"));
    assert_eq!(searched, ["/empty/present"], "the hunt stops where it finds");

    let missing = candidates("missing", "/empty:/tools");
    let (searched, found) = hunt(&missing, &vec![false, false], explicit("missing"));
    assert_eq!(found, None);
    assert_eq!(
        searched,
        ["/empty/missing", "/tools/missing"],
        "a fruitless hunt names every stop"
    );
}

#[test]
fn an_explicit_path_answers_for_itself_without_consulting_path() {
    let stops = candidates("/tools/coder", "/decoys");
    assert_eq!(stops, ["/tools/coder"]);
    let (_, found) = hunt(&stops, &vec![true], explicit("/tools/coder"));
    assert_eq!(found.as_deref(), Some("/tools/coder"));

    let bogus = candidates("/tools/nowhere", "/decoys");
    let (searched, found) = hunt(&bogus, &vec![false], explicit("/tools/nowhere"));
    assert_eq!(found, None);
    assert_eq!(
        searched,
        ["/tools/nowhere"],
        "an explicit spelling is the whole search"
    );
}

#[test]
fn an_unset_or_empty_path_searches_nowhere_never_the_cwd() {
    let stops = candidates("git", "");
    assert_eq!(stops, Vec::<String>::new());
    let (searched, found) = hunt(&stops, &Vec::new(), explicit("git"));
    assert_eq!(found, None);
    assert_eq!(
        searched,
        Vec::<String>::new(),
        "an empty PATH component is not the cwd"
    );
    assert_eq!(candidates("git", ":/bin/::"), ["/bin/git"]);
}

#[test]
fn a_path_is_explicit_when_it_names_a_directory() {
    for spelling in ["/bin/git", "./git", "bin/git", "a/b/", "//x"] {
        assert!(explicit(spelling), "{spelling}");
    }
    for spelling in ["git", "git/", "git/.", "git//", ".", "/", "", "./."] {
        assert!(!explicit(spelling), "{spelling}");
    }
    assert_eq!(join("/a", "b"), "/a/b");
    assert_eq!(join("/a/", "b"), "/a/b");
    assert_eq!(join("/a", "/b"), "/b");
}

#[test]
fn a_layer_is_held_to_its_refusals_in_order() {
    let present = || git(Vec::new(), Some(Standing::Present { at: "/git".to_owned() }));
    let absent = |name: &str| binary(name, vec![format!("/bin/{name}")], None);
    assert_eq!(held(vec![present()]), Ok(()));
    assert_eq!(held(Vec::new()), Ok(()));
    assert_eq!(
        held(vec![absent("a"), present(), absent("b")]),
        Err(vec![absent("a"), absent("b")])
    );
    assert_eq!(
        git(vec!["/bin/git".to_owned()], None).to_string(),
        "git is absent: searched /bin/git"
    );
}

#[test]
fn the_token_rails_name_where_they_looked_and_hand_over_what_they_found() {
    // The environment answers first, and the store is never touched —
    // one read per secret is a promise worth keeping.
    let counting = Counting::default();
    let reads = Rc::clone(&counting.reads);
    let (status, token) = github_token(Some("ghp-env".into()), &counting);
    assert!(token == Some("ghp-env".into()));
    let Standing::Present { at } = &status.standing else {
        panic!("an environment token is present: {status:?}");
    };
    assert!(at.contains("EPIK_GITHUB_TOKEN"), "{at}");
    assert!(reads.borrow().is_empty(), "the keyring went unconsulted");

    // A stored token comes back naming the keyring.
    let mut stored = InMemory::default();
    stored.set("github", "ghp-kept".into()).unwrap();
    let (status, token) = github_token(None, &stored);
    assert!(token == Some("ghp-kept".into()));
    assert!(matches!(
        &status.standing,
        Standing::Present { at } if at.contains("Epik/github")
    ));

    // Nothing anywhere names both rails.
    let (status, token) = github_token(None, &InMemory::default());
    assert!(token == None);
    let Standing::Absent { searched } = &status.standing else {
        panic!("no token anywhere is absent: {status:?}");
    };
    assert!(searched
        .iter()
        .any(|stop| stop.contains("EPIK_GITHUB_TOKEN")));
    assert!(searched.iter().any(|stop| stop.contains("Epik/github")));

    // An empty override is no override.
    let (status, token) = github_token(Some("".into()), &InMemory::default());
    assert!(token == None);
    assert!(matches!(status.standing, Standing::Absent { .. }));

    // An empty keyring entry is no token either: absent, the keyring
    // named among the places searched.
    let mut hollow = InMemory::default();
    hollow.set("github", "".into()).unwrap();
    let (status, token) = github_token(None, &hollow);
    assert!(token == None);
    let Standing::Absent { searched } = &status.standing else {
        panic!("an empty entry is absence, not presence: {status:?}");
    };
    assert!(searched.iter().any(|stop| stop.contains("Epik/github")));

    // A keyring that will not answer is unfit, not absent.
    let (status, token) = github_token(None, &Unplugged);
    assert!(token == None);
    assert!(matches!(
        &status.standing,
        Standing::Unfit { reason, .. } if reason.contains("no default store")
    ));
}

fn sound_git() -> Vec<CapabilityStatus> {
    vec![git(
        Vec::new(),
        Some(versioned(
            "/usr/bin/git",
            &Ok("git version 2.42.0\n".to_owned()),
        )),
    )]
}

#[test]
fn the_manifest_refuses_layer_by_layer_leaving_the_keystore_unconsulted() {
    // A git above the floor carries the first layer; the bogus agent
    // binary refuses the second, so the third — a keyring read, which on
    // macOS can be a permission dialog — never happens.
    let counting = Counting::default();
    let reads = Rc::clone(&counting.reads);
    let stops = candidates("/nowhere/coder", "/usr/bin");
    let (searched, found) = hunt(&stops, &vec![false], explicit("/nowhere/coder"));
    let agents = vec![binary("/nowhere/coder", searched, found)];

    let Err(refusals) = manifest(sound_git(), agents, None, &counting) else {
        panic!("a missing binary is refused");
    };

    let [refusal] = refusals.as_slice() else {
        panic!("exactly the agent's refusal: {refusals:?}");
    };
    assert_eq!(
        refusal.capability,
        Capability::Agent {
            binary: "/nowhere/coder".to_owned()
        }
    );
    assert!(matches!(&refusal.standing, Standing::Absent { searched }
        if searched == &["/nowhere/coder".to_owned()]));
    assert!(
        reads.borrow().is_empty(),
        "no keyring dialog behind a refusal"
    );
}

#[test]
fn a_passed_manifest_hands_over_the_token() {
    let mut store = InMemory::default();
    store.set("github", "ghp-kept".into()).unwrap();

    let Ok(token) = manifest(sound_git(), Vec::new(), None, &store) else {
        panic!("every layer stands");
    };

    assert!(token == Secret::from("ghp-kept"));
}

#[test]
fn a_manifest_without_a_token_is_its_one_refusal() {
    let Err(refusals) = manifest(sound_git(), Vec::new(), None, &InMemory::default()) else {
        panic!("there is no token anywhere");
    };
    assert_eq!(refusals.len(), 1);
    assert_eq!(
        refusals[0].to_string(),
        "the GitHub token is absent: searched $EPIK_GITHUB_TOKEN, the Epik/github keyring entry"
    );
}

// ----- checks -----

#[test]
fn a_zero_exit_is_green() {
    let verdict = judged(Ran::Ended {
        success: true,
        stdout: "checked\n".to_owned(),
        stderr: String::new(),
    });
    assert!(verdict.green);
    assert_eq!(verdict.output, "checked\n");
}

#[test]
fn anything_else_is_red_with_the_commands_own_words() {
    let verdict = judged(Ran::Ended {
        success: false,
        stdout: String::new(),
        stderr: "it broke\n".to_owned(),
    });
    assert!(!verdict.green);
    assert!(verdict.output.contains("it broke"), "{}", verdict.output);
    assert!(!judged(Ran::Unstarted("no sh".to_owned())).green);
    assert!(!judged(Ran::Unwaited("gone".to_owned())).green);
}

fn nothing() -> Markers {
    Markers {
        package_json: None,
        go_mod: false,
        pyproject_toml: false,
        pom_xml: false,
        makefile: None,
        cargo_toml: false,
    }
}

fn proposes(markers: &Markers, command: &str) {
    assert_eq!(
        detect(markers),
        Some(Check {
            command: command.to_owned()
        })
    );
}

#[test]
fn a_package_json_with_a_test_script_proposes_npm_test() {
    let package_json = Some(r#"{"scripts": {"test": "vitest run"}}"#.to_owned());
    proposes(
        &Markers {
            package_json,
            ..nothing()
        },
        "npm test",
    );
}

#[test]
fn a_package_json_without_a_test_script_is_no_marker() {
    let package_json = Some(r#"{"scripts": {"build": "tsc"}}"#.to_owned());
    assert_eq!(
        detect(&Markers {
            package_json,
            ..nothing()
        }),
        None
    );
}

#[test]
fn a_go_mod_proposes_go_test() {
    proposes(
        &Markers {
            go_mod: true,
            ..nothing()
        },
        "go test ./...",
    );
}

#[test]
fn a_pyproject_proposes_pytest() {
    proposes(
        &Markers {
            pyproject_toml: true,
            ..nothing()
        },
        "python -m pytest",
    );
}

#[test]
fn a_pom_proposes_mvn_test() {
    proposes(
        &Markers {
            pom_xml: true,
            ..nothing()
        },
        "mvn test",
    );
}

#[test]
fn a_makefile_with_a_test_target_proposes_make_test() {
    let makefile = Some("build:\n\tcc main.c\n\ntest: build\n\t./run\n".to_owned());
    proposes(
        &Markers {
            makefile,
            ..nothing()
        },
        "make test",
    );
}

#[test]
fn a_makefile_without_a_test_target_is_no_marker() {
    // `tests:` is a different target and `test :=` is a variable.
    let makefile = Some("tests:\n\t./run\ntest := nope\n".to_owned());
    assert_eq!(
        detect(&Markers {
            makefile,
            ..nothing()
        }),
        None
    );
}

#[test]
fn a_cargo_toml_proposes_cargo_test() {
    proposes(
        &Markers {
            cargo_toml: true,
            ..nothing()
        },
        "cargo test",
    );
}

#[test]
fn a_worktree_matching_no_marker_proposes_nothing() {
    assert_eq!(detect(&nothing()), None);
}

#[test]
fn the_first_marker_in_table_order_wins() {
    proposes(
        &Markers {
            package_json: Some(r#"{"scripts": {"test": "vitest run"}}"#.to_owned()),
            cargo_toml: true,
            ..nothing()
        },
        "npm test",
    );
}

// ----- workspaces -----

fn order(repository: &str, branch: &str) -> Order {
    Order {
        prompt: "build it".to_owned(),
        repository: repository.to_owned(),
        branch: branch.to_owned(),
        base: None,
    }
}

/// A git that answers by the verb it is asked, and what it was asked.
fn provisioned(order: &Order, bare: bool) -> (Result<Workspace, String>, Vec<String>) {
    let mut asked = Vec::new();
    let mut at = provision(order, "/w".to_owned());
    loop {
        match at {
            Provisioning::Ask(provision) => {
                let args = provision.args().join(" ");
                let answer = if args.ends_with("--absolute-git-dir") {
                    if args.contains("nowhere") {
                        Err("fatal: cannot change to it".to_owned())
                    } else {
                        Ok("/r/.git\n".to_owned())
                    }
                } else if args.contains("check-ref-format") && args.contains("..") {
                    Err("fatal: it holds two dots".to_owned())
                } else if args.contains("symbolic-ref") {
                    Ok("main\n".to_owned())
                } else if args.contains("nonesuch") {
                    Err("fatal: needed a single revision".to_owned())
                } else if args.contains("--verify") {
                    Ok("abc123\n".to_owned())
                } else if args.contains("--is-bare-repository") {
                    Ok(format!("{bare}\n"))
                } else if args.contains("--get core.bare") {
                    Ok("true\n".to_owned())
                } else if args.contains("worktree add") && args.contains("taken") {
                    Err("fatal: a branch named 'taken' already exists".to_owned())
                } else {
                    Ok(String::new())
                };
                asked.push(args);
                at = provision.next(answer);
            }
            Provisioning::Provisioned(workspace) => return (Ok(workspace), asked),
            Provisioning::Refused(words) => return (Err(words), asked),
        }
    }
}

#[test]
fn provisioning_adds_the_worktree_and_sets_the_persona_in_it_alone() {
    let (workspace, asked) = provisioned(&order("/r", "feature/wumpus"), false);
    assert_eq!(
        workspace,
        Ok(Workspace {
            repository: "/r".to_owned(),
            branch: "feature/wumpus".to_owned(),
            base_commit: "abc123".to_owned(),
            directory: "/w".to_owned(),
        })
    );
    assert_eq!(
        asked,
        vec![
            "-C /r rev-parse --absolute-git-dir".to_owned(),
            "-C /r check-ref-format --branch feature/wumpus".to_owned(),
            "-C /r symbolic-ref --short HEAD".to_owned(),
            "-C /r rev-parse --verify --end-of-options main^{commit}".to_owned(),
            "-C /r rev-parse --is-bare-repository".to_owned(),
            "-C /r config extensions.worktreeConfig true".to_owned(),
            "-C /r worktree add -b feature/wumpus /w abc123".to_owned(),
            format!("-C /w config --worktree user.name {PERSONA_NAME}"),
            format!("-C /w config --worktree user.email {PERSONA_EMAIL}"),
        ]
    );
}

#[test]
fn a_bare_repository_keeps_its_bareness_to_its_own_tree() {
    let (workspace, asked) = provisioned(&order("/r", "b"), true);
    assert!(workspace.is_ok());
    assert_eq!(
        asked[6..9],
        [
            "config --file /r/.git/config --get core.bare".to_owned(),
            "-C /r config --worktree core.bare true".to_owned(),
            "config --file /r/.git/config --unset core.bare".to_owned(),
        ]
    );
}

#[test]
fn a_branch_that_already_exists_is_refused_in_gits_words() {
    let error = provisioned(&order("/r", "taken"), false).0.unwrap_err();
    assert!(error.contains("taken"), "{error}");
    assert!(error.contains("already exists"), "{error}");
}

#[test]
fn a_named_base_is_where_the_branch_starts() {
    let mut second = order("/r", "second");
    second.base = Some("first".to_owned());
    let (workspace, asked) = provisioned(&second, false);
    assert_eq!(workspace.unwrap().base_commit, "abc123");
    assert_eq!(
        asked[2],
        "-C /r rev-parse --verify --end-of-options first^{commit}"
    );
}

#[test]
fn what_is_not_a_repository_is_refused_in_words() {
    let error = provisioned(&order("/nowhere", "b"), false).0.unwrap_err();
    assert!(error.contains("not a git repository"), "{error}");

    let error = provisioned(&order("relative/path", "b"), false)
        .0
        .unwrap_err();
    assert!(error.contains("absolute"), "{error}");
    assert!(locate("relative/path").is_err());
    assert!(located("/nowhere", &Err("fatal".to_owned())).is_err());
}

#[test]
fn a_bad_branch_or_base_is_refused_before_git_sees_a_flag() {
    let error = provisioned(&order("/r", "--force"), false).0.unwrap_err();
    assert!(error.contains("dash"), "{error}");
    let error = provisioned(&order("/r", "bad..name"), false).0.unwrap_err();
    assert!(error.contains("not a valid branch name"), "{error}");

    let mut missing = order("/r", "fine");
    missing.base = Some("nonesuch".to_owned());
    let error = provisioned(&missing, false).0.unwrap_err();
    assert!(error.contains("nonesuch"), "{error}");

    assert!(positional("base", "-x").is_err());
    assert_eq!(positional("base", "x"), Ok(()));
}

#[test]
fn a_worktree_is_named_after_its_branch_without_a_separator() {
    assert_eq!(
        worktree_name("feature/a\\b", 7, 42),
        "epik-build-feature-a-b-7-42"
    );
    assert_eq!(default_branch(&Ok("main\n".to_owned())), Ok("main".to_owned()));
    assert_eq!(
        default_branch(&Err("fatal".to_owned())),
        Err("the repository has no default branch: fatal".to_owned())
    );
}

#[test]
fn the_holder_of_a_branch_is_the_worktree_that_has_it_out() {
    let listing = "worktree /a\nHEAD 1\nbranch refs/heads/main\n\n\
                   worktree /b c\nHEAD 2\ndetached\n\n\
                   worktree /d\nHEAD 3\nbranch refs/heads/feature-7\n";
    assert_eq!(holder(listing, "feature-7").as_deref(), Some("/d"));
    assert_eq!(holder(listing, "main").as_deref(), Some("/a"));
    assert_eq!(holder(listing, "feature"), None);
    assert_eq!(holder("", "main"), None);
}

#[test]
fn the_brief_leads_with_the_preamble_and_names_the_branch() {
    let workspace = Workspace {
        repository: "/r".to_owned(),
        branch: "wumpus".to_owned(),
        base_commit: "abc".to_owned(),
        directory: "/w".to_owned(),
    };
    let brief = workspace.brief("Write hunt the wumpus.");
    assert!(brief.starts_with(PREAMBLE));
    assert!(brief.contains("Branch: wumpus"));
    assert!(brief.ends_with("Write hunt the wumpus."));
}

fn workspace() -> Workspace {
    Workspace {
        repository: "/r".to_owned(),
        branch: "b".to_owned(),
        base_commit: "abc".to_owned(),
        directory: "/w".to_owned(),
    }
}

#[test]
fn a_record_folds_narration_and_the_end_and_caps_what_it_keeps() {
    let mut record = Record::new(order("/r", "b"), workspace());
    record.absorb(Event::Started { pid: 1 });
    record.absorb(Event::Stdout {
        line: r#"{"type":"assistant","message":{"content":[{"type":"text","text":"hi"}]}}"#
            .to_owned(),
    });
    record.absorb(Event::Stdout {
        line: "not json".to_owned(),
    });
    record.absorb(Event::Stderr {
        line: "grumble".to_owned(),
    });
    assert_eq!(
        record.narration,
        [Update::Text {
            text: "hi".to_owned()
        }]
    );
    assert_eq!(record.stderr, ["grumble"]);
    assert_eq!(record.phase, Phase::Running);
    assert!(record.result().is_none());

    for _ in 0..(NARRATION_CAP + 5) {
        record.absorb(Event::Stdout {
            line: r#"{"type":"assistant","message":{"content":[{"type":"tool_use","name":"Write"}]}}"#
                .to_owned(),
        });
    }
    assert_eq!(record.narration.len(), NARRATION_CAP);
    assert!(
        matches!(record.narration[0], Update::ToolUse { .. }),
        "the oldest went first"
    );

    record.absorb(Event::Stdout {
        line: r#"{"type":"result","is_error":false,"result":"done","total_cost_usd":0.5}"#
            .to_owned(),
    });
    record.absorb(Event::Exited(Exit::Code(0)));
    assert!(matches!(
        record.result(),
        Some(Update::Result { ok: true, .. })
    ));
    assert_eq!(record.phase, Phase::Finished(Exit::Code(0)));
}

#[test]
fn a_records_stderr_is_capped_and_a_lost_agent_says_why() {
    let mut record = Record::new(order("/r", "b"), workspace());
    for n in 0..(STDERR_CAP + 3) {
        record.absorb(Event::Stderr {
            line: format!("line {n}"),
        });
    }
    assert_eq!(record.stderr.len(), STDERR_CAP);
    assert_eq!(record.stderr[0], "line 3");
    record.lose("the pipe broke".to_owned());
    assert_eq!(record.phase, Phase::Lost("the pipe broke".to_owned()));
}

#[test]
fn a_workspace_is_kept_unless_it_is_clean_and_gone() {
    let workspace = workspace();
    let moved = Ok("def\n".to_owned());
    let clean = Ok(String::new());
    assert_eq!(
        workspace.observe(&moved, &clean, &Some(Ok(String::new()))),
        Commits {
            head: "def".to_owned(),
            advanced: true,
            clean: true,
            kept: None,
        }
    );
    let dirty = workspace.observe(&Ok("abc\n".to_owned()), &Ok(" M a\n".to_owned()), &None);
    assert!(!dirty.advanced && !dirty.clean);
    assert_eq!(dirty.kept.as_deref(), Some("/w"));
    let stuck = workspace.observe(&moved, &clean, &Some(Err("busy".to_owned())));
    assert_eq!(stuck.kept.as_deref(), Some("/w"));
    let unread = workspace.observe(&Err("gone".to_owned()), &clean, &None);
    assert!(!unread.advanced);
}

// ----- git and the push -----

#[test]
fn git_answers_in_its_own_words() {
    let args = vec!["status".to_owned()];
    assert_eq!(argv(&args), ["git", "status"]);
    assert_eq!(settled(&args, true, "out\n"), Ok("out\n".to_owned()));
    assert_eq!(settled(&args, false, " no \n"), Err("no".to_owned()));
    assert_eq!(
        settled(&args, false, " \n"),
        Err("git status failed without saying why".to_owned())
    );
    assert_eq!(tool_answer(false, "no").to_string(), r#"{"ok":false,"output":"no"}"#);
    assert_eq!(
        base_commit("x", &Err("fatal".to_owned())),
        Err("the base \"x\" does not name a commit: fatal".to_owned())
    );
    assert_eq!(NO_PROMPT, ("GIT_TERMINAL_PROMPT", "0"));
}

#[test]
fn github_pushes_its_repository_over_https_as_the_token_user() {
    let forge = GitHub {
        repo: Repo::new("epik-agent".to_owned(), "Epik".to_owned()),
        token: "ghp_sesame".into(),
    };
    assert_eq!(forge.remote(), "https://github.com/epik-agent/Epik.git");
    let credentials = forge.credentials().unwrap();
    assert_eq!(credentials.username, "x-access-token");
    assert_eq!(credentials.secret.expose(), "ghp_sesame");
}

#[test]
fn a_push_hands_the_secret_to_the_environment_alone() {
    let credentials = Some(Credentials {
        username: "x-access-token".to_owned(),
        secret: "ghp_sesame".into(),
    });
    let guarded = push("/w", "main", "https://h/r.git", &credentials, "/tmp/ask");
    assert!(
        guarded.args.iter().all(|arg| !arg.contains("ghp_sesame")),
        "{:?}",
        guarded.args
    );
    assert_eq!(guarded.args.last().unwrap(), "refs/heads/main:refs/heads/main");
    let env: Vec<(&str, &str)> = guarded
        .env
        .iter()
        .map(|(name, value)| (name.as_str(), value.expose()))
        .collect();
    assert_eq!(
        env,
        [
            ("GIT_ASKPASS", "/tmp/ask"),
            ("EPIK_GIT_USERNAME", "x-access-token"),
            ("EPIK_GIT_PASSWORD", "ghp_sesame"),
        ]
    );

    let bare = push("/w", "main", "/remote.git", &None, "/tmp/ask");
    assert!(bare.env.is_empty());
    assert_eq!(bare.args[..3], ["-C", "/w", "push"]);
    assert!(ASKPASS.contains("EPIK_GIT_PASSWORD"));
    assert_ne!(askpass_name(1, 2, 3), askpass_name(1, 2, 4));
}

const ALPHABET: &[u8] = b"ABCDEFGHIJKLMNOPQRSTUVWXYZabcdefghijklmnopqrstuvwxyz0123456789+/";

/// Just enough base64 to spell one expected header.
fn base64(plain: &str) -> String {
    let mut out = String::new();
    for chunk in plain.as_bytes().chunks(3) {
        let bits = chunk.iter().enumerate().fold(0u32, |bits, (i, byte)| {
            bits | u32::from(*byte) << (16 - 8 * i)
        });
        for i in 0..4 {
            if i <= chunk.len() {
                out.push(char::from(ALPHABET[(bits >> (18 - 6 * i)) as usize & 63]));
            } else {
                out.push('=');
            }
        }
    }
    out
}

#[test]
fn the_hand_rolled_base64_spells_the_reference_values() {
    assert_eq!(base64("f"), "Zg==");
    assert_eq!(base64("fo"), "Zm8=");
    assert_eq!(base64("foo"), "Zm9v");
    assert_eq!(base64("user:pass"), "dXNlcjpwYXNz");
}

// ----- the logs -----

#[test]
fn the_path_is_kind_number_and_a_filesystem_safe_start() {
    let logs = Logs::rooted("/epik/logs");
    let repo = Repo::new("epik-agent".to_owned(), "Epik".to_owned());
    assert_eq!(
        logs.path(&repo, Kind::Feature, 141, 1_000_000_000),
        "/epik/logs/epik-agent/Epik/feature-141-2001-09-09T01-46-40Z.jsonl"
    );
    assert_eq!(
        logs.path(&repo, Kind::Issue, 7, 0),
        "/epik/logs/epik-agent/Epik/issue-7-1970-01-01T00-00-00Z.jsonl"
    );
    assert_eq!(Logs::new("/home/me/.epik"), Logs::rooted("/home/me/.epik/logs"));
}

#[test]
fn the_stamp_reads_the_civil_calendar() {
    assert_eq!(stamp(1_709_164_800), "2024-02-29T00-00-00Z");
    assert_eq!(stamp(1_786_192_205), "2026-08-08T12-30-05Z");
    assert_eq!(
        stamp(-1),
        "1970-01-01T00-00-00Z",
        "a pre-epoch clock collapses to the epoch rather than lying"
    );
}

#[test]
fn the_calendar_turns_at_its_ends() {
    let date = |year: u64, month: u64, day: u64| Date { year, month, day };
    assert_eq!(civil(0), date(1970, 1, 1));
    assert_eq!(civil(58), date(1970, 2, 28));
    assert_eq!(civil(59), date(1970, 3, 1));
    assert_eq!(civil(10_956), date(1999, 12, 31));
    assert_eq!(civil(10_957), date(2000, 1, 1));
    assert_eq!(civil(11_016), date(2000, 2, 29));
    assert_eq!(civil(47_540), date(2100, 2, 28));
    assert_eq!(civil(47_541), date(2100, 3, 1));
    assert_eq!(stamp(86_399), "1970-01-01T23-59-59Z");
    assert!(!stamp(i64::MAX).is_empty());
}

// ----- the launch -----

fn shared(token: Option<&str>) -> Launch {
    Launch {
        repo: Repo::new("epik-agent".to_owned(), "Epik".to_owned()),
        url: "https://github.com/epik-agent/Epik.git".to_owned(),
        base: "main".to_owned(),
        budget: Budget {
            max_tokens: None,
            max_cost: None,
            stall: 60_000,
        },
        patience: 0,
        token_override: token.map(Secret::from),
    }
}

#[test]
fn debugging_a_launcher_never_spells_the_token() {
    let launch = shared(Some("ghp-secret"));

    let debugged = launch.debug();

    assert!(
        !debugged.contains("ghp-secret"),
        "the secret must land in no log: {debugged}"
    );
    assert!(
        debugged.contains("token_override: Some"),
        "presence is still said, value never: {debugged}"
    );
}

#[test]
fn a_launcher_prints_what_it_shares() {
    let debugged = Launcher::new(shared(None)).debug();
    assert_eq!(
        debugged,
        "Launcher { launch: Launch { repo: Repo { owner: \"epik-agent\", name: \"Epik\" }, \
         url: \"https://github.com/epik-agent/Epik.git\", base: \"main\", \
         budget: Budget { max_tokens: None, max_cost: None, stall: 60s }, \
         patience: 0ns, token_override: None }, .. }"
    );
    let mut spender = shared(Some("t"));
    spender.budget = Budget {
        max_tokens: Some(5),
        max_cost: Some(Money { micro_usd: 7 }),
        stall: 1_500,
    };
    spender.patience = 250;
    assert!(spender.debug().ends_with(
        "budget: Budget { max_tokens: Some(5), max_cost: Some(Money { micro_usd: 7 }), \
         stall: 1.5s }, patience: 250ms, token_override: Some(\"<redacted>\") }"
    ));
}

#[test]
fn one_run_is_in_flight_at_a_time() {
    let mut launcher = Launcher::new(shared(Some("ghp-test")));
    let run = launcher.launch(7).unwrap();
    assert_eq!(run, "feature-7");
    assert!(matches!(
        launcher.launch(9),
        Err(Error::InFlight { running }) if running == "feature-7"
    ));

    let started = launcher
        .provisioned(
            run,
            Provisioned::Started {
                log: "/logs/feature-7-x.jsonl".to_owned(),
            },
        )
        .unwrap();
    assert_eq!(started.run, "feature-7");
    assert_eq!(
        started.told().to_string(),
        r#"{"log":"/logs/feature-7-x.jsonl","run":"feature-7"}"#
    );
    let error = launcher.launch(9).unwrap_err();
    assert_eq!(
        error.to_string(),
        "feature-7 is already in flight; one run at a time"
    );
    assert_eq!(launcher.running().as_deref(), Some("feature-7"));
}

#[test]
fn a_finished_run_frees_the_slot_for_the_next_launch() {
    let mut launcher = Launcher::new(shared(Some("ghp-test")));
    let run = launcher.launch(7).unwrap();
    let log = "/logs/7".to_owned();
    launcher.provisioned(run, Provisioned::Started { log }).unwrap();
    launcher.stop();
    assert!(launcher.is_stopped());
    assert_eq!(launcher.running().as_deref(), Some("feature-7"));
    launcher.finished();

    assert_eq!(launcher.running(), None);
    assert_eq!(launcher.launch(9).unwrap(), "feature-9");
    assert!(!launcher.is_stopped(), "a new run has a token of its own");
}

#[test]
fn a_missing_capability_is_the_tools_typed_refusal_and_no_run_starts() {
    let mut launcher = Launcher::new(shared(None));
    for _ in 0..2 {
        let run = launcher.launch(7).unwrap();
        // No override and an empty keystore: the token layer cannot stand.
        let Err(refusals) = manifest(sound_git(), Vec::new(), None, &InMemory::default()) else {
            panic!("there is no token");
        };
        let error = launcher
            .provisioned(run, Provisioned::Refused { refusals })
            .unwrap_err();
        let Error::Refused { refusals } = &error else {
            panic!("a failed preflight refuses: {error:?}");
        };
        assert!(
            refusals
                .iter()
                .any(|refusal| refusal.capability == Capability::GithubToken),
            "{refusals:?}"
        );
        assert!(
            error.to_string().contains("the GitHub token is absent"),
            "rendered like every other tool error: {}",
            error.to_string()
        );
        assert_eq!(launcher.running(), None, "no thread started");
    }
    let run = launcher.launch(7).unwrap();
    let error = launcher
        .provisioned(
            run,
            Provisioned::Unlogged {
                error: "disk full".to_owned(),
            },
        )
        .unwrap_err();
    assert_eq!(
        error.to_string(),
        "the run log could not be created: disk full"
    );
    assert_eq!(launcher.running(), None);
}

#[test]
fn the_tool_is_worded_for_a_model_deciding_whether_to_call() {
    let tool = launch_feature();
    assert_eq!(tool.name(), "launch_feature");
    assert!(tool.description().contains("as soon as the run is started"));
    let schema = tool.parameters();
    assert_eq!(
        schema.get("required"),
        Some(&Json::parse(r#"["number"]"#).unwrap())
    );
    let description = schema
        .get("properties")
        .and_then(|properties| properties.get("number"))
        .and_then(|number| number.text_at("description"))
        .unwrap();
    assert!(!description.is_empty());
}

#[test]
fn a_launch_is_asked_for_by_number() {
    let read = |text: &str| LaunchFeature::read(&Json::parse(text).unwrap());
    assert_eq!(read(r#"{"number": 7}"#), Ok(LaunchFeature { number: 7 }));
    assert!(read(r#"{"number": "7"}"#).is_err());
    assert!(read("{}").is_err());
}

#[test]
fn stopping_with_nothing_in_flight_is_a_quiet_no_op() {
    let mut launcher = Launcher::new(shared(Some("ghp-test")));
    launcher.stop();
    assert_eq!(launcher.running(), None);
    assert!(!launcher.is_stopped());
}

// ----- the worker -----

fn parsed(words: &str) -> Result<Cli, String> {
    Cli::parse(&words.split_whitespace().map(str::to_owned).collect())
}

#[test]
fn the_command_line_names_one_run_and_one_target() {
    assert_eq!(
        parsed("--feature 7 --target main"),
        Ok(Cli {
            job: Job::Feature,
            number: 7,
            target: "main".to_owned(),
        })
    );
    assert_eq!(
        parsed("--target main --issue 9"),
        Ok(Cli {
            job: Job::Issue,
            number: 9,
            target: "main".to_owned(),
        })
    );
}

#[test]
fn a_malformed_command_line_says_what_is_wrong_with_the_usage_beneath() {
    for (words, complaint) in [
        ("--feature", "--feature wants an issue number"),
        ("--issue x", "--issue wants an issue number"),
        ("--issue 1 --feature 2", "one job per invocation"),
        ("--target", "--target wants a branch"),
        ("--target a --target b", "one target per invocation"),
        ("--verbose", "unrecognized argument \"--verbose\""),
        ("--target main", "say which run: --feature <n> or --issue <n>"),
        ("--feature 7", "say where it merges: --target <branch>"),
    ] {
        assert_eq!(
            parsed(words),
            Err(format!("{complaint}\n{USAGE_LINE}")),
            "{words}"
        );
    }
}

#[test]
fn the_exit_tells_every_class_of_ending_apart() {
    let done = Ending::of_feature(&Some(FeatureVerdict::Done { review: 12 }));
    assert_eq!(done.lines, ["review at pull request #12"]);
    assert_eq!(done.code, 0);
    let failed = Ending::of_feature(&Some(FeatureVerdict::Failed {
        report: "no sub-issues".to_owned(),
    }));
    assert_eq!(failed.lines, ["epik-worker: no sub-issues"]);
    assert_eq!(failed.code, 1);
    let panicked = Ending::of_feature(&None);
    assert_eq!(panicked.lines, ["epik-worker: the run panicked"]);
    assert_eq!(panicked.code, 1);
    assert_eq!(Ending::of_issue(&None), panicked);

    let clean = Ending::of_issue(&Some((Verdict::Done, None)));
    assert_eq!(clean.lines, Vec::<String>::new());
    assert_eq!(clean.code, 0);
    let undeleted = Ending::of_issue(&Some((
        Verdict::Done,
        Some(Retained::Undeleted("/w".to_owned(), "busy".to_owned())),
    )));
    assert_eq!(undeleted.lines, ["worktree at /w could not be removed: busy"]);
    let kept = Ending::of_issue(&Some((
        Verdict::Failed {
            report: "red".to_owned(),
        },
        Some(Retained::Forensics("/w".to_owned())),
    )));
    assert_eq!(kept.lines, ["worktree retained at /w", "epik-worker: red"]);
    assert_eq!(kept.code, 1);

    assert_eq!(Ending::usage("no".to_owned()).code, 2);
    let refused = Ending::refused(&vec![git(vec!["/bin/git".to_owned()], None)]);
    assert_eq!(refused.code, 3);
    assert_eq!(refused.lines, ["refused: git is absent: searched /bin/git"]);
    let broken = Ending::broken("no home");
    assert_eq!(broken.code, 4);
    assert_eq!(broken.lines, ["epik-worker: no home"]);
    let unread = Ending::unread(7, &GitHubError::TokenAbsent);
    assert_eq!(unread.code, 1);
    assert!(
        unread.lines[0].starts_with("epik-worker: reading issue #7: "),
        "{:?}",
        unread.lines
    );
}

#[test]
fn the_agent_is_handed_the_token_by_both_names() {
    let env = credentialed(&"ghp".into());
    let names: Vec<&str> = env.iter().map(|(name, _)| name.as_str()).collect();
    assert_eq!(names, ["GH_TOKEN", "GITHUB_TOKEN"]);
    assert!(env.iter().all(|(_, token)| token.expose() == "ghp"));
    assert_eq!(
        clone_url(&Repo::new("o".to_owned(), "n".to_owned())),
        "https://github.com/o/n.git"
    );
}

#[test]
fn a_run_is_provisioned_by_what_was_asked_and_read() {
    let repo = configured("o/n").unwrap();
    assert_eq!(
        configured("nowhere"),
        Err("worker.repo \"nowhere\" is not an owner/name repository".to_owned())
    );
    let issue = Issue {
        number: 7,
        title: "t".to_owned(),
        body: String::new(),
        state: State::Open,
    };
    let cli = parsed("--feature 7 --target main").unwrap();
    let run = Run::provision(cli, repo.clone(), issue.clone(), &"ghp".into());
    assert_eq!(run.job, Job::Feature);
    assert_eq!(run.repo, repo);
    assert_eq!(run.url, "https://github.com/o/n.git");
    assert_eq!(run.base, "main");
    assert_eq!(run.issue, issue);
    assert_eq!(run.env.len(), 2);
    assert_eq!(run.budget.stall, 600_000);
    assert_eq!(run.patience, PATIENCE);
}

// ----- the configuration and the names -----

#[test]
fn a_configuration_that_states_nothing_is_all_defaults() {
    let config = Config::default();
    assert!(config.model.is_default());
    assert!(config.github.is_default());
    let stated = Model {
        chat: None,
        agent: Some("other".to_owned()),
    };
    assert!(!stated.is_default());
    let owned = GitHubSection {
        owner: Some("me".to_owned()),
    };
    assert!(!owned.is_default());
}

#[test]
fn the_two_ends_agree_on_their_names() {
    assert_eq!(CHANNEL, "epik://events");
    assert_eq!(
        [
            command::STATUS,
            command::SEND_MESSAGE,
            command::SET_API_KEY,
            command::SET_GITHUB_TOKEN,
        ],
        [
            "status",
            "send_message",
            "set_api_key",
            "set_github_token",
        ]
    );
}
