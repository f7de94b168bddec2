//! GitHub: what is asked of it, how its answers are read, and the tools
//! over both.

use epik::feature::{Blocking, Issue as Planned, IssueId, Plan};
use epik::github::decode::{
    check_runs, default_branch, graph, graphql_data, issue_id, tell_checks,
};
use epik::github::tools::{all, done, plan_answer, Verb};
use epik::github::{
    answer, message, refusal, Check, Conclusion, Error, GitHub, Issue, Merge, Method, Outcome,
    Pull, Repo, State,
};
use epik::json::Json;
use epik::keystore::GITHUB_OVERRIDE_ENV;
use epik::tools;
use epik::tree::Tree;

fn value(payload: &str) -> Json {
    Json::parse(payload).unwrap()
}

fn epik_repo() -> Repo {
    Repo::new("epik-agent".to_owned(), "Epik".to_owned())
}

// ----- reading -----

#[test]
fn an_issue_decodes() {
    let payload =
        r#"{"number": 106, "title": "a client", "body": "by hand", "state": "open", "id": 9}"#;
    let issue = Issue::decode("an issue", &value(payload)).unwrap();
    assert_eq!(
        issue,
        Issue {
            number: 106,
            title: "a client".to_owned(),
            body: "by hand".to_owned(),
            state: State::Open,
        }
    );
    assert_eq!(Issue::read(&issue.told()), Some(issue));
}

#[test]
fn an_issue_with_no_body_decodes_to_an_empty_one() {
    let payload = r#"{"number": 7, "title": "t", "body": null, "state": "open"}"#;
    let issue = Issue::decode("an issue", &value(payload)).unwrap();
    assert_eq!(issue.body, "");
}

#[test]
fn an_answer_of_another_shape_names_what_it_was_not() {
    let error = Issue::decode("an issue", &value(r#"{"number": "7"}"#)).unwrap_err();
    let Error::Wire(words) = error else {
        panic!("a misshapen answer is the wire's fault: {error:?}");
    };
    assert!(words.contains("an issue"), "{words}");
}

#[test]
fn a_pull_decodes_with_its_branches() {
    let payload = r#"{"number": 91, "title": "t", "state": "closed", "merged": true,
        "head": {"ref": "local", "sha": "aa"}, "base": {"ref": "main", "sha": "bb"}}"#;
    let pull = Pull::decode("a pull", &value(payload)).unwrap();
    assert_eq!(pull.number, 91);
    assert_eq!(pull.state, State::Closed);
    assert!(pull.merged);
    assert_eq!(pull.head.name, "local");
    assert_eq!(pull.base.name, "main");
    assert_eq!(pull.head.sha, "aa");
}

#[test]
fn a_repo_yields_its_default_branch() {
    assert_eq!(
        default_branch("a repo", &value(r#"{"default_branch": "main"}"#)),
        Ok("main".to_owned())
    );
    assert!(default_branch("a repo", &value("{}")).is_err());
}

#[test]
fn check_runs_decode_with_their_conclusions() {
    let payload = r#"{"total_count": 2, "check_runs": [
        {"name": "CI", "conclusion": "success"}, {"name": "lint", "conclusion": "timed_out"}]}"#;
    let checks = check_runs("check runs", &value(payload)).unwrap();
    assert_eq!(checks.len(), 2);
    assert_eq!(checks[0].conclusion, Some(Conclusion::Success));
    assert_eq!(checks[1].conclusion, Some(Conclusion::TimedOut));
    assert_eq!(
        tell_checks(&checks).to_string(),
        r#"[{"conclusion":"success","name":"CI"},{"conclusion":"timed_out","name":"lint"}]"#
    );
}

#[test]
fn a_check_still_running_has_no_conclusion() {
    let payload = r#"{"name": "CI", "conclusion": null}"#;
    let check = Check::read(&value(payload)).unwrap();
    assert_eq!(check.conclusion, None);
}

#[test]
fn a_conclusion_from_next_year_still_decodes() {
    let payload = r#"{"name": "CI", "conclusion": "quantum_flaked"}"#;
    let check = Check::read(&value(payload)).unwrap();
    assert_eq!(check.conclusion, Some(Conclusion::Other));
}

#[test]
fn a_graph_decodes_its_edges_both_ways() {
    let reply = value(
        r#"{"data": {"repository": {"issue": {
            "number": 102, "title": "t", "state": "OPEN", "body": "b",
            "subIssues": {"nodes": [
                {"number": 105, "title": "a", "state": "CLOSED"},
                {"number": 106, "title": "c", "state": "OPEN"}]},
            "blockedBy": {"nodes": [{"number": 9, "title": "d", "state": "OPEN"}]}}}}}"#,
    );
    let graph = graph(&graphql_data(&reply).unwrap()).unwrap();
    assert_eq!(graph.issue.number, 102);
    assert_eq!(graph.issue.state, State::Open);
    let numbers: Vec<u64> = graph.sub_issues.iter().map(|edge| edge.number).collect();
    assert_eq!(numbers, [105, 106]);
    assert_eq!(graph.sub_issues[0].state, State::Closed);
    assert_eq!(graph.blocked_by.len(), 1);
    assert_eq!(
        graph.blocked_by[0].state,
        State::Open,
        "GraphQL's OPEN lands on the same State as REST's open"
    );
}

#[test]
fn a_primary_rate_limit_is_told_apart_from_a_refusal() {
    let body = r#"{"message": "API rate limit exceeded for 1.2.3.4."}"#;
    assert_eq!(
        refusal(403, Some("0"), body),
        Error::RateLimited("API rate limit exceeded for 1.2.3.4.".to_owned())
    );
    assert_eq!(
        refusal(429, Some("42"), body),
        Error::RateLimited("API rate limit exceeded for 1.2.3.4.".to_owned()),
        "a 429 is a rate limit whatever the headers say"
    );
}

#[test]
fn a_secondary_rate_limit_names_itself_rather_than_exhausting_the_count() {
    let body = r#"{"message": "You have exceeded a secondary rate limit."}"#;
    assert!(matches!(
        refusal(403, Some("55"), body),
        Error::RateLimited(_)
    ));
    let shouted = r#"{"message": "SECONDARY RATE LIMIT"}"#;
    assert!(matches!(
        refusal(403, Some("55"), shouted),
        Error::RateLimited(_)
    ));
}

#[test]
fn a_plain_403_is_a_refusal_in_githubs_own_words() {
    let body = r#"{"message": "Resource not accessible by personal access token"}"#;
    assert_eq!(
        refusal(403, Some("55"), body),
        Error::Refused {
            status: 403,
            message: "Resource not accessible by personal access token".to_owned()
        }
    );
}

#[test]
fn a_refusal_with_an_unusual_body_reports_the_body_itself() {
    assert_eq!(
        refusal(502, None, "Bad Gateway\n"),
        Error::Refused {
            status: 502,
            message: "Bad Gateway".to_owned()
        }
    );
    assert_eq!(message("Bad Gateway\n"), "Bad Gateway");
}

#[test]
fn a_graphql_rate_limit_is_in_band_and_still_told_apart() {
    let reply = value(
        r#"{"data": null, "errors": [
                {"type": "RATE_LIMITED", "message": "API rate limit exceeded"}]}"#,
    );
    assert_eq!(
        graphql_data(&reply),
        Err(Error::RateLimited("API rate limit exceeded".to_owned()))
    );
}

#[test]
fn a_graphql_error_is_a_refusal_in_githubs_own_words() {
    let reply = value(
        r#"{"data": {"repository": null}, "errors": [
                {"type": "NOT_FOUND", "message": "Could not resolve to an Issue"}]}"#,
    );
    assert_eq!(
        graphql_data(&reply),
        Err(Error::Refused {
            status: 200,
            message: "Could not resolve to an Issue".to_owned()
        })
    );
}

#[test]
fn a_clean_graphql_reply_yields_its_data() {
    let reply = value(r#"{"data": {"repository": {"issue": {"id": "I_abc"}}}}"#);
    let data = graphql_data(&reply).unwrap();
    let found = data
        .get("repository")
        .and_then(|repository| repository.get("issue"))
        .and_then(|issue| issue.text_at("id"));
    assert_eq!(found.map(String::as_str), Some("I_abc"));
    assert_eq!(issue_id(&data), Ok("I_abc".to_owned()));
}

#[test]
fn what_came_of_a_request_is_its_json_or_its_error() {
    let url = "http://127.0.0.1:1/repos/epik-agent/Epik/issues/106";
    let answered = |status: u16, body: &str| {
        answer(
            url,
            Outcome::Answered {
                status,
                remaining: None,
                body: body.to_owned(),
            },
        )
    };
    assert_eq!(answered(200, r#"{"a":1}"#), Ok(value(r#"{"a":1}"#)));
    assert!(matches!(answered(200, "not json"), Err(Error::Wire(_))));
    assert!(matches!(
        answered(404, r#"{"message":"Not Found"}"#),
        Err(Error::Refused { status: 404, .. })
    ));
}

#[test]
fn github_an_unreachable_endpoint_says_where_it_tried() {
    let github = GitHub::at("http://127.0.0.1:1", None);
    let url = github.issue(&epik_repo(), 106).url;
    let error = answer(&url, Outcome::Unasked("connection refused".to_owned())).unwrap_err();
    let Error::Wire(message) = error else {
        panic!("nothing listens on port 1: {error:?}");
    };
    assert!(
        message.contains("http://127.0.0.1:1/repos/epik-agent/Epik/issues/106"),
        "a failure should name the endpoint it was reaching for: {message}"
    );
}

// ----- asking -----

#[test]
fn every_writing_verb_refuses_without_a_token_before_any_wire_is_touched() {
    let github = GitHub::at("http://127.0.0.1:1", None);
    let repo = epik_repo();
    let refusals = [
        github.create_issue(&repo, "t", "b"),
        github.edit_issue(&repo, 1, &Some("t".to_owned()), &None),
        github.comment(&repo, 1, "b"),
        github.close_issue(&repo, 1),
        github.open_pull(&repo, "t", "h", "b", ""),
        github.merge_pull(&repo, 1, Merge::Squash),
        github.issue_graph(&repo, 1),
        github.add_sub_issue("1", "2"),
        github.remove_sub_issue("1", "2"),
        github.add_blocked_by("1", "2"),
        github.remove_blocked_by("1", "2"),
    ];
    for refusal in refusals {
        assert_eq!(refusal, Err(Error::TokenAbsent));
    }
    assert_eq!(github.needs_token(), Err(Error::TokenAbsent));
    assert_eq!(github.authorization(), None);
}

#[test]
fn a_writing_verb_with_a_token_is_a_request() {
    let github = GitHub::at("http://h", Some("t".into()));
    let request = github
        .edit_issue(&epik_repo(), 7, &None, &Some("b".to_owned()))
        .unwrap();
    assert_eq!(request.method, Method::Patch);
    assert_eq!(request.url, "http://h/repos/epik-agent/Epik/issues/7");
    assert_eq!(request.body.unwrap().to_string(), r#"{"body":"b"}"#);
    assert_eq!(github.authorization().as_deref(), Some("Bearer t"));
    let merge = github.merge_pull(&epik_repo(), 3, Merge::Rebase).unwrap();
    assert_eq!(merge.method, Method::Put);
    assert_eq!(
        merge.body.unwrap().to_string(),
        r#"{"merge_method":"rebase"}"#
    );
}

#[test]
fn the_refusal_for_a_missing_token_says_how_to_supply_one() {
    let rendered = Error::TokenAbsent.to_string();
    assert!(rendered.contains(GITHUB_OVERRIDE_ENV), "{rendered}");
}

#[test]
fn every_error_has_words() {
    for (error, word) in [
        (Error::RateLimited("slow down".to_owned()), "slow down"),
        (
            Error::Refused {
                status: 404,
                message: "Not Found".to_owned(),
            },
            "404",
        ),
        (Error::Wire("no route".to_owned()), "no route"),
    ] {
        assert!(error.to_string().contains(word), "{}", error.to_string());
    }
}

#[test]
fn the_api_base_keeps_exactly_one_slash_before_the_path() {
    for base in ["http://localhost:9", "http://localhost:9/"] {
        assert_eq!(GitHub::at(base, None).api(), "http://localhost:9");
    }
    assert_eq!(GitHub::new(None).api(), "https://api.github.com");
}

#[test]
fn a_repo_prints_the_way_github_spells_one() {
    assert_eq!(epik_repo().to_string(), "epik-agent/Epik");
}

#[test]
fn a_repo_is_read_back_from_its_spelling() {
    assert_eq!(Repo::parse("epik-agent/Epik"), Some(epik_repo()));
    for spelling in ["", "Epik", "/Epik", "epik-agent/", "a/b/c"] {
        assert_eq!(Repo::parse(spelling), None, "{spelling}");
    }
}

#[test]
fn a_merge_is_read_and_written_by_its_word() {
    for (method, wire, word) in [
        (Merge::Commit, "merge", "commit"),
        (Merge::Squash, "squash", "squash"),
        (Merge::Rebase, "rebase", "rebase"),
    ] {
        assert_eq!(method.wire(), wire);
        assert_eq!(Merge::read(Some(&Json::string(word))), Some(method));
    }
    assert_eq!(Merge::read(Some(&Json::string("octopus"))), None);
}

// ----- the tools -----

/// What a call of a tool comes to before anything is sent.
fn dispatched(name: &str, arguments: &str) -> Result<(), String> {
    let verb = Verb::read(name, &value(arguments)).expect("a tool by that name")?;
    let github = GitHub::at("http://127.0.0.1:1", None);
    match verb.request(&github) {
        Some(request) => request
            .map(|_| ())
            .map_err(|error| error.to_string()),
        None => github.needs_token().map_err(|error| error.to_string()),
    }
}

#[test]
fn one_tool_per_public_verb_plus_the_trackers_plan() {
    assert_eq!(all().len(), 20);
    let mut names: Vec<String> = all().iter().map(|tool| tool.name().to_owned()).collect();
    for name in &names {
        assert!(
            Verb::read(name, &value("{}")).is_some(),
            "{name} is a tool that can be called"
        );
    }
    names.sort();
    names.dedup();
    assert_eq!(names.len(), 20, "each is named once");
    assert!(Verb::read("github_unheard_of", &value("{}")).is_none());
}

#[test]
fn the_plan_tool_without_a_token_answers_with_the_settings_pointer() {
    let error = dispatched(
        "feature_plan",
        r#"{"repo":"epik-agent/Epik","feature":100}"#,
    )
    .unwrap_err();
    assert!(error.contains("Settings (Cmd+,)"), "{error}");
}

#[test]
fn a_bad_repository_spelling_is_an_err_result_in_words() {
    let error = dispatched("github_issue", r#"{"repo":"not a repo","number":1}"#).unwrap_err();
    assert!(error.contains("owner/name"), "{error}");
}

#[test]
fn a_writing_verb_without_a_token_answers_with_the_settings_pointer() {
    let error = dispatched(
        "github_create_issue",
        r#"{"repo":"epik-agent/Epik","title":"t","body":""}"#,
    )
    .unwrap_err();
    assert!(error.contains("Settings (Cmd+,)"), "{error}");
}

#[test]
fn a_missing_argument_is_an_err_result_in_words() {
    let error = dispatched("github_issue", r#"{"repo":"epik-agent/Epik"}"#).unwrap_err();
    assert!(error.contains("number"), "{error}");
}

#[test]
fn arguments_are_read_by_their_kinds() {
    let arguments = value(r#"{"s":"x","e":" ","n":7,"z":null}"#);
    assert_eq!(tools::string(&arguments, "s"), Ok("x".to_owned()));
    assert!(tools::string(&arguments, "n").is_err());
    assert_eq!(
        tools::non_empty(&arguments, "e"),
        Err("the e argument must be a non-empty string".to_owned())
    );
    assert_eq!(tools::non_empty(&arguments, "s"), Ok("x".to_owned()));
    assert_eq!(tools::optional(&arguments, "s"), Ok(Some("x".to_owned())));
    assert!(tools::optional(&arguments, "e").is_err());
    assert_eq!(tools::number(&arguments, "n"), Ok(7));
    assert!(tools::number(&arguments, "s").is_err());
    assert_eq!(tools::optional(&arguments, "z"), Ok(None));
    assert_eq!(tools::optional(&arguments, "gone"), Ok(None));
    assert!(tools::optional(&arguments, "n").is_err());
}

#[test]
fn a_plan_is_told_with_its_problems() {
    let issue = |number: u64| Planned {
        id: IssueId::from(number),
        title: format!("issue {number}"),
        closed: false,
    };
    let plan = Plan {
        tree: Tree {
            value: issue(1),
            children: vec![Tree::new(issue(2))],
        },
        blocking: vec![Blocking {
            issue: IssueId::from(2),
            blocker: IssueId::from(9),
        }],
        outside: Vec::new(),
    };
    let told = plan_answer(&plan).to_string();
    assert!(told.contains("issue 2"), "{told}");
    assert!(told.contains("\"problems\""), "{told}");
    assert_eq!(done().to_string(), r#"{"done":true}"#);
}

#[test]
fn an_answer_nobody_can_read_is_not_called_done() {
    let arguments = Json::parse(r#"{"repo":"o/r","head":"b"}"#).unwrap();
    let verb = Verb::read("github_pull_for", &arguments).unwrap().unwrap();
    let words = verb.told("the pulls", &Json::record()).unwrap_err();
    assert!(words.contains("decoding the pulls"), "{words}");
}
