use engine::Error;
use engine::execute::ClusteredOperator;
use engine::execute::MatchEvent;
use engine::execute::PortRange;
use engine::execute::Probe;
use engine::execute::Requests;
use engine::execute::Template;
use engine::execute::cluster_templates;
use engine::extractors::Extractor;
use engine::extractors::ExtractorKind;
use engine::info::Info;
use engine::info::Version;
use engine::matchers::Condition;
use engine::matchers::Matcher;
use engine::matchers::MatcherKind;
use engine::operators::OperatorResult;
use engine::operators::Operators;
use engine::target::FaviconMap;
use engine::target::OperatorTarget;
use engine::target::Part;
use engine::target::ResponseMeta;
use engine::target::ResponseTarget;

fn request_target(header: &str, body: &str) -> OperatorTarget {
    OperatorTarget {
        header: Some(header.to_string()),
        body: Some(body.to_string()),
        raw: Some(format!("{}\n\n{}", header, body)),
    }
}

fn response_with(header: &str, body: &str, status: u16) -> ResponseTarget {
    ResponseTarget {
        target: request_target(header, body),
        meta: ResponseMeta { status_code: status, favicon: None },
    }
}

fn word_matcher(words: &[&str], part: Part, name: Option<&str>) -> Matcher {
    Matcher {
        kind: MatcherKind::Word { words: words.iter().map(|w| w.to_string()).collect() },
        part,
        name: name.map(|n| n.to_string()),
        negative: false,
    }
}

fn or_operators(matchers: Vec<Matcher>) -> Operators {
    Operators {
        stop_at_first_match: false,
        matchers_condition: Condition::Or,
        matchers,
        extractors: Vec::new(),
    }
}

#[test]
fn test_matcher_generic_with_request() {
    let request = request_target(
        "authorization: Bearer token123",
        "username=admin&password=test",
    );
    let matcher = word_matcher(&["username=admin"], Part::Body, Some("admin-login"));
    matcher.compile().unwrap();
    let operators = or_operators(vec![matcher]);
    let mut result = OperatorResult::default();
    operators.matcher_generic(&request, None, &mut result).unwrap();
    assert!(result.is_matched());
    assert!(result.name().contains(&"admin-login".to_string()));
}

#[test]
fn test_matcher_generic_with_response() {
    let response = response_with(
        "server: Apache/2.4.41",
        "<html><title>Apache Test</title></html>",
        200,
    );
    let matcher = word_matcher(&["Apache"], Part::Header, Some("apache-server"));
    matcher.compile().unwrap();
    let operators = or_operators(vec![matcher]);
    let mut result = OperatorResult::default();
    operators
        .matcher_generic(&response.target, Some(&response.meta), &mut result)
        .unwrap();
    assert!(result.is_matched());
    assert!(result.name().contains(&"apache-server".to_string()));
}

#[test]
fn or_accumulates_every_true_matcher() {
    let target = request_target("server: nginx\nx-powered-by: php", "hello world");
    let operators = or_operators(vec![
        word_matcher(&["nginx"], Part::Header, Some("nginx-rule")),
        word_matcher(&["absent"], Part::Body, Some("never")),
        word_matcher(&["hello"], Part::Body, Some("hello-rule")),
    ]);
    let mut result = OperatorResult::default();
    operators.matcher_generic(&target, None, &mut result).unwrap();
    assert!(result.is_matched());
    let names = result.name();
    assert!(names.contains(&"nginx-rule".to_string()));
    assert!(names.contains(&"hello-rule".to_string()));
    assert!(!names.contains(&"never".to_string()));
    let words = result.matcher_word();
    assert!(words.contains(&"nginx".to_string()));
    assert!(words.contains(&"hello".to_string()));
}

#[test]
fn and_halts_at_first_false_matcher() {
    let target = request_target("server: nginx", "hello world");
    let mut operators = or_operators(vec![
        word_matcher(&["absent"], Part::Header, Some("first")),
        word_matcher(&["hello"], Part::Body, Some("second")),
    ]);
    operators.matchers_condition = Condition::And;
    let mut result = OperatorResult::default();
    operators.matcher_generic(&target, None, &mut result).unwrap();
    assert!(!result.is_matched());
    // the second matcher was never evaluated: no name, no word from it
    assert!(result.name().is_empty());
    assert!(result.matcher_word().is_empty());
}

#[test]
fn and_matches_when_every_matcher_holds() {
    let target = request_target("server: nginx", "hello world");
    let mut operators = or_operators(vec![
        word_matcher(&["nginx"], Part::Header, Some("first")),
        word_matcher(&["hello"], Part::Body, Some("second")),
    ]);
    operators.matchers_condition = Condition::And;
    let mut result = OperatorResult::default();
    operators.matcher_generic(&target, None, &mut result).unwrap();
    assert!(result.is_matched());
    let names = result.name();
    assert!(names.contains(&"first".to_string()));
    assert!(names.contains(&"second".to_string()));
}

#[test]
fn stop_at_first_match_records_only_first_hit() {
    let target = request_target("server: nginx", "hello world");
    let mut operators = or_operators(vec![
        word_matcher(&["nginx"], Part::Header, Some("first")),
        word_matcher(&["hello"], Part::Body, Some("second")),
    ]);
    operators.stop_at_first_match = true;
    let mut result = OperatorResult::default();
    operators.matcher_generic(&target, None, &mut result).unwrap();
    assert!(result.is_matched());
    let names = result.name();
    assert!(names.contains(&"first".to_string()));
    assert!(!names.contains(&"second".to_string()));
    assert_eq!(result.matcher_word(), vec!["nginx".to_string(), "first".to_string()]);
}

#[test]
fn negate_inverts_every_kind() {
    let target = request_target("server: nginx", "hello world");
    let mut miss = word_matcher(&["absent"], Part::Body, Some("negated-word"));
    miss.negative = true;
    let mut hit = word_matcher(&["hello"], Part::Body, Some("negated-hit"));
    hit.negative = true;
    let mut regex_miss = Matcher {
        kind: MatcherKind::Regex { pattern: "zz+".to_string() },
        part: Part::Body,
        name: Some("negated-regex".to_string()),
        negative: true,
    };
    regex_miss.compile().unwrap();
    let mut status_miss = Matcher {
        kind: MatcherKind::Status { status: vec![500] },
        part: Part::Body,
        name: Some("negated-status".to_string()),
        negative: true,
    };
    status_miss.compile().unwrap();
    let operators = Operators {
        stop_at_first_match: false,
        matchers_condition: Condition::And,
        matchers: vec![miss, regex_miss, status_miss],
        extractors: Vec::new(),
    };
    let meta = ResponseMeta { status_code: 200, favicon: None };
    let mut result = OperatorResult::default();
    operators.matcher_generic(&target, Some(&meta), &mut result).unwrap();
    assert!(result.is_matched());
    let single = or_operators(vec![hit]);
    let mut result2 = OperatorResult::default();
    single.matcher_generic(&target, None, &mut result2).unwrap();
    assert!(!result2.is_matched());
}

#[test]
fn status_and_favicon_are_false_without_response_metadata() {
    let target = request_target("server: nginx", "hello");
    let status = Matcher {
        kind: MatcherKind::Status { status: vec![200] },
        part: Part::Body,
        name: Some("status-rule".to_string()),
        negative: false,
    };
    let favicon = Matcher {
        kind: MatcherKind::Favicon { hash: vec!["deadbeef".to_string()] },
        part: Part::Body,
        name: Some("favicon-rule".to_string()),
        negative: false,
    };
    let operators = or_operators(vec![status, favicon]);
    let mut result = OperatorResult::default();
    let r = operators.matcher_generic(&target, None, &mut result);
    assert!(r.is_ok());
    assert!(!result.is_matched());
}

#[test]
fn status_matches_response_code() {
    let response = response_with("server: nginx", "hello", 404);
    let operators = or_operators(vec![Matcher {
        kind: MatcherKind::Status { status: vec![301, 404] },
        part: Part::Body,
        name: Some("not-found".to_string()),
        negative: false,
    }]);
    let mut result = OperatorResult::default();
    operators.matcher(&response, &mut result).unwrap();
    assert!(result.is_matched());
    assert!(result.matcher_word().contains(&"404".to_string()));
}

#[test]
fn favicon_matches_precomputed_hashes() {
    let response = ResponseTarget {
        target: request_target("server: nginx", "icon-bytes"),
        meta: ResponseMeta {
            status_code: 200,
            favicon: Some(vec![FaviconMap {
                md5: "f7e5d7af1e55b4e5e1f15e3f1ba9f625".to_string(),
                mmh3: "-1588080585".to_string(),
            }]),
        },
    };
    let operators = or_operators(vec![Matcher {
        kind: MatcherKind::Favicon { hash: vec!["-1588080585".to_string()] },
        part: Part::Body,
        name: Some("known-icon".to_string()),
        negative: false,
    }]);
    let mut result = OperatorResult::default();
    operators.matcher(&response, &mut result).unwrap();
    assert!(result.is_matched());
    assert!(result.matcher_word().contains(&"-1588080585".to_string()));
}

#[test]
fn favicon_without_hash_map_aborts_the_pass() {
    let response = response_with("server: nginx", "hello", 200);
    let operators = or_operators(vec![Matcher {
        kind: MatcherKind::Favicon { hash: vec!["deadbeef".to_string()] },
        part: Part::Body,
        name: Some("favicon-rule".to_string()),
        negative: false,
    }]);
    let mut result = OperatorResult::default();
    let r = operators.matcher(&response, &mut result);
    assert_eq!(r, Err(Error::FaviconMapMissing));
    assert!(!result.is_matched());
    assert!(result.name().is_empty());
    assert!(result.matcher_word().is_empty());
    assert!(!result.is_extract());
}

#[test]
fn regex_matcher_reports_every_match() {
    let target = request_target("server: nginx", "v1 then v2 then v3");
    let mut m = Matcher {
        kind: MatcherKind::Regex { pattern: r"v\d".to_string() },
        part: Part::Body,
        name: Some("versions".to_string()),
        negative: false,
    };
    m.compile().unwrap();
    let operators = or_operators(vec![m]);
    let mut result = OperatorResult::default();
    operators.matcher_generic(&target, None, &mut result).unwrap();
    assert!(result.is_matched());
    let words = result.matcher_word();
    assert!(words.contains(&"v1".to_string()));
    assert!(words.contains(&"v2".to_string()));
    assert!(words.contains(&"v3".to_string()));
}

#[test]
fn invalid_regex_is_a_compile_error() {
    let mut operators = or_operators(vec![Matcher {
        kind: MatcherKind::Regex { pattern: "(".to_string() },
        part: Part::Body,
        name: None,
        negative: false,
    }]);
    assert_eq!(operators.compile(), Err(Error::RegexCompile));
    let bad_extractor = Extractor {
        kind: ExtractorKind::Regex { pattern: "[".to_string() },
        part: Part::Body,
        name: None,
    };
    assert_eq!(bad_extractor.compile(), Err(Error::RegexCompile));
}

#[test]
fn missing_part_is_a_retrieval_error() {
    let target = OperatorTarget { header: None, body: Some("x".to_string()), raw: None };
    let operators = or_operators(vec![word_matcher(&["x"], Part::Header, None)]);
    let mut result = OperatorResult::default();
    assert_eq!(
        operators.matcher_generic(&target, None, &mut result),
        Err(Error::PartUnavailable)
    );
}

#[test]
fn regex_extractor_captures_version_group() {
    let target = request_target("server: nginx", "v1.2.3");
    let operators = Operators {
        stop_at_first_match: false,
        matchers_condition: Condition::Or,
        matchers: Vec::new(),
        extractors: vec![Extractor {
            kind: ExtractorKind::Regex { pattern: r"v(\d+\.\d+\.\d+)".to_string() },
            part: Part::Body,
            name: Some("ver".to_string()),
        }],
    };
    let mut result = OperatorResult::default();
    operators.extractor_generic(None, &target, &mut result);
    assert!(result.is_extract());
    let map = result.extract_result();
    assert_eq!(map.len(), 1);
    assert_eq!(map[0].0, "ver");
    assert_eq!(map[0].1, vec!["1.2.3".to_string()]);
}

#[test]
fn unnamed_extractor_reports_under_its_index() {
    let target = request_target("server: nginx", "v1.2.3");
    let operators = Operators {
        stop_at_first_match: false,
        matchers_condition: Condition::Or,
        matchers: Vec::new(),
        extractors: vec![Extractor {
            kind: ExtractorKind::Regex { pattern: r"v(\d+\.\d+\.\d+)".to_string() },
            part: Part::Body,
            name: None,
        }],
    };
    let mut result = OperatorResult::default();
    operators.extractor_generic(None, &target, &mut result);
    let map = result.extract_result();
    assert_eq!(map[0].0, "0");
    assert_eq!(map[0].1, vec!["1.2.3".to_string()]);
}

#[test]
fn extractor_failure_skips_only_that_extractor() {
    let target = OperatorTarget {
        header: Some("server: nginx".to_string()),
        body: Some("v1.2.3".to_string()),
        raw: None,
    };
    let operators = Operators {
        stop_at_first_match: false,
        matchers_condition: Condition::Or,
        matchers: Vec::new(),
        extractors: vec![
            Extractor {
                kind: ExtractorKind::Regex { pattern: r"(\d+)".to_string() },
                part: Part::All,
                name: Some("raw-part".to_string()),
            },
            Extractor {
                kind: ExtractorKind::Regex { pattern: r"v(\d+\.\d+\.\d+)".to_string() },
                part: Part::Body,
                name: Some("ver".to_string()),
            },
        ],
    };
    let mut result = OperatorResult::default();
    operators.extractor_generic(None, &target, &mut result);
    let map = result.extract_result();
    assert_eq!(map.len(), 1);
    assert_eq!(map[0].0, "ver");
    assert_eq!(map[0].1, vec!["1.2.3".to_string()]);
}

#[test]
fn json_extractor_selects_string_values() {
    let target = request_target("content-type: application/json", r#"{"version":"9.8.7"}"#);
    let operators = Operators {
        stop_at_first_match: false,
        matchers_condition: Condition::Or,
        matchers: Vec::new(),
        extractors: vec![Extractor {
            kind: ExtractorKind::Json { path: "$.version".to_string() },
            part: Part::Body,
            name: Some("jver".to_string()),
        }],
    };
    let mut result = OperatorResult::default();
    operators.extractor_generic(None, &target, &mut result);
    let map = result.extract_result();
    assert_eq!(map.len(), 1);
    assert_eq!(map[0].0, "jver");
    assert_eq!(map[0].1, vec!["9.8.7".to_string()]);
}

#[test]
fn version_hint_entries_are_expanded_from_captures() {
    let target = request_target("server: nginx", "OpenSSH_8.2p1");
    let operators = Operators {
        stop_at_first_match: false,
        matchers_condition: Condition::Or,
        matchers: Vec::new(),
        extractors: vec![Extractor {
            kind: ExtractorKind::Regex { pattern: r"OpenSSH_([\d.]+p\d)".to_string() },
            part: Part::Body,
            name: Some("ssh".to_string()),
        }],
    };
    let version = Some(Version {
        fields: vec![
            ("product".to_string(), "openssh".to_string()),
            ("version".to_string(), "$1".to_string()),
        ],
    });
    let mut result = OperatorResult::default();
    operators.extractor_generic(version, &target, &mut result);
    let map = result.extract_result();
    let product: Vec<&(String, Vec<String>)> =
        map.iter().filter(|e| e.0 == "product").collect();
    assert_eq!(product[0].1, vec!["openssh".to_string()]);
    let ver: Vec<&(String, Vec<String>)> = map.iter().filter(|e| e.0 == "version").collect();
    assert_eq!(ver[0].1, vec!["8.2p1".to_string()]);
}

fn web_template(id: &str, method: &str, path: &str, body: &str) -> Template {
    Template {
        id: id.to_string(),
        info: Info { version: None },
        requests: Requests {
            probe: Probe::Web {
                method: method.to_string(),
                path: path.to_string(),
                headers: Vec::new(),
                body: body.to_string(),
            },
            rarity: 1,
            operators: vec![or_operators(vec![word_matcher(&["x"], Part::Body, None)])],
        },
    }
}

fn tcp_template(id: &str, payload: &str, port: Option<PortRange>) -> Template {
    Template {
        id: id.to_string(),
        info: Info { version: None },
        requests: Requests {
            probe: Probe::Tcp { payload: payload.to_string(), port },
            rarity: 3,
            operators: Vec::new(),
        },
    }
}

#[test]
fn identical_probes_share_one_cluster() {
    let c = cluster_templates(vec![
        web_template("alpha:h1", "GET", "/admin", ""),
        web_template("beta:h2", "GET", "/admin", ""),
    ]);
    assert_eq!(c.web_other.len(), 1);
    assert_eq!(c.web_other[0].operators.len(), 2);
}

#[test]
fn any_differing_byte_makes_a_distinct_cluster() {
    let c = cluster_templates(vec![
        web_template("alpha:h1", "GET", "/admin", ""),
        web_template("beta:h2", "GET", "/admiN", ""),
    ]);
    assert_eq!(c.web_other.len(), 2);
    assert_eq!(c.web_other[0].operators.len(), 1);
    assert_eq!(c.web_other[1].operators.len(), 1);
}

#[test]
fn probes_land_in_their_kind_buckets() {
    let c = cluster_templates(vec![
        web_template("home:h1", "GET", "/", ""),
        web_template("icon:h2", "GET", "/favicon.ico", ""),
        web_template("admin:h3", "GET", "/admin", ""),
        tcp_template("bare:h4", "", None),
        tcp_template("redis:h5", "PING\r\n", Some(PortRange { start: 6379, end: 6379 })),
    ]);
    assert_eq!(c.web_default.len(), 1);
    assert_eq!(c.web_favicon.len(), 1);
    assert_eq!(c.web_other.len(), 1);
    assert!(c.tcp_default.is_some());
    assert_eq!(c.tcp_other.len(), 1);
    assert_eq!(c.port_range.len(), 1);
    assert_eq!(c.tcp_other[0].0, c.port_range[0].0);
    assert_eq!(c.port_range[0].1, Some(PortRange { start: 6379, end: 6379 }));
}

#[test]
fn count_is_the_sum_of_all_buckets() {
    let c = cluster_templates(vec![
        web_template("home:h1", "GET", "/", ""),
        web_template("icon:h2", "GET", "/favicon.ico", ""),
        web_template("admin:h3", "GET", "/admin", ""),
        web_template("admin2:h6", "GET", "/admin", ""),
        tcp_template("bare:h4", "", None),
        tcp_template("bare2:h7", "", None),
        tcp_template("redis:h5", "PING\r\n", Some(PortRange { start: 6379, end: 6379 })),
    ]);
    // shared probes collapse: 1 default + 1 favicon + 1 other + 1 tcp default + 1 tcp other
    assert_eq!(c.count(), 5);
    assert_eq!(c.tcp_default.as_ref().unwrap().operators.len(), 2);
}

#[test]
fn end_to_end_apache_template() {
    let template = Template {
        id: "apache-detect:3f2a".to_string(),
        info: Info { version: None },
        requests: Requests {
            probe: Probe::Web {
                method: "GET".to_string(),
                path: "/".to_string(),
                headers: Vec::new(),
                body: String::new(),
            },
            rarity: 1,
            operators: vec![or_operators(vec![word_matcher(
                &["Apache"],
                Part::Header,
                Some("apache-server"),
            )])],
        },
    };
    let op = ClusteredOperator::new(template);
    let response = response_with("server: Apache/2.4.41", "<html></html>", 200);
    let mut results = MatchEvent::new(Some(response));
    op.matcher(&mut results);
    assert_eq!(results.events.len(), 1);
    assert_eq!(results.events[0].template, "apache-detect");
    assert!(results.events[0].result.is_matched());
    assert!(results.events[0].result.name().contains(&"apache-server".to_string()));
    assert!(results.events[0].result.matcher_word().contains(&"Apache".to_string()));
}

#[test]
fn block_error_skips_only_that_block() {
    let template = Template {
        id: "mixed:9c".to_string(),
        info: Info { version: None },
        requests: Requests {
            probe: Probe::Web {
                method: "GET".to_string(),
                path: "/".to_string(),
                headers: Vec::new(),
                body: String::new(),
            },
            rarity: 1,
            operators: vec![
                // favicon matcher against a response without the hash map: hard error
                or_operators(vec![Matcher {
                    kind: MatcherKind::Favicon { hash: vec!["deadbeef".to_string()] },
                    part: Part::Body,
                    name: Some("icon".to_string()),
                    negative: false,
                }]),
                or_operators(vec![word_matcher(&["Apache"], Part::Header, Some("apache"))]),
            ],
        },
    };
    let op = ClusteredOperator::new(template);
    let response = response_with("server: Apache/2.4.41", "<html></html>", 200);
    let mut results = MatchEvent::new(Some(response));
    op.matcher(&mut results);
    assert_eq!(results.events.len(), 1);
    assert!(results.events[0].result.name().contains(&"apache".to_string()));
}

#[test]
fn matcher_both_runs_request_then_response_pass() {
    let template = Template {
        id: "both:aa".to_string(),
        info: Info { version: None },
        requests: Requests {
            probe: Probe::Web {
                method: "GET".to_string(),
                path: "/".to_string(),
                headers: Vec::new(),
                body: String::new(),
            },
            rarity: 1,
            operators: vec![or_operators(vec![word_matcher(&["token"], Part::Body, Some("req")),
                word_matcher(&["Apache"], Part::Header, Some("resp"))])],
        },
    };
    let op = ClusteredOperator::new(template);
    let request = request_target("accept: */*", "token=abc");
    let response = response_with("server: Apache/2.4.41", "<html></html>", 200);
    let mut results = MatchEvent::new(Some(response_with(
        "server: Apache/2.4.41",
        "<html></html>",
        200,
    )));
    op.matcher_both(&request, &response, &mut results);
    // the request pass matched "token", the response pass matched "Apache"
    assert_eq!(results.events.len(), 2);
    assert!(results.events[0].result.name().contains(&"req".to_string()));
    assert!(results.events[1].result.name().contains(&"resp".to_string()));
}

#[test]
fn shared_names_and_values_are_deduplicated() {
    let target = request_target("server: nginx", "hello hello");
    let operators = Operators {
        stop_at_first_match: false,
        matchers_condition: Condition::Or,
        matchers: vec![
            word_matcher(&["nginx"], Part::Header, Some("same")),
            word_matcher(&["hello"], Part::Body, Some("same")),
        ],
        extractors: vec![
            Extractor {
                kind: ExtractorKind::Regex { pattern: "hel+o".to_string() },
                part: Part::Body,
                name: Some("greeting".to_string()),
            },
            Extractor {
                kind: ExtractorKind::Regex { pattern: "hello".to_string() },
                part: Part::Body,
                name: Some("greeting".to_string()),
            },
        ],
    };
    let mut result = OperatorResult::default();
    operators.matcher_generic(&target, None, &mut result).unwrap();
    operators.extractor_generic(None, &target, &mut result);
    let names: Vec<String> = result.name();
    assert_eq!(names, vec!["same".to_string()]);
    let map = result.extract_result();
    assert_eq!(map.len(), 1);
    assert_eq!(map[0].1, vec!["hello".to_string()]);
}

#[test]
fn decimal_rendering_is_exact() {
    assert_eq!(engine::strings::u64_to_dec(0), "0");
    assert_eq!(engine::strings::u64_to_dec(404), "404");
    assert_eq!(engine::strings::u64_to_dec(65535), "65535");
}

#[test]
fn substitution_expands_groups() {
    let caps = vec!["8.2".to_string(), "p1".to_string()];
    assert_eq!(engine::strings::substitute("v$1-$2 ($9)", &caps), "v8.2-p1 ()");
    assert_eq!(engine::strings::substitute("plain $x", &caps), "plain $x");
}
