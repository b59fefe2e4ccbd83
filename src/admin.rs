use vstd::prelude::*;
use vstd::string::StringExecFns;

use crate::config::{config_error, error_text, Config, ContentSource, ForwardingRule, SourceType};
use crate::router::{glob_matches, glob_to_regex, regex_accepts, regex_compiles};
use crate::text::same_text;

verus! {

/// The envelope of every admin answer.
#[derive(Debug)]
pub struct ApiResponse<T> {
    pub success: bool,
    pub data: Option<T>,
    pub error: Option<String>,
}

impl<T> ApiResponse<T> {
    pub fn success(data: T) -> (r: Self)
        ensures
            r.success,
            r.data == Some(data),
            r.error is None,
    {
        ApiResponse { success: true, data: Some(data), error: None }
    }

    pub fn error(message: String) -> (r: Self)
        ensures
            !r.success,
            r.data is None,
            r.error == Some(message),
    {
        ApiResponse { success: false, data: None, error: Some(message) }
    }
}

/// One replacement's content source, as the admin surface lists it.
#[derive(Debug)]
pub struct ContentSourceInfo {
    pub source_type: String,
    pub identifier: String,
    pub last_updated: Option<String>,
    pub cache_ttl: u64,
    pub content_count: usize,
}

#[derive(Debug)]
pub struct HealthStatus {
    pub status: String,
    pub uptime_seconds: u64,
    pub version: String,
    pub proxy_engine_status: String,
    pub config_file_status: String,
    pub cache_status: String,
}

#[derive(Debug)]
pub struct ConfigValidationResult {
    pub is_valid: bool,
    pub errors: Vec<String>,
    pub warnings: Vec<String>,
}

#[derive(Debug)]
pub struct RuleTestRequest {
    pub method: String,
    pub path: String,
    pub headers: Vec<(String, String)>,
    pub body: Option<String>,
}

#[derive(Debug)]
pub struct RuleTestResult {
    pub matched: bool,
    pub rule_name: Option<String>,
    pub target_url: Option<String>,
    pub applied_replacements: Vec<(String, String)>,
}

/// Why an admin operation on the rule list is refused.
#[derive(Debug, Clone)]
pub enum AdminError {
    /// A rule of that name already exists.
    AlreadyExists { name: String },
    /// No rule has that name.
    NotFound { name: String },
}

/// `i` is the first rule named `name`.
pub open spec fn is_first_named(rules: Seq<ForwardingRule>, name: Seq<char>, i: int) -> bool {
    &&& 0 <= i < rules.len()
    &&& rules[i].name@ == name
    &&& forall|j: int| 0 <= j < i ==> (#[trigger] rules[j]).name@ != name
}

/// No rule is named `name`.
pub open spec fn has_no_rule_named(rules: Seq<ForwardingRule>, name: Seq<char>) -> bool {
    forall|j: int| 0 <= j < rules.len() ==> (#[trigger] rules[j]).name@ != name
}

/// The index of the first rule named `name`, if any.
pub fn position_of(rules: &Vec<ForwardingRule>, name: &str) -> (r: Option<usize>)
    ensures
        r is None <==> has_no_rule_named(rules@, name@),
        r matches Some(i) ==> is_first_named(rules@, name@, i as int),
{
    let mut i: usize = 0;
    while i < rules.len()
        invariant
            i <= rules@.len(),
            forall|j: int| 0 <= j < i ==> (#[trigger] rules@[j]).name@ != name@,
        decreases rules@.len() - i,
    {
        if same_text(rules[i].name.as_str(), name) {
            return Some(i);
        }
        i = i + 1;
    }
    None
}

/// Appends `rule` unless a rule of the same name exists.
pub fn create_rule(rules: &mut Vec<ForwardingRule>, rule: ForwardingRule) -> (r: Result<(), AdminError>)
    ensures
        r is Ok <==> has_no_rule_named(old(rules)@, rule.name@),
        r is Ok ==> final(rules)@ == old(rules)@.push(rule),
        r is Err ==> final(rules)@ == old(rules)@,
        r matches Err(e) ==> e == (AdminError::AlreadyExists { name: rule.name }),
{
    match position_of(rules, rule.name.as_str()) {
        Some(_) => Err(AdminError::AlreadyExists { name: rule.name }),
        None => {
            rules.push(rule);
            Ok(())
        },
    }
}

/// Replaces the first rule named `name` by `rule`, handing back the rule
/// it replaced so that a caller can restore it.
pub fn update_rule(rules: &mut Vec<ForwardingRule>, name: &str, rule: ForwardingRule) -> (r: Result<
    ForwardingRule,
    AdminError,
>)
    ensures
        r is Err <==> has_no_rule_named(old(rules)@, name@),
        r is Err ==> final(rules)@ == old(rules)@,
        r matches Err(e) ==> (e matches AdminError::NotFound { name: n } && n@ == name@),
        r matches Ok(previous) ==> exists|i: int|
            is_first_named(old(rules)@, name@, i) && previous == #[trigger] old(rules)@[i]
                && final(rules)@ == old(rules)@.update(i, rule),
{
    match position_of(rules, name) {
        Some(i) => {
            let previous = rules.remove(i);
            rules.insert(i, rule);
            assert(rules@ =~= old(rules)@.update(i as int, rule));
            Ok(previous)
        },
        None => Err(AdminError::NotFound { name: String::from_str(name) }),
    }
}

/// Removes the first rule named `name`, handing back its position and the
/// rule so that a caller can put it back.
pub fn delete_rule(rules: &mut Vec<ForwardingRule>, name: &str) -> (r: Result<
    (usize, ForwardingRule),
    AdminError,
>)
    ensures
        r is Err <==> has_no_rule_named(old(rules)@, name@),
        r is Err ==> final(rules)@ == old(rules)@,
        r matches Err(e) ==> (e matches AdminError::NotFound { name: n } && n@ == name@),
        r matches Ok((i, removed)) ==> is_first_named(old(rules)@, name@, i as int) && removed
            == old(rules)@[i as int] && final(rules)@ == old(rules)@.remove(i as int),
{
    match position_of(rules, name) {
        Some(i) => {
            let removed = rules.remove(i);
            Ok((i, removed))
        },
        None => Err(AdminError::NotFound { name: String::from_str(name) }),
    }
}

/// Tests the rule named `name` against a path: whether its compiled glob
/// matches, and if so the rule's name and first target URL.
pub fn test_rule(rules: &Vec<ForwardingRule>, name: &str, path: &str) -> (r: Result<
    RuleTestResult,
    AdminError,
>)
    ensures
        r is Err <==> has_no_rule_named(rules@, name@),
        r matches Err(e) ==> (e matches AdminError::NotFound { name: n } && n@ == name@),
        r matches Ok(t) ==> exists|i: int|
            is_first_named(rules@, name@, i) && test_result_is(t, #[trigger] rules@[i], path@),
{
    match position_of(rules, name) {
        Some(i) => {
            let rule = &rules[i];
            let matched = glob_matches(rule.path.as_str(), path);
            let rule_name = if matched {
                Some(rule.name.clone())
            } else {
                None
            };
            let target_url = if matched && rule.target_urls.len() > 0 {
                Some(rule.target_urls[0].clone())
            } else {
                None
            };
            Ok(RuleTestResult { matched, rule_name, target_url, applied_replacements: Vec::new() })
        },
        None => Err(AdminError::NotFound { name: String::from_str(name) }),
    }
}

/// `t` is the outcome of testing `rule` against `path`.
pub open spec fn test_result_is(t: RuleTestResult, rule: ForwardingRule, path: Seq<char>) -> bool {
    let g = glob_to_regex(rule.path@);
    &&& t.matched == (regex_compiles(g) && regex_accepts(g, path))
    &&& t.rule_name == if t.matched {
        Some(rule.name)
    } else {
        None
    }
    &&& t.target_url == if t.matched && rule.target_urls@.len() > 0 {
        Some(rule.target_urls@[0])
    } else {
        None
    }
    &&& t.applied_replacements@.len() == 0
}

/// The name a source kind is listed under.
pub open spec fn source_type_name(t: SourceType) -> Seq<char> {
    match t {
        SourceType::File => "File"@,
        SourceType::Remote => "Remote"@,
    }
}

/// The listing of one replacement list of a rule: kind, identifier
/// `<rule>:<place>:<key>` and TTL of each source.
pub open spec fn listed_sources(
    rule: Seq<char>,
    place: Seq<char>,
    list: Seq<(String, ContentSource)>,
) -> Seq<(Seq<char>, Seq<char>, u64)> {
    list.map_values(
        |e: (String, ContentSource)|
            (source_type_name(e.1.source), rule + ":"@ + place + ":"@ + e.0@, e.1.cache_ttl),
    )
}

/// The listing of every content source of a rule list: per rule, its
/// header sources, then its body sources.
pub open spec fn all_listed_sources(rules: Seq<ForwardingRule>) -> Seq<(Seq<char>, Seq<char>, u64)>
    decreases rules.len(),
{
    if rules.len() == 0 {
        Seq::empty()
    } else {
        let r = rules.last();
        all_listed_sources(rules.drop_last()) + listed_sources(
            r.name@,
            "header"@,
            r.header_replacements@,
        ) + listed_sources(r.name@, "body"@, r.body_replacements@)
    }
}

/// The kind, identifier and TTL of listed sources.
pub open spec fn info_views(v: Seq<ContentSourceInfo>) -> Seq<(Seq<char>, Seq<char>, u64)> {
    v.map_values(|i: ContentSourceInfo| (i.source_type@, i.identifier@, i.cache_ttl))
}

fn list_replacements(
    out: &mut Vec<ContentSourceInfo>,
    rule: &String,
    place: &str,
    list: &Vec<(String, ContentSource)>,
)
    ensures
        info_views(final(out)@) == info_views(old(out)@) + listed_sources(rule@, place@, list@),
        forall|k: int|
            old(out)@.len() <= k < final(out)@.len() ==> (#[trigger] final(out)@[k]).last_updated
                is None && final(out)@[k].content_count == 0,
        forall|k: int| 0 <= k < old(out)@.len() ==> #[trigger] final(out)@[k] == old(out)@[k],
{
    let ghost start = out@;
    let mut i: usize = 0;
    proof {
        reveal_strlit(":");
        reveal_strlit("File");
        reveal_strlit("Remote");
        assert(info_views(out@) =~= info_views(start) + listed_sources(
            rule@,
            place@,
            list@.take(0),
        ));
    }
    while i < list.len()
        invariant
            i <= list@.len(),
            out@.len() == start.len() + i,
            info_views(out@) == info_views(start) + listed_sources(rule@, place@, list@.take(i as int)),
            forall|k: int|
                start.len() <= k < out@.len() ==> (#[trigger] out@[k]).last_updated is None
                    && out@[k].content_count == 0,
            forall|k: int| 0 <= k < start.len() ==> #[trigger] out@[k] == start[k],
        decreases list@.len() - i,
    {
        let entry = &list[i];
        let mut identifier = rule.clone();
        identifier.append(":");
        identifier.append(place);
        identifier.append(":");
        identifier.append(entry.0.as_str());
        let source_type = match entry.1.source {
            SourceType::File => String::from_str("File"),
            SourceType::Remote => String::from_str("Remote"),
        };
        let ghost prev = out@;
        let ghost item = (source_type@, identifier@, entry.1.cache_ttl);
        out.push(
            ContentSourceInfo {
                source_type,
                identifier,
                last_updated: None,
                cache_ttl: entry.1.cache_ttl,
                content_count: 0,
            },
        );
        proof {
            reveal_strlit(":");
            reveal_strlit("File");
            reveal_strlit("Remote");
            let ghost e = list@[i as int];
            assert(list@.take(i + 1) =~= list@.take(i as int).push(e));
            assert(listed_sources(rule@, place@, list@.take(i + 1)) =~= listed_sources(
                rule@,
                place@,
                list@.take(i as int),
            ).push((source_type_name(e.1.source), rule@ + ":"@ + place@ + ":"@ + e.0@, e.1.cache_ttl)));
            assert(info_views(out@) =~= info_views(prev).push(item));
            assert(info_views(out@) =~= info_views(start) + listed_sources(
                rule@,
                place@,
                list@.take(i + 1),
            ));
        }
        i = i + 1;
    }
    assert(list@.take(i as int) =~= list@);
}

/// Every content source the configuration's rules use, with its kind,
/// identifier `<rule>:header:<name>` or `<rule>:body:<pattern>` and TTL.
pub fn list_sources(config: &Config) -> (r: Vec<ContentSourceInfo>)
    ensures
        info_views(r@) == all_listed_sources(config.forwarding_rules@),
        forall|k: int|
            0 <= k < r@.len() ==> (#[trigger] r@[k]).last_updated is None && r@[k].content_count
                == 0,
{
    let rules = &config.forwarding_rules;
    let mut out: Vec<ContentSourceInfo> = Vec::new();
    let mut i: usize = 0;
    proof {
        assert(rules@.take(0) =~= Seq::<ForwardingRule>::empty());
        assert(info_views(out@) =~= Seq::<(Seq<char>, Seq<char>, u64)>::empty());
    }
    while i < rules.len()
        invariant
            i <= rules@.len(),
            rules@ == config.forwarding_rules@,
            info_views(out@) == all_listed_sources(rules@.take(i as int)),
            forall|k: int|
                0 <= k < out@.len() ==> (#[trigger] out@[k]).last_updated is None
                    && out@[k].content_count == 0,
        decreases rules@.len() - i,
    {
        let rule = &rules[i];
        list_replacements(&mut out, &rule.name, "header", &rule.header_replacements);
        list_replacements(&mut out, &rule.name, "body", &rule.body_replacements);
        proof {
            reveal_strlit("header");
            reveal_strlit("body");
            assert(rules@.take(i + 1).drop_last() =~= rules@.take(i as int));
            assert(rules@.take(i + 1).last() == rules@[i as int]);
        }
        i = i + 1;
    }
    assert(rules@.take(i as int) =~= rules@);
    out
}

/// The structural check of a configuration, as the admin surface reports
/// it: valid, or invalid with the message of its first defect.
pub fn validate_config(config: &Config) -> (r: ConfigValidationResult)
    ensures
        r.is_valid == (config_error(*config) is None),
        config_error(*config) is None ==> r.errors@.len() == 0,
        config_error(*config) matches Some(e) ==> (r.errors@.len() == 1 && r.errors@[0]@
            == error_text(e)),
        r.warnings@.len() == 0,
{
    let mut errors: Vec<String> = Vec::new();
    match config.validate() {
        Ok(()) => {},
        Err(e) => {
            errors.push(e.message());
        },
    }
    let is_valid = errors.len() == 0;
    ConfigValidationResult { is_valid, errors, warnings: Vec::new() }
}

} // verus!
