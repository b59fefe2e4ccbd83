use vstd::prelude::*;
use vstd::string::StringExecFns;

verus! {

/// The whole configuration document.
#[derive(Debug, Clone)]
pub struct Config {
    pub server: ServerConfig,
    pub logging: LoggingConfig,
    pub forwarding_rules: Vec<ForwardingRule>,
}

#[derive(Debug, Clone)]
pub struct ServerConfig {
    pub host: String,
    pub port: u16,
    pub web_ui_port: u16,
}

#[derive(Debug, Clone)]
pub struct LoggingConfig {
    pub level: String,
    pub file: Option<String>,
}

/// A named match + rewrite + forward rule. The replacement lists map a
/// header name (or a literal body substring) to the source of its tokens,
/// in the order they are applied.
#[derive(Debug, Clone)]
pub struct ForwardingRule {
    pub name: String,
    pub path: String,
    pub target_urls: Vec<String>,
    pub load_balancing: LoadBalancingStrategy,
    pub header_replacements: Vec<(String, ContentSource)>,
    pub body_replacements: Vec<(String, ContentSource)>,
}

impl View for ForwardingRule {
    type V = (
        String,
        String,
        Seq<String>,
        LoadBalancingStrategy,
        Seq<(String, ContentSource)>,
        Seq<(String, ContentSource)>,
    );

    open spec fn view(&self) -> Self::V {
        (
            self.name,
            self.path,
            self.target_urls@,
            self.load_balancing,
            self.header_replacements@,
            self.body_replacements@,
        )
    }
}

#[derive(Debug, Clone, Copy, PartialEq, Eq, Structural)]
pub enum LoadBalancingStrategy {
    RoundRobin,
    Random,
    WeightedRoundRobin,
}

/// Where replacement tokens come from and how the raw text is split.
#[derive(Debug, Clone)]
pub struct ContentSource {
    pub source: SourceType,
    pub path: Option<String>,
    pub url: Option<String>,
    pub split_by: SplitStrategy,
    pub cache_ttl: u64,
}

#[derive(Debug, Clone, Copy, PartialEq, Eq, Structural)]
pub enum SourceType {
    File,
    Remote,
}

#[derive(Debug, Clone, Copy, PartialEq, Eq, Structural)]
pub enum SplitStrategy {
    Line,
    Comma,
    Space,
}

/// Seconds a fetched source stays cached when the configuration names no TTL.
pub const DEFAULT_CACHE_TTL: u64 = 300;

pub fn default_cache_ttl() -> (r: u64)
    ensures
        r == DEFAULT_CACHE_TTL,
{
    DEFAULT_CACHE_TTL
}

impl Default for ServerConfig {
    fn default() -> (r: Self)
        ensures
            r.host@ == "0.0.0.0"@,
            r.port == 8080,
            r.web_ui_port == 3000,
    {
        ServerConfig { host: String::from_str("0.0.0.0"), port: 8080, web_ui_port: 3000 }
    }
}

impl Default for LoggingConfig {
    fn default() -> (r: Self)
        ensures
            r.level@ == "info"@,
            r.file is None,
    {
        LoggingConfig { level: String::from_str("info"), file: None }
    }
}

impl Default for LoadBalancingStrategy {
    fn default() -> (r: Self)
        ensures
            r == LoadBalancingStrategy::RoundRobin,
    {
        LoadBalancingStrategy::RoundRobin
    }
}

/// Why a content source is unusable.
#[derive(Debug, Clone, Copy, PartialEq, Eq, Structural)]
pub enum SourceError {
    /// A file source without `path`.
    MissingPath,
    /// A remote source without `url`.
    MissingUrl,
}

/// Which replacement list a content source stands in.
#[derive(Debug, Clone, Copy, PartialEq, Eq, Structural)]
pub enum ReplacementPlace {
    Header,
    Body,
}

/// Why a configuration is rejected.
#[derive(Debug, Clone)]
pub enum ConfigError {
    /// The configuration holds no forwarding rule.
    NoRules,
    /// The named rule has no target URL.
    NoTargetUrls { rule: String },
    /// A replacement of the named rule has an unusable source.
    InvalidSource { rule: String, place: ReplacementPlace, key: String, error: SourceError },
}

/// The defect of a content source, if it has one.
pub open spec fn source_error(s: ContentSource) -> Option<SourceError> {
    match s.source {
        SourceType::File => if s.path is None {
            Some(SourceError::MissingPath)
        } else {
            None
        },
        SourceType::Remote => if s.url is None {
            Some(SourceError::MissingUrl)
        } else {
            None
        },
    }
}

/// The first defective source of a replacement list, as a rejection of `rule`.
pub open spec fn replacements_error(
    rule: String,
    place: ReplacementPlace,
    list: Seq<(String, ContentSource)>,
) -> Option<ConfigError>
    decreases list.len(),
{
    if list.len() == 0 {
        None
    } else if source_error(list[0].1) is Some {
        Some(
            ConfigError::InvalidSource {
                rule,
                place,
                key: list[0].0,
                error: source_error(list[0].1)->0,
            },
        )
    } else {
        replacements_error(rule, place, list.drop_first())
    }
}

/// The first defect of a rule: no target, then a bad header source, then a
/// bad body source.
pub open spec fn rule_error(r: ForwardingRule) -> Option<ConfigError> {
    if r.target_urls@.len() == 0 {
        Some(ConfigError::NoTargetUrls { rule: r.name })
    } else if replacements_error(r.name, ReplacementPlace::Header, r.header_replacements@) is Some {
        replacements_error(r.name, ReplacementPlace::Header, r.header_replacements@)
    } else {
        replacements_error(r.name, ReplacementPlace::Body, r.body_replacements@)
    }
}

/// The first defect of a rule list, scanning rules in order.
pub open spec fn rules_error(rules: Seq<ForwardingRule>) -> Option<ConfigError>
    decreases rules.len(),
{
    if rules.len() == 0 {
        None
    } else if rule_error(rules[0]) is Some {
        rule_error(rules[0])
    } else {
        rules_error(rules.drop_first())
    }
}

/// The first defect of a configuration: no rule at all, else the first
/// defect of its rules.
pub open spec fn config_error(c: Config) -> Option<ConfigError> {
    if c.forwarding_rules@.len() == 0 {
        Some(ConfigError::NoRules)
    } else {
        rules_error(c.forwarding_rules@)
    }
}

/// The message of a configuration defect.
pub open spec fn error_text(e: ConfigError) -> Seq<char> {
    match e {
        ConfigError::NoRules => "At least one forwarding rule is required"@,
        ConfigError::NoTargetUrls { rule } => "Rule '"@ + rule@
            + "' must have at least one target URL"@,
        ConfigError::InvalidSource { rule: _, place, key, error } => (match place {
            ReplacementPlace::Header => "header replacement '"@,
            ReplacementPlace::Body => "body replacement '"@,
        }) + key@ + (match error {
            SourceError::MissingPath => "': file source requires 'path' field"@,
            SourceError::MissingUrl => "': remote source requires 'url' field"@,
        }),
    }
}

impl ConfigError {
    /// A sentence saying what is wrong.
    pub fn message(&self) -> (r: String)
        ensures
            r@ == error_text(*self),
    {
        proof {
            reveal_strlit("At least one forwarding rule is required");
            reveal_strlit("Rule '");
            reveal_strlit("' must have at least one target URL");
            reveal_strlit("header replacement '");
            reveal_strlit("body replacement '");
            reveal_strlit("': file source requires 'path' field");
            reveal_strlit("': remote source requires 'url' field");
        }
        match self {
            ConfigError::NoRules => String::from_str("At least one forwarding rule is required"),
            ConfigError::NoTargetUrls { rule } => {
                let mut m = String::from_str("Rule '");
                m.append(rule.as_str());
                m.append("' must have at least one target URL");
                m
            },
            ConfigError::InvalidSource { rule: _, place, key, error } => {
                let mut m = match place {
                    ReplacementPlace::Header => String::from_str("header replacement '"),
                    ReplacementPlace::Body => String::from_str("body replacement '"),
                };
                m.append(key.as_str());
                match error {
                    SourceError::MissingPath => m.append("': file source requires 'path' field"),
                    SourceError::MissingUrl => m.append("': remote source requires 'url' field"),
                }
                m
            },
        }
    }
}

impl ContentSource {
    /// A file source needs a path, a remote source a URL.
    pub fn validate(&self) -> (r: Result<(), SourceError>)
        ensures
            r is Ok <==> source_error(*self) is None,
            r matches Err(e) ==> source_error(*self) == Some(e),
    {
        match self.source {
            SourceType::File => {
                if self.path.is_none() {
                    return Err(SourceError::MissingPath);
                }
            },
            SourceType::Remote => {
                if self.url.is_none() {
                    return Err(SourceError::MissingUrl);
                }
            },
        }
        Ok(())
    }
}

fn check_replacements(rule: &String, place: ReplacementPlace, list: &Vec<(String, ContentSource)>) -> (r:
    Result<(), ConfigError>)
    ensures
        r is Ok <==> replacements_error(*rule, place, list@) is None,
        r matches Err(e) ==> replacements_error(*rule, place, list@) == Some(e),
{
    let mut i: usize = 0;
    assert(list@.skip(0) =~= list@);
    while i < list.len()
        invariant
            i <= list@.len(),
            replacements_error(*rule, place, list@) == replacements_error(
                *rule,
                place,
                list@.skip(i as int),
            ),
        decreases list@.len() - i,
    {
        let entry = &list[i];
        assert(list@.skip(i as int).drop_first() =~= list@.skip(i + 1));
        match entry.1.validate() {
            Ok(()) => {},
            Err(e) => {
                return Err(
                    ConfigError::InvalidSource {
                        rule: rule.clone(),
                        place,
                        key: entry.0.clone(),
                        error: e,
                    },
                );
            },
        }
        i = i + 1;
    }
    Ok(())
}

impl Config {
    /// Structural check: at least one rule, each with a target URL, and
    /// every content source carrying the field its kind needs. Reports the
    /// first defect found.
    pub fn validate(&self) -> (r: Result<(), ConfigError>)
        ensures
            r is Ok <==> config_error(*self) is None,
            r matches Err(e) ==> config_error(*self) == Some(e),
    {
        let rules = &self.forwarding_rules;
        if rules.len() == 0 {
            return Err(ConfigError::NoRules);
        }
        let mut i: usize = 0;
        assert(rules@.skip(0) =~= rules@);
        while i < rules.len()
            invariant
                i <= rules@.len(),
                rules@.len() > 0,
                rules@ == self.forwarding_rules@,
                rules_error(rules@) == rules_error(rules@.skip(i as int)),
            decreases rules@.len() - i,
        {
            let rule = &rules[i];
            assert(rules@.skip(i as int).drop_first() =~= rules@.skip(i + 1));
            if rule.target_urls.len() == 0 {
                return Err(ConfigError::NoTargetUrls { rule: rule.name.clone() });
            }
            check_replacements(&rule.name, ReplacementPlace::Header, &rule.header_replacements)?;
            check_replacements(&rule.name, ReplacementPlace::Body, &rule.body_replacements)?;
            i = i + 1;
        }
        assert(rules@.skip(i as int) =~= Seq::<ForwardingRule>::empty());
        Ok(())
    }
}

fn copy_text(s: &Option<String>) -> (r: Option<String>)
    ensures
        r == *s,
{
    match s {
        Some(t) => Some(t.clone()),
        None => None,
    }
}

/// A copy of a list of strings.
pub fn copy_texts(v: &Vec<String>) -> (r: Vec<String>)
    ensures
        r@ == v@,
{
    let mut out: Vec<String> = Vec::new();
    let mut i: usize = 0;
    while i < v.len()
        invariant
            i <= v@.len(),
            out@ == v@.take(i as int),
        decreases v@.len() - i,
    {
        out.push(v[i].clone());
        assert(v@.take(i + 1) =~= v@.take(i as int).push(v@[i as int]));
        i = i + 1;
    }
    assert(v@.take(v@.len() as int) =~= v@);
    out
}

/// A copy of a content source.
pub fn copy_source(s: &ContentSource) -> (r: ContentSource)
    ensures
        r == *s,
{
    ContentSource {
        source: s.source,
        path: copy_text(&s.path),
        url: copy_text(&s.url),
        split_by: s.split_by,
        cache_ttl: s.cache_ttl,
    }
}

fn copy_replacements(v: &Vec<(String, ContentSource)>) -> (r: Vec<(String, ContentSource)>)
    ensures
        r@ == v@,
{
    let mut out: Vec<(String, ContentSource)> = Vec::new();
    let mut i: usize = 0;
    while i < v.len()
        invariant
            i <= v@.len(),
            out@ == v@.take(i as int),
        decreases v@.len() - i,
    {
        out.push((v[i].0.clone(), copy_source(&v[i].1)));
        assert(v@.take(i + 1) =~= v@.take(i as int).push(v@[i as int]));
        i = i + 1;
    }
    assert(v@.take(v@.len() as int) =~= v@);
    out
}

/// A copy of a rule.
pub fn copy_rule(r: &ForwardingRule) -> (c: ForwardingRule)
    ensures
        c@ == r@,
{
    ForwardingRule {
        name: r.name.clone(),
        path: r.path.clone(),
        target_urls: copy_texts(&r.target_urls),
        load_balancing: r.load_balancing,
        header_replacements: copy_replacements(&r.header_replacements),
        body_replacements: copy_replacements(&r.body_replacements),
    }
}

} // verus!
