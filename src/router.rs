use vstd::prelude::*;
use vstd::string::StringExecFns;

use crate::config::ForwardingRule;
use crate::text::{chars_of, push_char};

verus! {

/// Characters that stand for themselves in a glob but are operators in a
/// regular expression.
pub open spec fn is_regex_meta(c: char) -> bool {
    c == '.' || c == '+' || c == '^' || c == '$' || c == '(' || c == ')' || c == '[' || c == ']'
        || c == '{' || c == '}' || c == '|' || c == '\\'
}

/// The regular-expression text of a glob, unanchored: `**` is `.*`, `*` is
/// `[^/]*`, `?` is `.`, operators are escaped, anything else is literal.
/// Globs are scanned left to right, so `***` is `**` then `*`.
pub open spec fn glob_body(g: Seq<char>) -> Seq<char>
    decreases g.len(),
{
    if g.len() == 0 {
        Seq::empty()
    } else if g[0] == '*' && g.len() > 1 && g[1] == '*' {
        seq!['.', '*'] + glob_body(g.skip(2))
    } else if g[0] == '*' {
        seq!['[', '^', '/', ']', '*'] + glob_body(g.drop_first())
    } else if g[0] == '?' {
        seq!['.'] + glob_body(g.drop_first())
    } else if is_regex_meta(g[0]) {
        seq!['\\', g[0]] + glob_body(g.drop_first())
    } else {
        seq![g[0]] + glob_body(g.drop_first())
    }
}

/// The anchored regular expression of a glob: `^<body>$`.
pub open spec fn glob_to_regex(g: Seq<char>) -> Seq<char> {
    seq!['^'] + glob_body(g) + seq!['$']
}

/// Names whether `regex::Regex::new` accepts a pattern.
pub uninterp spec fn regex_compiles(pattern: Seq<char>) -> bool;

/// Names what `regex::Regex::is_match` answers for a pattern and a haystack.
pub uninterp spec fn regex_accepts(pattern: Seq<char>, haystack: Seq<char>) -> bool;

/// Whether a path selects a rule: the regex of its glob matches the path.
pub open spec fn rule_accepts(rule: ForwardingRule, path: Seq<char>) -> bool {
    regex_accepts(glob_to_regex(rule.path@), path)
}

/// The rule set after a reconfiguration: the new set when it was
/// accepted, else the old one untouched.
pub open spec fn replaced_or_kept(
    before: Seq<ForwardingRule>,
    after: Seq<ForwardingRule>,
    given: Seq<ForwardingRule>,
    accepted: bool,
) -> bool {
    if accepted {
        after == given
    } else {
        after == before
    }
}

/// `e` reports the first rule of `rules` whose glob's regex does not
/// compile.
pub open spec fn is_first_refused(rules: Seq<ForwardingRule>, e: RouterError) -> bool {
    exists|i: int|
        #![trigger rules[i]]
        0 <= i < rules.len() && !regex_compiles(glob_to_regex(rules[i].path@)) && (forall|j: int|
            0 <= j < i ==> regex_compiles(glob_to_regex(#[trigger] rules[j].path@))) && match e {
            RouterError::InvalidPattern { rule, pattern } => rule == rules[i].name && pattern@
                == glob_to_regex(rules[i].path@),
        }
}

/// `i` is the first rule, in declaration order, that accepts `path`.
pub open spec fn is_first_match(rules: Seq<ForwardingRule>, path: Seq<char>, i: int) -> bool {
    &&& 0 <= i < rules.len()
    &&& rule_accepts(rules[i], path)
    &&& forall|j: int| 0 <= j < i ==> !rule_accepts(#[trigger] rules[j], path)
}

/// No rule accepts `path`.
pub open spec fn no_match(rules: Seq<ForwardingRule>, path: Seq<char>) -> bool {
    forall|j: int| 0 <= j < rules.len() ==> !rule_accepts(#[trigger] rules[j], path)
}

#[verifier::external_type_specification]
#[verifier::external_body]
pub struct ExRegex(regex::Regex);

#[verifier::external_type_specification]
#[verifier::external_body]
pub struct ExRegexError(regex::Error);

/// A regular expression together with the text it was compiled from.
/// Only `compile` builds one, so `regex` is always `source` compiled.
#[derive(Debug)]
pub struct CompiledPattern {
    source: String,
    regex: regex::Regex,
}

impl View for CompiledPattern {
    type V = Seq<char>;

    closed spec fn view(&self) -> Seq<char> {
        self.source@
    }
}

/// Relies on regex::Regex::new: compiles `source`, or reports why not.
#[verifier::external_body]
fn compile(source: String) -> (r: Result<CompiledPattern, regex::Error>)
    ensures
        r is Ok <==> regex_compiles(source@),
        r matches Ok(c) ==> c@ == source@,
{
    regex::Regex::new(&source).map(|regex| CompiledPattern { source, regex })
}

/// Relies on regex::Regex::is_match: whether the compiled `source` matches
/// somewhere in `haystack`.
#[verifier::external_body]
fn is_match(c: &CompiledPattern, haystack: &str) -> (r: bool)
    ensures
        r == regex_accepts(c@, haystack@),
{
    c.regex.is_match(haystack)
}

/// A rule with the regex of its glob, compiled.
#[derive(Debug)]
pub struct RoutePattern {
    pub pattern: String,
    pub regex: CompiledPattern,
    pub rule: ForwardingRule,
}

impl RoutePattern {
    pub open spec fn wf(&self) -> bool {
        &&& self.pattern@ == glob_to_regex(self.rule.path@)
        &&& self.regex@ == self.pattern@
    }
}

/// Why a rule set is refused.
#[derive(Debug, Clone)]
pub enum RouterError {
    /// The regex made from a rule's glob does not compile.
    InvalidPattern { rule: String, pattern: String },
}

/// An ordered list of compiled routes; the first that matches wins.
#[derive(Debug)]
pub struct ProxyRouter {
    routes: Vec<RoutePattern>,
}

/// A rule matched for a request, with the named captures of the match.
#[derive(Debug, Clone)]
pub struct RouteMatch {
    pub rule: ForwardingRule,
    pub captures: Vec<(String, String)>,
}

impl ProxyRouter {
    /// The live rules, in match order.
    pub closed spec fn rules(&self) -> Seq<ForwardingRule> {
        self.routes@.map_values(|r: RoutePattern| r.rule)
    }

    /// Every route holds the compiled regex of its rule's glob.
    pub closed spec fn wf(&self) -> bool {
        forall|i: int| 0 <= i < self.routes@.len() ==> (#[trigger] self.routes@[i]).wf()
    }

    pub fn new() -> (r: Self)
        ensures
            r.wf(),
            r.rules() == Seq::<ForwardingRule>::empty(),
    {
        let r = ProxyRouter { routes: Vec::new() };
        assert(r.rules() =~= Seq::<ForwardingRule>::empty());
        r
    }

    /// The anchored regular expression of a glob.
    pub fn path_to_regex(&self, path: &str) -> (r: Result<String, RouterError>)
        ensures
            r matches Ok(s) && s@ == glob_to_regex(path@),
    {
        Ok(glob_regex(path))
    }

    /// Appends a rule after compiling its glob; a glob whose regex does not
    /// compile is refused and nothing changes.
    pub fn add_rule(&mut self, rule: ForwardingRule) -> (r: Result<(), RouterError>)
        requires
            old(self).wf(),
        ensures
            final(self).wf(),
            r is Ok <==> regex_compiles(glob_to_regex(rule.path@)),
            r is Ok ==> final(self).rules() == old(self).rules().push(rule),
            r is Err ==> final(self).rules() == old(self).rules(),
            r matches Err(RouterError::InvalidPattern { rule: name, pattern }) ==> name == rule.name
                && pattern@ == glob_to_regex(rule.path@),
    {
        match compile_route(rule) {
            Ok(route) => {
                self.routes.push(route);
                assert(self.rules() =~= old(self).rules().push(route.rule));
                Ok(())
            },
            Err(e) => Err(e),
        }
    }

    /// The first rule, in declaration order, whose compiled glob matches
    /// `path`.
    pub fn find_matching_rule(&self, path: &str) -> (r: Option<&ForwardingRule>)
        requires
            self.wf(),
        ensures
            r is None <==> no_match(self.rules(), path@),
            r matches Some(x) ==> exists|i: int|
                is_first_match(self.rules(), path@, i) && *x == #[trigger] self.rules()[i],
    {
        let mut i: usize = 0;
        while i < self.routes.len()
            invariant
                self.wf(),
                i <= self.routes@.len(),
                forall|j: int| 0 <= j < i ==> !rule_accepts(#[trigger] self.rules()[j], path@),
            decreases self.routes@.len() - i,
        {
            let route = &self.routes[i];
            assert(route.wf());
            if is_match(&route.regex, path) {
                assert(is_first_match(self.rules(), path@, i as int));
                return Some(&route.rule);
            }
            i = i + 1;
        }
        None
    }

    /// Replaces the whole rule set, or refuses it and keeps the old one:
    /// every glob is compiled before anything changes.
    pub fn update_rules(&mut self, rules: Vec<ForwardingRule>) -> (r: Result<(), RouterError>)
        requires
            old(self).wf(),
        ensures
            final(self).wf(),
            r is Ok <==> forall|i: int|
                0 <= i < rules@.len() ==> regex_compiles(glob_to_regex(#[trigger] rules@[i].path@)),
            replaced_or_kept(old(self).rules(), final(self).rules(), rules@, r is Ok),
            r matches Err(e) ==> is_first_refused(rules@, e),
    {
        let ghost given = rules@;
        let mut routes: Vec<RoutePattern> = Vec::new();
        for rule in it: rules
            invariant
                self.wf(),
                self.rules() == old(self).rules(),
                it.seq() == given,
                routes@.len() == it.index(),
                forall|k: int| 0 <= k < routes@.len() ==> (#[trigger] routes@[k]).wf(),
                forall|k: int| 0 <= k < routes@.len() ==> #[trigger] routes@[k].rule == given[k],
                forall|k: int|
                    0 <= k < it.index() ==> regex_compiles(glob_to_regex(#[trigger] given[k].path@)),
        {
            match compile_route(rule) {
                Ok(route) => {
                    routes.push(route);
                },
                Err(e) => {
                    assert(is_first_refused(given, e));
                    return Err(e);
                },
            }
        }
        self.routes = routes;
        assert(self.rules() =~= given);
        Ok(())
    }

    /// The live rules, in match order.
    pub fn get_all_rules(&self) -> (r: Vec<&ForwardingRule>)
        ensures
            r@.len() == self.rules().len(),
            forall|i: int| 0 <= i < r@.len() ==> *#[trigger] r@[i] == self.rules()[i],
    {
        let mut out: Vec<&ForwardingRule> = Vec::new();
        let mut i: usize = 0;
        while i < self.routes.len()
            invariant
                i <= self.routes@.len(),
                out@.len() == i,
                forall|k: int| 0 <= k < i ==> *#[trigger] out@[k] == self.rules()[k],
            decreases self.routes@.len() - i,
        {
            out.push(&self.routes[i].rule);
            i = i + 1;
        }
        out
    }
}

impl Default for ProxyRouter {
    fn default() -> (r: Self)
        ensures
            r.wf(),
            r.rules() == Seq::<ForwardingRule>::empty(),
    {
        Self::new()
    }
}

/// The anchored regular expression of a glob.
fn glob_regex(path: &str) -> (r: String)
    ensures
        r@ == glob_to_regex(path@),
{
    let g = chars_of(path);
    let mut out = String::from_str("^");
    let mut i: usize = 0;
    proof {
        reveal_strlit("^");
        assert(g@.skip(0) =~= g@);
    }
    while i < g.len()
        invariant
            i <= g@.len(),
            out@ + glob_body(g@.skip(i as int)) == seq!['^'] + glob_body(g@),
        decreases g@.len() - i,
    {
        let ghost rest = g@.skip(i as int);
        let c = g[i];
        assert(rest[0] == c);
        if c == '*' && i + 1 < g.len() && g[i + 1] == '*' {
            assert(rest.skip(2) =~= g@.skip(i + 2));
            out.append(".*");
            proof {
                reveal_strlit(".*");
            }
            i = i + 2;
        } else {
            assert(rest.drop_first() =~= g@.skip(i + 1));
            if c == '*' {
                out.append("[^/]*");
                proof {
                    reveal_strlit("[^/]*");
                }
            } else if c == '?' {
                push_char(&mut out, '.');
            } else if c == '.' || c == '+' || c == '^' || c == '$' || c == '(' || c == ')' || c
                == '[' || c == ']' || c == '{' || c == '}' || c == '|' || c == '\\' {
                push_char(&mut out, '\\');
                push_char(&mut out, c);
            } else {
                push_char(&mut out, c);
            }
            i = i + 1;
        }
        assert(out@ + glob_body(g@.skip(i as int)) =~= seq!['^'] + glob_body(g@));
    }
    push_char(&mut out, '$');
    assert(g@.skip(i as int) =~= Seq::<char>::empty());
    assert(out@ =~= glob_to_regex(path@));
    out
}

/// Whether `path` matches the compiled regex of `glob`; a glob whose
/// regex does not compile matches nothing.
pub fn glob_matches(glob: &str, path: &str) -> (r: bool)
    ensures
        r == (regex_compiles(glob_to_regex(glob@)) && regex_accepts(glob_to_regex(glob@), path@)),
{
    match compile(glob_regex(glob)) {
        Ok(c) => is_match(&c, path),
        Err(_) => false,
    }
}

/// Compiles the regex of a rule's glob.
fn compile_route(rule: ForwardingRule) -> (r: Result<RoutePattern, RouterError>)
    ensures
        r is Ok <==> regex_compiles(glob_to_regex(rule.path@)),
        r matches Ok(route) ==> route.wf() && route.rule == rule,
        r matches Err(RouterError::InvalidPattern { rule: name, pattern }) ==> name == rule.name
            && pattern@ == glob_to_regex(rule.path@),
{
    let pattern = glob_regex(rule.path.as_str());
    match compile(pattern.clone()) {
        Ok(regex) => Ok(RoutePattern { pattern, regex, rule }),
        Err(_) => Err(RouterError::InvalidPattern { rule: rule.name, pattern }),
    }
}

/// Routing is deterministic: for a rule list and a path there is at most
/// one first matching rule, so every lookup of the path picks the same one.
pub proof fn lemma_routing_deterministic(rules: Seq<ForwardingRule>, path: Seq<char>, i: int, j: int)
    requires
        is_first_match(rules, path, i),
        is_first_match(rules, path, j),
    ensures
        i == j,
{
    if i < j {
        assert(!rule_accepts(rules[i], path));
    } else if j < i {
        assert(!rule_accepts(rules[j], path));
    }
}

/// Reconfiguration is atomic: once `update_rules` has returned, a lookup
/// matches against exactly the new rule set if it was accepted, and
/// exactly the old one if it was refused, never a mixture of the two.
pub proof fn lemma_reconfiguration_atomic(
    before: Seq<ForwardingRule>,
    after: Seq<ForwardingRule>,
    given: Seq<ForwardingRule>,
    accepted: bool,
    path: Seq<char>,
    i: int,
)
    requires
        replaced_or_kept(before, after, given, accepted),
    ensures
        accepted ==> (is_first_match(after, path, i) <==> is_first_match(given, path, i)),
        accepted ==> (no_match(after, path) <==> no_match(given, path)),
        !accepted ==> (is_first_match(after, path, i) <==> is_first_match(before, path, i)),
        !accepted ==> (no_match(after, path) <==> no_match(before, path)),
{
}

} // verus!
