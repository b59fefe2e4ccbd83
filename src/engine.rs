use vstd::prelude::*;
use vstd::string::StringExecFns;

use crate::config::{ContentSource, ForwardingRule};
use crate::cache::{expiry, lookup};
use crate::content::{
    cache_key, fetch_plan_of, split_tokens, views, ContentManager, FetchError, FetchPlan,
};
use crate::round_robin::{advance, cursor_at, slot, RoundRobinManager};
use crate::router::{
    is_first_match, is_first_refused, no_match, replaced_or_kept, ProxyRouter, RouterError,
};
use crate::text::{replace_all, replace_all_occurrences, same_text, strip_then_append, strip_trailing};

verus! {

/// The largest request body buffered for body replacement, in bytes.
pub const MAX_BODY_BYTES: usize = 16 * 1024 * 1024;

/// The request methods that can be forwarded.
#[derive(Debug, Clone, Copy, PartialEq, Eq, Structural)]
pub enum HttpMethod {
    Get,
    Post,
    Put,
    Delete,
    Patch,
    Head,
}

/// Why a request is not forwarded.
#[derive(Debug, Clone, Copy, PartialEq, Eq, Structural)]
pub enum ProxyError {
    /// No rule's pattern matches the path.
    NoRule,
    /// Replacement content could not be had: a source fetch failed, or the
    /// body to rewrite could not be read.
    ContentFetch,
    /// The matched rule has no target URL.
    UpstreamUnavailable,
    /// Sending upstream or reading its answer failed.
    UpstreamTransport,
    /// The method is not one that can be forwarded.
    UnsupportedMethod,
    /// The request body exceeds the buffering cap.
    BodyTooLarge,
}

/// The HTTP status a client gets for each failure.
pub open spec fn status_of(e: ProxyError) -> u16 {
    match e {
        ProxyError::NoRule => 404,
        ProxyError::ContentFetch => 500,
        ProxyError::UpstreamUnavailable => 503,
        ProxyError::UpstreamTransport => 502,
        ProxyError::UnsupportedMethod => 502,
        ProxyError::BodyTooLarge => 413,
    }
}

impl ProxyError {
    pub fn status_code(&self) -> (r: u16)
        ensures
            r == status_of(*self),
    {
        match self {
            ProxyError::NoRule => 404,
            ProxyError::ContentFetch => 500,
            ProxyError::UpstreamUnavailable => 503,
            ProxyError::UpstreamTransport => 502,
            ProxyError::UnsupportedMethod => 502,
            ProxyError::BodyTooLarge => 413,
        }
    }
}

/// The method a request-method name stands for, if it can be forwarded.
pub open spec fn method_named(m: Seq<char>) -> Option<HttpMethod> {
    if m == "GET"@ {
        Some(HttpMethod::Get)
    } else if m == "POST"@ {
        Some(HttpMethod::Post)
    } else if m == "PUT"@ {
        Some(HttpMethod::Put)
    } else if m == "DELETE"@ {
        Some(HttpMethod::Delete)
    } else if m == "PATCH"@ {
        Some(HttpMethod::Patch)
    } else if m == "HEAD"@ {
        Some(HttpMethod::Head)
    } else {
        None
    }
}

/// GET, POST, PUT, DELETE, PATCH and HEAD can be forwarded; any other
/// method is unsupported.
pub fn parse_method(m: &str) -> (r: Result<HttpMethod, ProxyError>)
    ensures
        method_named(m@) matches Some(x) ==> r == Ok::<HttpMethod, ProxyError>(x),
        method_named(m@) is None ==> r == Err::<HttpMethod, ProxyError>(ProxyError::UnsupportedMethod),
{
    if same_text(m, "GET") {
        Ok(HttpMethod::Get)
    } else if same_text(m, "POST") {
        Ok(HttpMethod::Post)
    } else if same_text(m, "PUT") {
        Ok(HttpMethod::Put)
    } else if same_text(m, "DELETE") {
        Ok(HttpMethod::Delete)
    } else if same_text(m, "PATCH") {
        Ok(HttpMethod::Patch)
    } else if same_text(m, "HEAD") {
        Ok(HttpMethod::Head)
    } else {
        Err(ProxyError::UnsupportedMethod)
    }
}

/// The upstream URL of a request: the target without trailing slashes,
/// then the request's path and query.
pub fn upstream_url(target_url: &str, path_and_query: &str) -> (r: String)
    ensures
        r@ == strip_trailing(target_url@, '/') + path_and_query@,
{
    strip_then_append(target_url, '/', path_and_query)
}

/// The cursor key of a header replacement: `<rule>:<header>`.
pub open spec fn header_key(rule: Seq<char>, header: Seq<char>) -> Seq<char> {
    rule + ":"@ + header
}

/// The cursor key of a body replacement: `<rule>:body:<pattern>`.
pub open spec fn body_key(rule: Seq<char>, pattern: Seq<char>) -> Seq<char> {
    rule + ":body:"@ + pattern
}

/// One round-robin pick from a token list under a cursor key: nothing
/// from an empty list, else the token at the cursor, which then advances.
pub open spec fn pick(cursors: Map<Seq<char>, usize>, key: Seq<char>, tokens: Seq<Seq<char>>) -> (
    Map<Seq<char>, usize>,
    Option<Seq<char>>,
) {
    if tokens.len() == 0 {
        (cursors, None)
    } else {
        let c = cursor_at(cursors, key);
        (cursors.insert(key, advance(c)), Some(tokens[slot(c, tokens.len())]))
    }
}

/// The keys of a replacement list, in order.
pub open spec fn replacement_keys(list: Seq<(String, ContentSource)>) -> Seq<Seq<char>> {
    list.map_values(|e: (String, ContentSource)| e.0@)
}

/// The character views of a list of token lists.
pub open spec fn token_lists(contents: Seq<Vec<String>>) -> Seq<Seq<Seq<char>>> {
    contents.map_values(|v: Vec<String>| views(v@))
}

/// The character views of optional strings.
pub open spec fn option_views(v: Seq<Option<String>>) -> Seq<Option<Seq<char>>> {
    v.map_values(
        |o: Option<String>|
            match o {
                Some(s) => Some(s@),
                None => None,
            },
    )
}

/// Picks for the headers `names` of rule `rule`, in order, from the token
/// lists `lists`: the cursors afterwards and the token chosen for each
/// header.
pub open spec fn header_picks(
    cursors: Map<Seq<char>, usize>,
    rule: Seq<char>,
    names: Seq<Seq<char>>,
    lists: Seq<Seq<Seq<char>>>,
) -> (Map<Seq<char>, usize>, Seq<Option<Seq<char>>>)
    decreases names.len(),
{
    if names.len() == 0 {
        (cursors, Seq::empty())
    } else {
        let (c1, chosen) = header_picks(cursors, rule, names.drop_last(), lists.drop_last());
        let (c2, p) = pick(c1, header_key(rule, names.last()), lists.last());
        (c2, chosen.push(p))
    }
}

/// The body after the replacements `patterns` of rule `rule`, applied in
/// order, each replacing every occurrence of its pattern with one picked
/// token: the cursors afterwards and the rewritten body.
pub open spec fn body_rewrite(
    cursors: Map<Seq<char>, usize>,
    rule: Seq<char>,
    patterns: Seq<Seq<char>>,
    lists: Seq<Seq<Seq<char>>>,
    body: Seq<char>,
) -> (Map<Seq<char>, usize>, Seq<char>)
    decreases patterns.len(),
{
    if patterns.len() == 0 {
        (cursors, body)
    } else {
        let (c1, b1) = body_rewrite(cursors, rule, patterns.drop_last(), lists.drop_last(), body);
        let (c2, p) = pick(c1, body_key(rule, patterns.last()), lists.last());
        (
            c2,
            match p {
                Some(t) => replace_all(b1, patterns.last(), t),
                None => b1,
            },
        )
    }
}

fn key_with(rule: &String, infix: &str, suffix: &String) -> (r: String)
    ensures
        r@ == rule@ + infix@ + suffix@,
{
    let mut key = rule.clone();
    key.append(infix);
    key.append(suffix.as_str());
    key
}

/// What to send upstream for one request.
#[derive(Debug, Clone)]
pub struct ForwardPlan {
    pub method: HttpMethod,
    pub url: String,
    /// The value chosen for each header replacement of the rule, in order;
    /// `None` where its source had no token.
    pub header_values: Vec<Option<String>>,
    /// The rewritten body, when the rule has body replacements.
    pub body: Option<String>,
}

/// Routes requests, rewrites them and picks their upstream.
#[derive(Debug)]
pub struct ProxyEngine {
    router: ProxyRouter,
    round_robin: RoundRobinManager,
    content_manager: ContentManager,
}

impl ProxyEngine {
    pub closed spec fn wf(&self) -> bool {
        self.router.wf()
    }

    /// The live rules, in match order.
    pub closed spec fn rules(&self) -> Seq<ForwardingRule> {
        self.router.rules()
    }

    pub closed spec fn url_cursor(&self) -> usize {
        self.round_robin.url_cursor()
    }

    pub closed spec fn token_cursors(&self) -> Map<Seq<char>, usize> {
        self.round_robin.token_cursors()
    }

    /// The content cache's entries.
    pub closed spec fn cache(&self) -> Map<Seq<char>, (Seq<Seq<char>>, u64)> {
        self.content_manager.table()
    }

    pub fn new() -> (e: Self)
        ensures
            e.wf(),
            e.rules() == Seq::<ForwardingRule>::empty(),
            e.url_cursor() == 0,
            e.token_cursors() == Map::<Seq<char>, usize>::empty(),
            e.cache() == Map::<Seq<char>, (Seq<Seq<char>>, u64)>::empty(),
    {
        ProxyEngine {
            router: ProxyRouter::new(),
            round_robin: RoundRobinManager::new(),
            content_manager: ContentManager::new(),
        }
    }

    /// Replaces the rule set atomically, or refuses it and keeps the old
    /// one. An accepted set starts every token cursor afresh; the URL
    /// cursor and the content cache are kept.
    pub fn update_rules(&mut self, rules: Vec<ForwardingRule>) -> (r: Result<(), RouterError>)
        requires
            old(self).wf(),
        ensures
            final(self).wf(),
            r is Ok <==> forall|i: int|
                0 <= i < rules@.len() ==> crate::router::regex_compiles(
                    crate::router::glob_to_regex(#[trigger] rules@[i].path@),
                ),
            replaced_or_kept(old(self).rules(), final(self).rules(), rules@, r is Ok),
            r matches Err(e) ==> is_first_refused(rules@, e),
            r is Ok ==> final(self).token_cursors() == Map::<Seq<char>, usize>::empty(),
            r is Err ==> final(self).token_cursors() == old(self).token_cursors(),
            final(self).url_cursor() == old(self).url_cursor(),
            final(self).cache() == old(self).cache(),
    {
        self.router.update_rules(rules)?;
        self.round_robin.clear_content_selectors();
        Ok(())
    }

    /// The rule that serves a path: the first whose pattern matches.
    pub fn match_request(&self, path: &str) -> (r: Result<&ForwardingRule, ProxyError>)
        requires
            self.wf(),
        ensures
            r is Err <==> no_match(self.rules(), path@),
            r matches Err(e) ==> e == ProxyError::NoRule,
            r matches Ok(x) ==> exists|i: int|
                is_first_match(self.rules(), path@, i) && *x == #[trigger] self.rules()[i],
    {
        match self.router.find_matching_rule(path) {
            Some(rule) => Ok(rule),
            None => Err(ProxyError::NoRule),
        }
    }

    /// A snapshot of the live rules.
    pub fn get_rules(&self) -> (r: Vec<ForwardingRule>)
        ensures
            r@.len() == self.rules().len(),
            forall|i: int| 0 <= i < r@.len() ==> #[trigger] r@[i]@ == self.rules()[i]@,
    {
        let live = self.router.get_all_rules();
        let mut out: Vec<ForwardingRule> = Vec::new();
        let mut i: usize = 0;
        while i < live.len()
            invariant
                live@.len() == self.rules().len(),
                forall|k: int| 0 <= k < live@.len() ==> *#[trigger] live@[k] == self.rules()[k],
                i <= live@.len(),
                out@.len() == i,
                forall|k: int| 0 <= k < i ==> #[trigger] out@[k]@ == self.rules()[k]@,
            decreases live@.len() - i,
        {
            out.push(crate::config::copy_rule(live[i]));
            i = i + 1;
        }
        out
    }

    /// Cache first: the fresh tokens of `source` at `now`, or what to fetch.
    /// A stale entry is evicted.
    pub fn get_content(&mut self, source: &ContentSource, now: u64) -> (r: FetchPlan)
        ensures
            lookup(old(self).cache(), cache_key(*source), now) matches Some(ts) ==> (r matches FetchPlan::Cached(v)
                && views(v@) == ts),
            lookup(old(self).cache(), cache_key(*source), now) is Some ==> final(self).cache()
                == old(self).cache(),
            lookup(old(self).cache(), cache_key(*source), now) is None ==> final(self).cache()
                == old(self).cache().remove(cache_key(*source)),
            lookup(old(self).cache(), cache_key(*source), now) is None ==> r == fetch_plan_of(
                *source,
            ),
            final(self).rules() == old(self).rules(),
            final(self).wf() == old(self).wf(),
            final(self).url_cursor() == old(self).url_cursor(),
            final(self).token_cursors() == old(self).token_cursors(),
    {
        self.content_manager.get_content(source, now)
    }

    /// Takes the outcome of fetching a source: tokens are cached for the
    /// source's TTL from `now` and returned; an error is passed on and
    /// caches nothing.
    pub fn complete_fetch(
        &mut self,
        source: &ContentSource,
        fetched: Result<String, FetchError>,
        now: u64,
    ) -> (r: Result<Vec<String>, FetchError>)
        ensures
            fetched matches Ok(raw) ==> (r matches Ok(v) && views(v@) == split_tokens(
                raw@,
                source.split_by,
            )),
            fetched matches Ok(raw) ==> final(self).cache() == old(self).cache().insert(
                cache_key(*source),
                (split_tokens(raw@, source.split_by), expiry(now, source.cache_ttl)),
            ),
            fetched matches Err(e) ==> (r matches Err(e2) && e2 == e),
            fetched is Err ==> final(self).cache() == old(self).cache(),
            final(self).rules() == old(self).rules(),
            final(self).wf() == old(self).wf(),
            final(self).url_cursor() == old(self).url_cursor(),
            final(self).token_cursors() == old(self).token_cursors(),
    {
        self.content_manager.complete_fetch(source, fetched, now)
    }

    /// The number of cached content entries, stale ones included.
    pub fn cache_size(&self) -> (r: usize)
        ensures
            r == self.cache().dom().len(),
    {
        self.content_manager.cache_size()
    }

    /// Empties the content cache.
    pub fn clear_cache(&mut self)
        ensures
            final(self).cache() == Map::<Seq<char>, (Seq<Seq<char>>, u64)>::empty(),
            final(self).rules() == old(self).rules(),
            final(self).wf() == old(self).wf(),
            final(self).url_cursor() == old(self).url_cursor(),
            final(self).token_cursors() == old(self).token_cursors(),
    {
        self.content_manager.clear_cache();
    }

    /// Drops the cached tokens of one source.
    pub fn remove_content_from_cache(&mut self, source: &ContentSource)
        ensures
            final(self).cache() == old(self).cache().remove(cache_key(*source)),
            final(self).rules() == old(self).rules(),
            final(self).wf() == old(self).wf(),
            final(self).url_cursor() == old(self).url_cursor(),
            final(self).token_cursors() == old(self).token_cursors(),
    {
        self.content_manager.remove_from_cache(source);
    }

    /// Picks a token for each header replacement of `rule`, in order;
    /// `contents[i]` holds the tokens of the `i`-th replacement's source.
    pub fn apply_header_replacements(
        &mut self,
        rule: &ForwardingRule,
        contents: &Vec<Vec<String>>,
    ) -> (r: Vec<Option<String>>)
        requires
            contents@.len() == rule.header_replacements@.len(),
        ensures
            (final(self).token_cursors(), option_views(r@)) == header_picks(
                old(self).token_cursors(),
                rule.name@,
                replacement_keys(rule.header_replacements@),
                token_lists(contents@),
            ),
            final(self).rules() == old(self).rules(),
            final(self).wf() == old(self).wf(),
            final(self).url_cursor() == old(self).url_cursor(),
            final(self).cache() == old(self).cache(),
    {
        let list = &rule.header_replacements;
        let ghost names = replacement_keys(list@);
        let ghost lists = token_lists(contents@);
        let mut out: Vec<Option<String>> = Vec::new();
        let mut i: usize = 0;
        assert(names.take(0) =~= Seq::<Seq<char>>::empty());
        while i < list.len()
            invariant
                i <= list@.len(),
                contents@.len() == list@.len(),
                list@ == rule.header_replacements@,
                names == replacement_keys(list@),
                lists == token_lists(contents@),
                (self.token_cursors(), option_views(out@)) == header_picks(
                    old(self).token_cursors(),
                    rule.name@,
                    names.take(i as int),
                    lists.take(i as int),
                ),
                self.rules() == old(self).rules(),
                self.wf() == old(self).wf(),
                self.url_cursor() == old(self).url_cursor(),
                self.cache() == old(self).cache(),
            decreases list@.len() - i,
        {
            let key = key_with(&rule.name, ":", &list[i].0);
            let tokens = contents[i].as_slice();
            let picked = self.round_robin.select_replacement_content(key.as_str(), tokens);
            let ghost prev = out@;
            let ghost picked_view = option_views(seq![picked])[0];
            out.push(picked);
            proof {
                assert(names.take(i + 1).drop_last() =~= names.take(i as int));
                assert(lists.take(i + 1).drop_last() =~= lists.take(i as int));
                assert(names.take(i + 1).last() == list@[i as int].0@);
                assert(lists.take(i + 1).last() == views(contents@[i as int]@));
                reveal_strlit(":");
                assert(option_views(out@) =~= option_views(prev).push(picked_view));
            }
            i = i + 1;
        }
        assert(names.take(i as int) =~= names);
        assert(lists.take(i as int) =~= lists);
        out
    }

    /// Applies the body replacements of `rule` to `body`, in order: each
    /// picks one token from `contents[i]` and puts it in place of every
    /// occurrence of its pattern. A pattern whose source has no token is
    /// left alone.
    pub fn apply_body_replacements(
        &mut self,
        rule: &ForwardingRule,
        contents: &Vec<Vec<String>>,
        body: &str,
    ) -> (r: String)
        requires
            contents@.len() == rule.body_replacements@.len(),
        ensures
            (final(self).token_cursors(), r@) == body_rewrite(
                old(self).token_cursors(),
                rule.name@,
                replacement_keys(rule.body_replacements@),
                token_lists(contents@),
                body@,
            ),
            final(self).rules() == old(self).rules(),
            final(self).wf() == old(self).wf(),
            final(self).url_cursor() == old(self).url_cursor(),
            final(self).cache() == old(self).cache(),
    {
        let list = &rule.body_replacements;
        let ghost patterns = replacement_keys(list@);
        let ghost lists = token_lists(contents@);
        let mut text = String::from_str(body);
        let mut i: usize = 0;
        assert(patterns.take(0) =~= Seq::<Seq<char>>::empty());
        while i < list.len()
            invariant
                i <= list@.len(),
                contents@.len() == list@.len(),
                list@ == rule.body_replacements@,
                patterns == replacement_keys(list@),
                lists == token_lists(contents@),
                (self.token_cursors(), text@) == body_rewrite(
                    old(self).token_cursors(),
                    rule.name@,
                    patterns.take(i as int),
                    lists.take(i as int),
                    body@,
                ),
                self.rules() == old(self).rules(),
                self.wf() == old(self).wf(),
                self.url_cursor() == old(self).url_cursor(),
                self.cache() == old(self).cache(),
            decreases list@.len() - i,
        {
            let pattern = &list[i].0;
            let key = key_with(&rule.name, ":body:", pattern);
            let tokens = contents[i].as_slice();
            let picked = self.round_robin.select_replacement_content(key.as_str(), tokens);
            proof {
                assert(patterns.take(i + 1).drop_last() =~= patterns.take(i as int));
                assert(lists.take(i + 1).drop_last() =~= lists.take(i as int));
                assert(patterns.take(i + 1).last() == pattern@);
                assert(lists.take(i + 1).last() == views(contents@[i as int]@));
                reveal_strlit(":body:");
            }
            match picked {
                Some(token) => {
                    text = replace_all_occurrences(text.as_str(), pattern.as_str(), token.as_str());
                },
                None => {},
            }
            i = i + 1;
        }
        assert(patterns.take(i as int) =~= patterns);
        assert(lists.take(i as int) =~= lists);
        text
    }

    /// The next upstream URL for `rule`, from the cursor shared by all
    /// rules.
    pub fn select_target(&mut self, rule: &ForwardingRule) -> (r: Result<String, ProxyError>)
        ensures
            rule.target_urls@.len() == 0 ==> r == Err::<String, ProxyError>(
                ProxyError::UpstreamUnavailable,
            ) && final(self).url_cursor() == old(self).url_cursor(),
            rule.target_urls@.len() > 0 ==> r == Ok::<String, ProxyError>(
                rule.target_urls@[slot(old(self).url_cursor(), rule.target_urls@.len())],
            ),
            rule.target_urls@.len() > 0 ==> final(self).url_cursor() == advance(
                old(self).url_cursor(),
            ),
            final(self).rules() == old(self).rules(),
            final(self).wf() == old(self).wf(),
            final(self).token_cursors() == old(self).token_cursors(),
            final(self).cache() == old(self).cache(),
    {
        match self.round_robin.select_target_url(rule.target_urls.as_slice()) {
            Some(url) => Ok(url),
            None => Err(ProxyError::UpstreamUnavailable),
        }
    }

    /// Everything a matched request needs before it is sent: header values
    /// picked, the body rewritten (when the rule has body replacements), an
    /// upstream picked, the method checked and the upstream URL built.
    /// Cursors advance in that order; a failure leaves the advances made
    /// before it.
    pub fn prepare_forward(
        &mut self,
        rule: &ForwardingRule,
        method: &str,
        path_and_query: &str,
        header_contents: &Vec<Vec<String>>,
        body_contents: &Vec<Vec<String>>,
        body: &str,
    ) -> (r: Result<ForwardPlan, ProxyError>)
        requires
            header_contents@.len() == rule.header_replacements@.len(),
            body_contents@.len() == rule.body_replacements@.len(),
        ensures
            final(self).token_cursors() == planned_cursors(
                old(self).token_cursors(),
                *rule,
                header_contents@,
                body_contents@,
                body@,
            ),
            rule.target_urls@.len() == 0 ==> r == Err::<ForwardPlan, ProxyError>(
                ProxyError::UpstreamUnavailable,
            ) && final(self).url_cursor() == old(self).url_cursor(),
            rule.target_urls@.len() > 0 ==> final(self).url_cursor() == advance(
                old(self).url_cursor(),
            ),
            rule.target_urls@.len() > 0 && method_named(method@) is None ==> r == Err::<
                ForwardPlan,
                ProxyError,
            >(ProxyError::UnsupportedMethod),
            rule.target_urls@.len() > 0 && method_named(method@) is Some ==> (r matches Ok(plan)
                && plan_is(
                plan,
                old(self).token_cursors(),
                old(self).url_cursor(),
                *rule,
                method@,
                path_and_query@,
                header_contents@,
                body_contents@,
                body@,
            )),
            final(self).rules() == old(self).rules(),
            final(self).wf() == old(self).wf(),
            final(self).cache() == old(self).cache(),
    {
        let header_values = self.apply_header_replacements(rule, header_contents);
        let new_body = if rule.body_replacements.len() > 0 {
            Some(self.apply_body_replacements(rule, body_contents, body))
        } else {
            None
        };
        let target = self.select_target(rule)?;
        let m = parse_method(method)?;
        let url = upstream_url(target.as_str(), path_and_query);
        Ok(ForwardPlan { method: m, url, header_values, body: new_body })
    }
}

impl Default for ProxyEngine {
    fn default() -> (e: Self)
        ensures
            e.wf(),
            e.rules() == Seq::<ForwardingRule>::empty(),
            e.url_cursor() == 0,
            e.token_cursors() == Map::<Seq<char>, usize>::empty(),
            e.cache() == Map::<Seq<char>, (Seq<Seq<char>>, u64)>::empty(),
    {
        Self::new()
    }
}

/// The token cursors after planning a request for `rule`.
pub open spec fn planned_cursors(
    cursors: Map<Seq<char>, usize>,
    rule: ForwardingRule,
    header_contents: Seq<Vec<String>>,
    body_contents: Seq<Vec<String>>,
    body: Seq<char>,
) -> Map<Seq<char>, usize> {
    let after_headers = header_picks(
        cursors,
        rule.name@,
        replacement_keys(rule.header_replacements@),
        token_lists(header_contents),
    ).0;
    if rule.body_replacements@.len() > 0 {
        body_rewrite(
            after_headers,
            rule.name@,
            replacement_keys(rule.body_replacements@),
            token_lists(body_contents),
            body,
        ).0
    } else {
        after_headers
    }
}

/// `plan` is what planning a request for `rule` from the given cursors
/// yields.
pub open spec fn plan_is(
    plan: ForwardPlan,
    cursors: Map<Seq<char>, usize>,
    url_cursor: usize,
    rule: ForwardingRule,
    method: Seq<char>,
    path_and_query: Seq<char>,
    header_contents: Seq<Vec<String>>,
    body_contents: Seq<Vec<String>>,
    body: Seq<char>,
) -> bool {
    let headers = header_picks(
        cursors,
        rule.name@,
        replacement_keys(rule.header_replacements@),
        token_lists(header_contents),
    );
    let target = rule.target_urls@[slot(url_cursor, rule.target_urls@.len())];
    &&& method_named(method) == Some(plan.method)
    &&& plan.url@ == strip_trailing(target@, '/') + path_and_query
    &&& option_views(plan.header_values@) == headers.1
    &&& rule.body_replacements@.len() == 0 ==> plan.body is None
    &&& rule.body_replacements@.len() > 0 ==> (plan.body matches Some(b) && b@ == body_rewrite(
        headers.0,
        rule.name@,
        replacement_keys(rule.body_replacements@),
        token_lists(body_contents),
        body,
    ).1)
}

} // verus!
