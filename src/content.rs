use vstd::prelude::*;

use vstd::string::StringExecFns;

use crate::cache::{expiry, lookup, ContentCache};
use crate::config::{copy_texts, ContentSource, SourceError, SourceType, SplitStrategy};
use crate::text::{
    chars_of, is_white_space, string_of_range, trim, trim_end, trim_range, trim_start, white_space,
};

verus! {

/// Whether `c` ends a part under a split strategy.
pub open spec fn is_separator(c: char, by: SplitStrategy) -> bool {
    match by {
        SplitStrategy::Line => c == '\n',
        SplitStrategy::Comma => c == ',',
        SplitStrategy::Space => is_white_space(c),
    }
}

/// Scanning `s` left to right: the parts closed by a separator so far, and
/// the part still open.
pub open spec fn scan(s: Seq<char>, by: SplitStrategy) -> (Seq<Seq<char>>, Seq<char>)
    decreases s.len(),
{
    if s.len() == 0 {
        (Seq::empty(), Seq::empty())
    } else {
        let (done, open) = scan(s.drop_last(), by);
        if is_separator(s.last(), by) {
            (done.push(open), Seq::empty())
        } else {
            (done, open.push(s.last()))
        }
    }
}

/// The parts of `s` between separators, empty ones included.
pub open spec fn parts(s: Seq<char>, by: SplitStrategy) -> Seq<Seq<char>> {
    scan(s, by).0.push(scan(s, by).1)
}

/// Each part trimmed, empty results dropped.
pub open spec fn keep_tokens(ps: Seq<Seq<char>>) -> Seq<Seq<char>>
    decreases ps.len(),
{
    if ps.len() == 0 {
        Seq::empty()
    } else if trim(ps.last()).len() == 0 {
        keep_tokens(ps.drop_last())
    } else {
        keep_tokens(ps.drop_last()).push(trim(ps.last()))
    }
}

/// The tokens of raw content: trim it, split it into parts, trim each part
/// and drop the empty ones.
pub open spec fn split_tokens(content: Seq<char>, by: SplitStrategy) -> Seq<Seq<char>> {
    keep_tokens(parts(trim(content), by))
}

/// The character views of a list of strings.
pub open spec fn views(v: Seq<String>) -> Seq<Seq<char>> {
    v.map_values(|s: String| s@)
}

fn is_split_separator(c: char, by: SplitStrategy) -> (r: bool)
    ensures
        r == is_separator(c, by),
{
    match by {
        SplitStrategy::Line => c == '\n',
        SplitStrategy::Comma => c == ',',
        SplitStrategy::Space => white_space(c),
    }
}

/// Pushes `cs[from..to]` trimmed onto `out`, unless that is empty.
fn push_token(out: &mut Vec<String>, cs: &[char], from: usize, to: usize)
    requires
        from <= to <= cs@.len(),
    ensures
        trim(cs@.subrange(from as int, to as int)).len() == 0 ==> views(final(out)@) == views(
            old(out)@,
        ),
        trim(cs@.subrange(from as int, to as int)).len() > 0 ==> views(final(out)@) == views(
            old(out)@,
        ).push(trim(cs@.subrange(from as int, to as int))),
{
    let (a, b) = trim_range(cs, from, to);
    if a < b {
        let t = string_of_range(cs, a, b);
        out.push(t);
        assert(views(out@) =~= views(old(out)@).push(trim(cs@.subrange(from as int, to as int))));
    }
}

/// Splits raw content into tokens: trims it, cuts it at each separator of
/// the strategy, trims each part and drops the empty ones.
pub fn split_tokens_of(content: &str, strategy: SplitStrategy) -> (r: Vec<String>)
    ensures
        views(r@) == split_tokens(content@, strategy),
{
    let all = chars_of(content);
    let (a, b) = trim_range(all.as_slice(), 0, all.len());
    proof {
        assert(all@.subrange(0, all@.len() as int) =~= content@);
    }
    let ghost t = all@.subrange(a as int, b as int);
    let mut out: Vec<String> = Vec::new();
    let mut start: usize = a;
    let mut i: usize = a;
    proof {
        assert(t.take(0) =~= Seq::<char>::empty());
        assert(all@.subrange(a as int, a as int) =~= Seq::<char>::empty());
    }
    while i < b
        invariant
            a <= start <= i <= b <= all@.len(),
            t == all@.subrange(a as int, b as int),
            scan(t.take(i - a), strategy).1 == all@.subrange(start as int, i as int),
            views(out@) == keep_tokens(scan(t.take(i - a), strategy).0),
        decreases b - i,
    {
        let c = all[i];
        let ghost before = t.take(i - a);
        assert(t.take(i + 1 - a).drop_last() =~= before);
        assert(t.take(i + 1 - a).last() == c);
        if is_split_separator(c, strategy) {
            let ghost open = all@.subrange(start as int, i as int);
            push_token(&mut out, all.as_slice(), start, i);
            proof {
                let done = scan(before, strategy).0;
                assert(done.push(open).drop_last() =~= done);
                assert(done.push(open).last() == open);
                assert(all@.subrange(i + 1, i + 1) =~= Seq::<char>::empty());
            }
            start = i + 1;
        } else {
            assert(all@.subrange(start as int, i + 1) =~= all@.subrange(start as int, i as int).push(
                c,
            ));
        }
        i = i + 1;
    }
    let ghost done = scan(t, strategy).0;
    let ghost open = all@.subrange(start as int, b as int);
    assert(t.take(b - a) =~= t);
    push_token(&mut out, all.as_slice(), start, b);
    proof {
        assert(parts(t, strategy) == done.push(open));
        assert(done.push(open).drop_last() =~= done);
        assert(done.push(open).last() == open);
    }
    out
}

/// The cache key of a source: `file:<path>` or `remote:<url>`, with
/// `unknown` standing in for a missing field.
pub open spec fn cache_key(s: ContentSource) -> Seq<char> {
    let (prefix, name) = match s.source {
        SourceType::File => ("file:"@, s.path),
        SourceType::Remote => ("remote:"@, s.url),
    };
    prefix + match name {
        Some(n) => n@,
        None => "unknown"@,
    }
}

/// What must happen to obtain the tokens of a source.
#[derive(Debug, Clone)]
pub enum FetchPlan {
    /// Fresh tokens were in the cache.
    Cached(Vec<String>),
    /// Read this file as UTF-8 text, then call `complete_fetch`.
    ReadFile(String),
    /// GET this URL, require a 2xx status, read the body as text, then call
    /// `complete_fetch`.
    GetUrl(String),
    /// The source lacks the field its kind needs.
    Refuse(SourceError),
}

/// The fetch a source calls for when its tokens are not cached.
pub open spec fn fetch_plan_of(source: ContentSource) -> FetchPlan {
    match source.source {
        SourceType::File => match source.path {
            Some(p) => FetchPlan::ReadFile(p),
            None => FetchPlan::Refuse(SourceError::MissingPath),
        },
        SourceType::Remote => match source.url {
            Some(u) => FetchPlan::GetUrl(u),
            None => FetchPlan::Refuse(SourceError::MissingUrl),
        },
    }
}

/// Why a source's raw content could not be had.
#[derive(Debug, Clone)]
pub enum FetchError {
    /// Reading the file or talking to the remote failed.
    Io { message: String },
    /// The remote answered with a status outside 2xx.
    Status { code: u16 },
}

/// A remote answer is usable only with a 2xx status.
pub fn check_status(code: u16) -> (r: Result<(), FetchError>)
    ensures
        200 <= code < 300 ==> r is Ok,
        !(200 <= code < 300) ==> (r matches Err(FetchError::Status { code: c }) && c == code),
{
    if 200 <= code && code < 300 {
        Ok(())
    } else {
        Err(FetchError::Status { code })
    }
}

/// Fetches, splits and caches the token lists of content sources. The
/// fetching itself is done by the caller between `get_content` and
/// `complete_fetch`.
#[derive(Debug)]
pub struct ContentManager {
    cache: ContentCache,
}

impl ContentManager {
    /// The cache's entries.
    pub closed spec fn table(&self) -> Map<Seq<char>, (Seq<Seq<char>>, u64)> {
        self.cache.table()
    }

    pub fn new() -> (m: Self)
        ensures
            m.table() == Map::<Seq<char>, (Seq<Seq<char>>, u64)>::empty(),
    {
        ContentManager { cache: ContentCache::new() }
    }

    /// The key a source is cached under.
    pub fn generate_cache_key(&self, source: &ContentSource) -> (r: String)
        ensures
            r@ == cache_key(*source),
    {
        let (mut key, name) = match source.source {
            SourceType::File => (String::from_str("file:"), &source.path),
            SourceType::Remote => (String::from_str("remote:"), &source.url),
        };
        match name {
            Some(n) => key.append(n.as_str()),
            None => key.append("unknown"),
        }
        proof {
            reveal_strlit("file:");
            reveal_strlit("remote:");
            reveal_strlit("unknown");
        }
        key
    }

    /// Splits raw content by a strategy into trimmed, non-empty tokens.
    pub fn split_content(&self, content: &str, strategy: &SplitStrategy) -> (r: Vec<String>)
        ensures
            views(r@) == split_tokens(content@, *strategy),
    {
        split_tokens_of(content, *strategy)
    }

    /// Cache first: the fresh tokens of `source` at `now`, or what to fetch.
    /// A stale entry is evicted.
    pub fn get_content(&mut self, source: &ContentSource, now: u64) -> (r: FetchPlan)
        ensures
            lookup(old(self).table(), cache_key(*source), now) matches Some(ts) ==> (r matches FetchPlan::Cached(v)
                && views(v@) == ts),
            lookup(old(self).table(), cache_key(*source), now) is Some ==> final(self).table() == old(
                self,
            ).table(),
            lookup(old(self).table(), cache_key(*source), now) is None ==> final(self).table()
                == old(self).table().remove(cache_key(*source)),
            lookup(old(self).table(), cache_key(*source), now) is None ==> r == fetch_plan_of(
                *source,
            ),
    {
        let key = self.generate_cache_key(source);
        if let Some(tokens) = self.cache.get(key.as_str(), now) {
            return FetchPlan::Cached(tokens);
        }
        match source.source {
            SourceType::File => match &source.path {
                Some(p) => FetchPlan::ReadFile(p.clone()),
                None => FetchPlan::Refuse(SourceError::MissingPath),
            },
            SourceType::Remote => match &source.url {
                Some(u) => FetchPlan::GetUrl(u.clone()),
                None => FetchPlan::Refuse(SourceError::MissingUrl),
            },
        }
    }

    /// Takes the outcome of a fetch: raw text is split, cached for the
    /// source's TTL from `now` and returned; an error is passed on and
    /// nothing is cached.
    pub fn complete_fetch(
        &mut self,
        source: &ContentSource,
        fetched: Result<String, FetchError>,
        now: u64,
    ) -> (r: Result<Vec<String>, FetchError>)
        ensures
            fetched matches Ok(raw) ==> (r matches Ok(v) && views(v@) == split_tokens(
                raw@,
                source.split_by,
            )),
            fetched matches Ok(raw) ==> final(self).table() == old(self).table().insert(
                cache_key(*source),
                (split_tokens(raw@, source.split_by), expiry(now, source.cache_ttl)),
            ),
            fetched matches Err(e) ==> r matches Err(e2) && e2 == e,
            fetched is Err ==> final(self).table() == old(self).table(),
    {
        match fetched {
            Ok(raw) => {
                let tokens = split_tokens_of(raw.as_str(), source.split_by);
                let key = self.generate_cache_key(source);
                let kept = copy_texts(&tokens);
                self.cache.insert(key, kept, source.cache_ttl, now);
                Ok(tokens)
            },
            Err(e) => Err(e),
        }
    }

    /// The number of cached entries, stale ones included.
    pub fn cache_size(&self) -> (r: usize)
        ensures
            r == self.table().dom().len(),
    {
        self.cache.size()
    }

    /// Empties the cache.
    pub fn clear_cache(&mut self)
        ensures
            final(self).table() == Map::<Seq<char>, (Seq<Seq<char>>, u64)>::empty(),
    {
        self.cache.clear();
    }

    /// Drops the cache entry of one source.
    pub fn remove_from_cache(&mut self, source: &ContentSource)
        ensures
            final(self).table() == old(self).table().remove(cache_key(*source)),
    {
        let key = self.generate_cache_key(source);
        self.cache.remove(key.as_str());
    }
}

impl Default for ContentManager {
    fn default() -> (m: Self)
        ensures
            m.table() == Map::<Seq<char>, (Seq<Seq<char>>, u64)>::empty(),
    {
        Self::new()
    }
}

/// The character that joins tokens back into content of a strategy.
pub open spec fn delimiter(by: SplitStrategy) -> char {
    match by {
        SplitStrategy::Line => '\n',
        SplitStrategy::Comma => ',',
        SplitStrategy::Space => ' ',
    }
}

/// Tokens joined with `d` between each two.
pub open spec fn join_tokens(ts: Seq<Seq<char>>, d: char) -> Seq<char>
    decreases ts.len(),
{
    if ts.len() == 0 {
        Seq::empty()
    } else if ts.len() == 1 {
        ts[0]
    } else {
        join_tokens(ts.drop_last(), d) + seq![d] + ts.last()
    }
}

spec fn no_separator(s: Seq<char>, by: SplitStrategy) -> bool {
    forall|i: int| 0 <= i < s.len() ==> !is_separator(#[trigger] s[i], by)
}

/// A token as splitting leaves it: non-empty, trimmed, free of separators.
spec fn clean_token(t: Seq<char>, by: SplitStrategy) -> bool {
    &&& t.len() > 0
    &&& !is_white_space(t[0])
    &&& !is_white_space(t.last())
    &&& no_separator(t, by)
}

spec fn all_clean(ts: Seq<Seq<char>>, by: SplitStrategy) -> bool {
    forall|k: int| 0 <= k < ts.len() ==> clean_token(#[trigger] ts[k], by)
}

proof fn lemma_trim_start_keeps(s: Seq<char>, by: SplitStrategy)
    ensures
        trim_start(s).len() == 0 || !is_white_space(trim_start(s)[0]),
        no_separator(s, by) ==> no_separator(trim_start(s), by),
    decreases s.len(),
{
    if s.len() > 0 && is_white_space(s[0]) {
        lemma_trim_start_keeps(s.drop_first(), by);
        if no_separator(s, by) {
            assert forall|i: int| 0 <= i < s.drop_first().len() implies !is_separator(
                #[trigger] s.drop_first()[i],
                by,
            ) by {
                assert(s.drop_first()[i] == s[i + 1]);
            }
        }
    }
}

proof fn lemma_trim_end_keeps(s: Seq<char>, by: SplitStrategy)
    ensures
        trim_end(s).len() == 0 || !is_white_space(trim_end(s).last()),
        no_separator(s, by) ==> no_separator(trim_end(s), by),
        s.len() > 0 && !is_white_space(s[0]) ==> trim_end(s).len() > 0 && trim_end(s)[0] == s[0],
    decreases s.len(),
{
    if s.len() > 0 && is_white_space(s.last()) {
        lemma_trim_end_keeps(s.drop_last(), by);
        if no_separator(s, by) {
            assert forall|i: int| 0 <= i < s.drop_last().len() implies !is_separator(
                #[trigger] s.drop_last()[i],
                by,
            ) by {
                assert(s.drop_last()[i] == s[i]);
            }
        }
    }
}

proof fn lemma_trim_fixed(s: Seq<char>)
    requires
        s.len() == 0 || (!is_white_space(s[0]) && !is_white_space(s.last())),
    ensures
        trim(s) == s,
{
}

/// A non-empty trimmed part is a clean token.
proof fn lemma_trim_clean(s: Seq<char>, by: SplitStrategy)
    requires
        no_separator(s, by),
        trim(s).len() > 0,
    ensures
        clean_token(trim(s), by),
{
    lemma_trim_start_keeps(s, by);
    lemma_trim_end_keeps(trim_start(s), by);
}

proof fn lemma_scan_no_separator(s: Seq<char>, by: SplitStrategy)
    ensures
        forall|k: int| 0 <= k < scan(s, by).0.len() ==> no_separator(#[trigger] scan(s, by).0[k], by),
        no_separator(scan(s, by).1, by),
    decreases s.len(),
{
    if s.len() > 0 {
        lemma_scan_no_separator(s.drop_last(), by);
        let (done, open) = scan(s.drop_last(), by);
        if !is_separator(s.last(), by) {
            assert forall|i: int| 0 <= i < open.push(s.last()).len() implies !is_separator(
                #[trigger] open.push(s.last())[i],
                by,
            ) by {
                if i < open.len() {
                    assert(open.push(s.last())[i] == open[i]);
                }
            }
        } else {
            assert forall|k: int| 0 <= k < done.push(open).len() implies no_separator(
                #[trigger] done.push(open)[k],
                by,
            ) by {
                if k < done.len() {
                    assert(done.push(open)[k] == done[k]);
                }
            }
        }
    }
}

proof fn lemma_keep_tokens_clean(ps: Seq<Seq<char>>, by: SplitStrategy)
    requires
        forall|k: int| 0 <= k < ps.len() ==> no_separator(#[trigger] ps[k], by),
    ensures
        all_clean(keep_tokens(ps), by),
    decreases ps.len(),
{
    if ps.len() > 0 {
        let rest = ps.drop_last();
        assert forall|k: int| 0 <= k < rest.len() implies no_separator(#[trigger] rest[k], by) by {
            assert(rest[k] == ps[k]);
        }
        lemma_keep_tokens_clean(rest, by);
        assert(no_separator(ps[ps.len() - 1], by));
        if trim(ps.last()).len() > 0 {
            lemma_trim_clean(ps.last(), by);
            let kept = keep_tokens(rest).push(trim(ps.last()));
            assert forall|k: int| 0 <= k < kept.len() implies clean_token(#[trigger] kept[k], by) by {
                if k < keep_tokens(rest).len() {
                    assert(kept[k] == keep_tokens(rest)[k]);
                }
            }
        }
    }
}

proof fn lemma_keep_clean_tokens(ts: Seq<Seq<char>>, by: SplitStrategy)
    requires
        all_clean(ts, by),
    ensures
        keep_tokens(ts) == ts,
    decreases ts.len(),
{
    if ts.len() > 0 {
        let rest = ts.drop_last();
        assert forall|k: int| 0 <= k < rest.len() implies clean_token(#[trigger] rest[k], by) by {
            assert(rest[k] == ts[k]);
        }
        lemma_keep_clean_tokens(rest, by);
        assert(clean_token(ts[ts.len() - 1], by));
        lemma_trim_fixed(ts.last());
        assert(rest.push(ts.last()) =~= ts);
    }
}

proof fn lemma_scan_append(x: Seq<char>, y: Seq<char>, by: SplitStrategy)
    requires
        no_separator(y, by),
    ensures
        scan(x + y, by) == (scan(x, by).0, scan(x, by).1 + y),
    decreases y.len(),
{
    if y.len() == 0 {
        assert(x + y =~= x);
        assert(scan(x, by).1 + y =~= scan(x, by).1);
    } else {
        let yl = y.drop_last();
        assert forall|i: int| 0 <= i < yl.len() implies !is_separator(#[trigger] yl[i], by) by {
            assert(yl[i] == y[i]);
        }
        lemma_scan_append(x, yl, by);
        assert((x + y).drop_last() =~= x + yl);
        assert((x + y).last() == y.last());
        assert(!is_separator(y[y.len() - 1], by));
        assert((scan(x, by).1 + yl).push(y.last()) =~= scan(x, by).1 + y);
    }
}

proof fn lemma_scan_join(ts: Seq<Seq<char>>, by: SplitStrategy)
    requires
        ts.len() > 0,
        all_clean(ts, by),
    ensures
        scan(join_tokens(ts, delimiter(by)), by) == (ts.drop_last(), ts.last()),
    decreases ts.len(),
{
    let d = delimiter(by);
    if ts.len() == 1 {
        assert(clean_token(ts[0], by));
        lemma_scan_append(Seq::empty(), ts[0], by);
        assert(Seq::<char>::empty() + ts[0] =~= ts[0]);
        assert(ts.drop_last() =~= Seq::<Seq<char>>::empty());
    } else {
        let rest = ts.drop_last();
        assert forall|k: int| 0 <= k < rest.len() implies clean_token(#[trigger] rest[k], by) by {
            assert(rest[k] == ts[k]);
        }
        lemma_scan_join(rest, by);
        let j = join_tokens(rest, d);
        let jd = j + seq![d];
        assert(jd.drop_last() =~= j);
        assert(jd.last() == d);
        assert(is_separator(d, by));
        assert(rest.drop_last().push(rest.last()) =~= rest);
        assert(scan(jd, by) == (rest, Seq::<char>::empty()));
        assert(clean_token(ts[ts.len() - 1], by));
        lemma_scan_append(jd, ts.last(), by);
        assert(Seq::<char>::empty() + ts.last() =~= ts.last());
    }
}

proof fn lemma_join_ends(ts: Seq<Seq<char>>, by: SplitStrategy)
    requires
        ts.len() > 0,
        all_clean(ts, by),
    ensures
        join_tokens(ts, delimiter(by)).len() > 0,
        join_tokens(ts, delimiter(by))[0] == ts[0][0],
        join_tokens(ts, delimiter(by)).last() == ts.last().last(),
    decreases ts.len(),
{
    assert(clean_token(ts[0], by));
    assert(clean_token(ts[ts.len() - 1], by));
    if ts.len() > 1 {
        let rest = ts.drop_last();
        assert forall|k: int| 0 <= k < rest.len() implies clean_token(#[trigger] rest[k], by) by {
            assert(rest[k] == ts[k]);
        }
        lemma_join_ends(rest, by);
    }
}

/// Splitting is idempotent: joining the tokens of some content with the
/// strategy's delimiter and splitting again gives the same tokens.
pub proof fn lemma_split_idempotent(content: Seq<char>, by: SplitStrategy)
    ensures
        split_tokens(join_tokens(split_tokens(content, by), delimiter(by)), by) == split_tokens(
            content,
            by,
        ),
{
    let ts = split_tokens(content, by);
    let ps = parts(trim(content), by);
    lemma_scan_no_separator(trim(content), by);
    assert forall|k: int| 0 <= k < ps.len() implies no_separator(#[trigger] ps[k], by) by {
        if k < scan(trim(content), by).0.len() {
            assert(ps[k] == scan(trim(content), by).0[k]);
        }
    }
    lemma_keep_tokens_clean(ps, by);
    let joined = join_tokens(ts, delimiter(by));
    if ts.len() == 0 {
        assert(joined =~= Seq::<char>::empty());
        assert(trim(joined) =~= Seq::<char>::empty());
        let single = parts(Seq::<char>::empty(), by);
        assert(single.drop_last() =~= Seq::<Seq<char>>::empty());
        assert(single.last() == Seq::<char>::empty());
        assert(trim(single.last()).len() == 0);
        assert(keep_tokens(single.drop_last()) =~= Seq::<Seq<char>>::empty());
        assert(keep_tokens(single) =~= Seq::<Seq<char>>::empty());
    } else {
        lemma_join_ends(ts, by);
        lemma_trim_fixed(joined);
        lemma_scan_join(ts, by);
        assert(parts(joined, by) =~= ts);
        lemma_keep_clean_tokens(ts, by);
    }
}

} // verus!
