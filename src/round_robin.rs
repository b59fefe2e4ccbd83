use vstd::prelude::*;

verus! {

/// The value a round-robin counter takes after one selection: it wraps at
/// the top of `usize`, as a relaxed fetch-add does.
pub open spec fn advance(c: usize) -> usize {
    if c == usize::MAX {
        0
    } else {
        (c + 1) as usize
    }
}

/// The index a counter value selects among `len` items.
pub open spec fn slot(c: usize, len: nat) -> int {
    (c as int) % (len as int)
}

/// A round-robin cursor: each selection yields `items[counter % len]` and
/// advances the counter.
#[derive(Debug)]
pub struct RoundRobinSelector {
    counter: usize,
}

impl View for RoundRobinSelector {
    type V = usize;

    closed spec fn view(&self) -> usize {
        self.counter
    }
}

impl RoundRobinSelector {
    pub fn new() -> (s: Self)
        ensures
            s@ == 0,
    {
        RoundRobinSelector { counter: 0 }
    }

    fn step(&mut self)
        ensures
            final(self)@ == advance(old(self)@),
    {
        if self.counter == usize::MAX {
            self.counter = 0;
        } else {
            self.counter = self.counter + 1;
        }
    }

    /// Picks the next item; an empty slice yields `None` and leaves the
    /// counter alone.
    pub fn select<'a, T>(&mut self, items: &'a [T]) -> (r: Option<&'a T>)
        ensures
            items@.len() == 0 ==> r is None && final(self)@ == old(self)@,
            items@.len() > 0 ==> (r matches Some(x) && *x == items@[slot(old(self)@, items@.len())]),
            items@.len() > 0 ==> final(self)@ == advance(old(self)@),
    {
        if items.len() == 0 {
            return None;
        }
        let index = self.counter % items.len();
        self.step();
        Some(&items[index])
    }

    /// As `select`, handing out a clone of the chosen item.
    pub fn select_owned<T: Clone>(&mut self, items: &[T]) -> (r: Option<T>)
        ensures
            items@.len() == 0 ==> r is None && final(self)@ == old(self)@,
            items@.len() > 0 ==> (r matches Some(x) && cloned(
                items@[slot(old(self)@, items@.len())],
                x,
            )),
            items@.len() > 0 ==> final(self)@ == advance(old(self)@),
    {
        self.select(items).cloned()
    }

    pub fn reset(&mut self)
        ensures
            final(self)@ == 0,
    {
        self.counter = 0;
    }
}

impl Default for RoundRobinSelector {
    fn default() -> (s: Self)
        ensures
            s@ == 0,
    {
        Self::new()
    }
}

} // verus!

verus! {

#[verifier::external_type_specification]
#[verifier::external_body]
#[verifier::reject_recursive_types(K)]
#[verifier::reject_recursive_types(V)]
#[verifier::reject_recursive_types(S)]
pub struct ExDashMap<K, V, S>(dashmap::DashMap<K, V, S>);

/// What a table of token cursors holds: each key's counter.
pub uninterp spec fn cursor_table(m: dashmap::DashMap<String, usize>) -> Map<Seq<char>, usize>;

/// Relies on dashmap::DashMap::new: an empty map.
#[verifier::external_body]
fn cursors_new() -> (m: dashmap::DashMap<String, usize>)
    ensures
        cursor_table(m).dom() == Set::<Seq<char>>::empty(),
{
    dashmap::DashMap::new()
}

/// Relies on dashmap::DashMap::get: the value stored under `key`, if any.
#[verifier::external_body]
fn cursors_get(m: &dashmap::DashMap<String, usize>, key: &str) -> (r: Option<usize>)
    ensures
        r == (if cursor_table(*m).contains_key(key@) {
            Some(cursor_table(*m)[key@])
        } else {
            None::<usize>
        }),
{
    m.get(key).map(|e| *e.value())
}

/// Relies on dashmap::DashMap::insert: `key` now maps to `value`, the rest
/// is unchanged.
#[verifier::external_body]
fn cursors_insert(m: &mut dashmap::DashMap<String, usize>, key: String, value: usize)
    ensures
        cursor_table(*final(m)) == cursor_table(*old(m)).insert(key@, value),
{
    m.insert(key, value);
}

/// Relies on dashmap::DashMap::clear: no entry is left.
#[verifier::external_body]
fn cursors_clear(m: &mut dashmap::DashMap<String, usize>)
    ensures
        cursor_table(*final(m)).dom() == Set::<Seq<char>>::empty(),
{
    m.clear();
}

/// A key's cursor: the stored counter, or 0 before its first use.
pub open spec fn cursor_at(t: Map<Seq<char>, usize>, key: Seq<char>) -> usize {
    if t.contains_key(key) {
        t[key]
    } else {
        0
    }
}

/// One process-wide cursor over upstream URLs and one cursor per
/// replacement key over token lists.
#[derive(Debug)]
pub struct RoundRobinManager {
    url_selector: RoundRobinSelector,
    content_selectors: dashmap::DashMap<String, usize>,
}

impl RoundRobinManager {
    /// The counter of the URL selector.
    pub closed spec fn url_cursor(&self) -> usize {
        self.url_selector@
    }

    /// The counters of the token selectors, by key.
    pub closed spec fn token_cursors(&self) -> Map<Seq<char>, usize> {
        cursor_table(self.content_selectors)
    }

    pub fn new() -> (m: Self)
        ensures
            m.url_cursor() == 0,
            m.token_cursors() == Map::<Seq<char>, usize>::empty(),
    {
        let m = RoundRobinManager {
            url_selector: RoundRobinSelector::new(),
            content_selectors: cursors_new(),
        };
        assert(m.token_cursors() =~= Map::<Seq<char>, usize>::empty());
        m
    }

    /// The next upstream URL, from the cursor shared by all rules.
    pub fn select_target_url(&mut self, urls: &[String]) -> (r: Option<String>)
        ensures
            urls@.len() == 0 ==> r is None && final(self).url_cursor() == old(self).url_cursor(),
            urls@.len() > 0 ==> r == Some(urls@[slot(old(self).url_cursor(), urls@.len())]),
            urls@.len() > 0 ==> final(self).url_cursor() == advance(old(self).url_cursor()),
            final(self).token_cursors() == old(self).token_cursors(),
    {
        match self.url_selector.select(urls) {
            Some(u) => Some(u.clone()),
            None => None,
        }
    }

    /// The next token of `content` under the cursor named `key`, which is
    /// created on first use.
    pub fn select_replacement_content(&mut self, key: &str, content: &[String]) -> (r: Option<
        String,
    >)
        ensures
            content@.len() == 0 ==> r is None && final(self).token_cursors() == old(
                self,
            ).token_cursors(),
            content@.len() > 0 ==> r == Some(
                content@[slot(cursor_at(old(self).token_cursors(), key@), content@.len())],
            ),
            content@.len() > 0 ==> final(self).token_cursors() == old(self).token_cursors().insert(
                key@,
                advance(cursor_at(old(self).token_cursors(), key@)),
            ),
            final(self).url_cursor() == old(self).url_cursor(),
    {
        if content.len() == 0 {
            return None;
        }
        let mut selector = RoundRobinSelector::new();
        match cursors_get(&self.content_selectors, key) {
            Some(c) => {
                selector.counter = c;
            },
            None => {},
        }
        let picked = match selector.select(content) {
            Some(t) => t.clone(),
            None => {
                return None;
            },
        };
        cursors_insert(&mut self.content_selectors, key.to_owned(), selector.counter);
        Some(picked)
    }

    pub fn reset_url_selector(&mut self)
        ensures
            final(self).url_cursor() == 0,
            final(self).token_cursors() == old(self).token_cursors(),
    {
        self.url_selector.reset();
    }

    /// Sets an existing token cursor back to 0; an unknown key is left
    /// unknown.
    pub fn reset_content_selector(&mut self, key: &str)
        ensures
            old(self).token_cursors().contains_key(key@) ==> final(self).token_cursors()
                == old(self).token_cursors().insert(key@, 0),
            !old(self).token_cursors().contains_key(key@) ==> final(self).token_cursors()
                == old(self).token_cursors(),
            final(self).url_cursor() == old(self).url_cursor(),
    {
        if cursors_get(&self.content_selectors, key).is_some() {
            cursors_insert(&mut self.content_selectors, key.to_owned(), 0);
        }
    }

    /// Drops every token cursor; the URL cursor is kept.
    pub fn clear_content_selectors(&mut self)
        ensures
            final(self).token_cursors() == Map::<Seq<char>, usize>::empty(),
            final(self).url_cursor() == old(self).url_cursor(),
    {
        cursors_clear(&mut self.content_selectors);
        assert(self.token_cursors() =~= Map::<Seq<char>, usize>::empty());
    }
}

impl Default for RoundRobinManager {
    fn default() -> (m: Self)
        ensures
            m.url_cursor() == 0,
            m.token_cursors() == Map::<Seq<char>, usize>::empty(),
    {
        Self::new()
    }
}

/// The counter after `i` selections that started from counter `c`.
pub open spec fn counter_after(c: usize, i: nat) -> usize
    decreases i,
{
    if i == 0 {
        c
    } else {
        advance(counter_after(c, (i - 1) as nat))
    }
}

/// How many of `n` successive selections over `len` items, starting from
/// counter `c`, pick item `j`.
pub open spec fn picks_of(c: usize, n: nat, len: nat, j: int) -> nat
    decreases n,
{
    if n == 0 {
        0
    } else {
        picks_of(c, (n - 1) as nat, len, j) + if slot(counter_after(c, (n - 1) as nat), len) == j {
            1nat
        } else {
            0nat
        }
    }
}

/// How many integers `k` in `[s, s + n)` have `k % len == j`.
spec fn window_hits(s: int, n: nat, len: nat, j: int) -> nat
    decreases n,
{
    if n == 0 {
        0
    } else {
        window_hits(s, (n - 1) as nat, len, j) + if (s + n - 1) % (len as int) == j {
            1nat
        } else {
            0nat
        }
    }
}

proof fn lemma_counter_after_no_wrap(c: usize, i: nat)
    requires
        c + i <= usize::MAX,
    ensures
        counter_after(c, i) == c + i,
    decreases i,
{
    if i > 0 {
        lemma_counter_after_no_wrap(c, (i - 1) as nat);
    }
}

proof fn lemma_picks_are_window_hits(c: usize, n: nat, len: nat, j: int)
    requires
        c + n <= usize::MAX + 1,
    ensures
        picks_of(c, n, len, j) == window_hits(c as int, n, len, j),
    decreases n,
{
    if n > 0 {
        lemma_picks_are_window_hits(c, (n - 1) as nat, len, j);
        lemma_counter_after_no_wrap(c, (n - 1) as nat);
    }
}

proof fn lemma_window_split(s: int, a: nat, b: nat, len: nat, j: int)
    ensures
        window_hits(s, a + b, len, j) == window_hits(s, a, len, j) + window_hits(s + a, b, len, j),
    decreases b,
{
    if b > 0 {
        lemma_window_split(s, a, (b - 1) as nat, len, j);
        assert(window_hits(s, a + b, len, j) == window_hits(s, (a + b - 1) as nat, len, j) + (if (s
            + (a + b) - 1) % (len as int) == j {
            1nat
        } else {
            0nat
        }));
        assert((a + b - 1) as nat == a + (b - 1) as nat);
    }
}

proof fn lemma_window_from_zero(m: nat, len: nat, j: int)
    requires
        m <= len,
        0 <= j < len,
    ensures
        window_hits(0, m, len, j) == (if j < m {
            1nat
        } else {
            0nat
        }),
    decreases m,
{
    if m > 0 {
        lemma_window_from_zero((m - 1) as nat, len, j);
        vstd::arithmetic::div_mod::lemma_small_mod((m - 1) as nat, len);
    }
}

proof fn lemma_full_window(t: nat, len: nat, j: int)
    requires
        len > 0,
        0 <= j < len,
    ensures
        window_hits(t as int, len, len, j) == 1,
    decreases t,
{
    if t == 0 {
        lemma_window_from_zero(len, len, j);
    } else {
        let p = (t - 1) as int;
        lemma_full_window((t - 1) as nat, len, j);
        lemma_window_split(p, 1, len, len, j);
        lemma_window_split(p, len, 1, len, j);
        vstd::arithmetic::div_mod::lemma_mod_add_multiples_vanish(p, len as int);
        reveal_with_fuel(window_hits, 2);
        assert(window_hits(p, 1, len, j) == window_hits(p + len, 1, len, j));
    }
}

proof fn lemma_window_bounds(s: nat, q: nat, r: nat, len: nat, j: int)
    requires
        len > 0,
        r < len,
        0 <= j < len,
    ensures
        q <= window_hits(s as int, q * len + r, len, j) <= q + 1,
    decreases q,
{
    if q == 0 {
        assert(q * len + r == r) by (nonlinear_arith)
            requires
                q == 0,
        ;
        lemma_window_split(s as int, r, (len - r) as nat, len, j);
        lemma_full_window(s, len, j);
    } else {
        let m = ((q - 1) * len + r) as nat;
        assert(q * len + r == m + len) by (nonlinear_arith)
            requires
                m == (q - 1) * len + r,
                q >= 1,
        ;
        lemma_window_bounds(s, (q - 1) as nat, r, len, j);
        lemma_window_split(s as int, m, len, len, j);
        lemma_full_window((s + m) as nat, len, j);
    }
}

/// Round-robin fairness: of `n >= len` successive selections from one
/// selector whose counter does not wrap meanwhile, each of the `len` items
/// is picked `n / len` or `n / len + 1` times.
pub proof fn lemma_round_robin_fairness(start: usize, n: nat, len: nat, j: int)
    requires
        len > 0,
        n >= len,
        0 <= j < len,
        start + n <= usize::MAX + 1,
    ensures
        n / len <= picks_of(start, n, len, j) <= n / len + 1,
{
    let q = n / len;
    let r = n % len;
    vstd::arithmetic::div_mod::lemma_fundamental_div_mod(n as int, len as int);
    assert(n == q * len + r) by (nonlinear_arith)
        requires
            n == len * q + r,
    ;
    lemma_window_bounds(start as nat, q as nat, r as nat, len, j);
    lemma_picks_are_window_hits(start, n, len, j);
}

} // verus!
