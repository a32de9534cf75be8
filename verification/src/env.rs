//! Environments: named sets of variables that fill `{{NAME}}` placeholders.
use vstd::prelude::*;

use crate::text::{push_str, replace, replace_all, chars_of, string_of, str_eq, append_chars};

verus! {

// ---------------------------------------------------------------------------
// Ordering of keys
// ---------------------------------------------------------------------------

/// Lexicographic order of character sequences by code point (the order of `String`).
pub open spec fn lex_lt(a: Seq<char>, b: Seq<char>) -> bool
    decreases a.len(),
{
    if b.len() == 0 {
        false
    } else if a.len() == 0 {
        true
    } else if a[0] != b[0] {
        a[0] < b[0]
    } else {
        lex_lt(a.drop_first(), b.drop_first())
    }
}

pub proof fn lemma_lex_lt_irreflexive(a: Seq<char>)
    ensures
        !lex_lt(a, a),
    decreases a.len(),
{
    if a.len() > 0 {
        lemma_lex_lt_irreflexive(a.drop_first());
    }
}

pub proof fn lemma_lex_lt_transitive(a: Seq<char>, b: Seq<char>, c: Seq<char>)
    requires
        lex_lt(a, b),
        lex_lt(b, c),
    ensures
        lex_lt(a, c),
    decreases a.len(),
{
    if a.len() > 0 && b.len() > 0 && c.len() > 0 {
        if a[0] == b[0] && b[0] == c[0] {
            lemma_lex_lt_transitive(a.drop_first(), b.drop_first(), c.drop_first());
        }
    }
}

pub proof fn lemma_lex_lt_total(a: Seq<char>, b: Seq<char>)
    ensures
        a == b || lex_lt(a, b) || lex_lt(b, a),
    decreases a.len(),
{
    if a.len() > 0 && b.len() > 0 {
        if a[0] == b[0] {
            lemma_lex_lt_total(a.drop_first(), b.drop_first());
            if a.drop_first() == b.drop_first() {
                assert(a =~= seq![a[0]] + a.drop_first());
                assert(b =~= seq![b[0]] + b.drop_first());
            }
        }
    } else if a.len() == 0 && b.len() == 0 {
        assert(a =~= b);
    }
}

pub proof fn lemma_lex_lt_asymmetric(a: Seq<char>, b: Seq<char>)
    requires
        lex_lt(a, b),
    ensures
        !lex_lt(b, a),
{
    if lex_lt(b, a) {
        lemma_lex_lt_transitive(a, b, a);
        lemma_lex_lt_irreflexive(a);
    }
}

/// `a` sorts no later than `b`.
pub open spec fn lex_le(a: Seq<char>, b: Seq<char>) -> bool {
    !lex_lt(b, a)
}

pub proof fn lemma_lex_le_transitive(a: Seq<char>, b: Seq<char>, c: Seq<char>)
    requires
        lex_le(a, b),
        lex_le(b, c),
    ensures
        lex_le(a, c),
{
    if lex_lt(c, a) {
        lemma_lex_lt_total(a, b);
        if a == b {
        } else {
            lemma_lex_lt_transitive(c, a, b);
        }
    }
}

pub proof fn lemma_lex_lt_le(a: Seq<char>, b: Seq<char>)
    requires
        lex_lt(a, b),
    ensures
        lex_le(a, b),
{
    lemma_lex_lt_asymmetric(a, b);
}

pub proof fn lemma_lex_not_lt_le(a: Seq<char>, b: Seq<char>)
    requires
        !lex_lt(a, b),
    ensures
        lex_le(b, a),
{
}

/// `a < b` for the order of `String`.
pub fn lex_less(a: &[char], b: &[char]) -> (r: bool)
    ensures
        r == lex_lt(a@, b@),
{
    let mut i: usize = 0;
    assert(a@.skip(0) =~= a@);
    assert(b@.skip(0) =~= b@);
    while i < a.len() && i < b.len() && a[i] == b[i]
        invariant
            i <= a@.len(),
            i <= b@.len(),
            lex_lt(a@, b@) == lex_lt(a@.skip(i as int), b@.skip(i as int)),
        decreases a.len() - i,
    {
        assert(a@.skip(i as int).drop_first() =~= a@.skip(i + 1));
        assert(b@.skip(i as int).drop_first() =~= b@.skip(i + 1));
        i = i + 1;
    }
    assert(a@.skip(0) =~= a@);
    assert(b@.skip(0) =~= b@);
    if i == b.len() {
        false
    } else if i == a.len() {
        true
    } else {
        assert(a@.skip(i as int)[0] == a@[i as int]);
        assert(b@.skip(i as int)[0] == b@[i as int]);
        a[i] < b[i]
    }
}

// ---------------------------------------------------------------------------
// Variable maps
// ---------------------------------------------------------------------------

/// Entries whose keys strictly increase.
pub open spec fn sorted_keys(s: Seq<(Seq<char>, Seq<char>)>) -> bool {
    forall|i: int, j: int| 0 <= i < j < s.len() ==> lex_lt(#[trigger] s[i].0, #[trigger] s[j].0)
}

/// Index of the entry with key `k`, or `-1`.
pub open spec fn find_key(s: Seq<(Seq<char>, Seq<char>)>, k: Seq<char>) -> int
    decreases s.len(),
{
    if s.len() == 0 {
        -1
    } else if s[0].0 == k {
        0
    } else if find_key(s.drop_first(), k) < 0 {
        -1
    } else {
        1 + find_key(s.drop_first(), k)
    }
}

/// Where a new key `k` goes: before the first entry whose key is greater.
pub open spec fn insert_position(s: Seq<(Seq<char>, Seq<char>)>, k: Seq<char>) -> nat
    decreases s.len(),
{
    if s.len() == 0 {
        0
    } else if lex_lt(k, s[0].0) {
        0
    } else {
        1 + insert_position(s.drop_first(), k)
    }
}

/// `BTreeMap::insert`: replace the value of an existing key, else add the entry in order.
pub open spec fn env_insert(s: Seq<(Seq<char>, Seq<char>)>, k: Seq<char>, v: Seq<char>) -> Seq<
    (Seq<char>, Seq<char>),
> {
    let i = find_key(s, k);
    if i >= 0 {
        s.update(i, (k, v))
    } else {
        s.insert(insert_position(s, k) as int, (k, v))
    }
}

/// The value stored for `k`.
pub open spec fn env_lookup(s: Seq<(Seq<char>, Seq<char>)>, k: Seq<char>) -> Option<Seq<char>> {
    let i = find_key(s, k);
    if i >= 0 {
        Some(s[i].1)
    } else {
        None
    }
}

pub proof fn lemma_find_key(s: Seq<(Seq<char>, Seq<char>)>, k: Seq<char>)
    ensures
        -1 <= find_key(s, k) < s.len(),
        find_key(s, k) >= 0 ==> s[find_key(s, k)].0 == k,
        find_key(s, k) >= 0 ==> forall|j: int| 0 <= j < find_key(s, k) ==> s[j].0 != k,
        find_key(s, k) < 0 ==> forall|j: int| 0 <= j < s.len() ==> s[j].0 != k,
    decreases s.len(),
{
    if s.len() > 0 && s[0].0 != k {
        lemma_find_key(s.drop_first(), k);
        assert forall|j: int| 0 < j < s.len() implies s[j] == s.drop_first()[j - 1] by {}
    }
}

pub proof fn lemma_insert_position(s: Seq<(Seq<char>, Seq<char>)>, k: Seq<char>)
    requires
        sorted_keys(s),
    ensures
        insert_position(s, k) <= s.len(),
        forall|j: int| 0 <= j < insert_position(s, k) ==> !lex_lt(k, #[trigger] s[j].0),
        forall|j: int| insert_position(s, k) <= j < s.len() ==> lex_lt(k, #[trigger] s[j].0),
    decreases s.len(),
{
    if s.len() > 0 {
        let t = s.drop_first();
        assert(sorted_keys(t)) by {
            assert forall|i: int, j: int| 0 <= i < j < t.len() implies lex_lt(
                #[trigger] t[i].0,
                #[trigger] t[j].0,
            ) by {
                assert(t[i] == s[i + 1] && t[j] == s[j + 1]);
            }
        }
        lemma_insert_position(t, k);
        if lex_lt(k, s[0].0) {
            assert forall|j: int| 0 <= j < s.len() implies lex_lt(k, #[trigger] s[j].0) by {
                if j > 0 {
                    lemma_lex_lt_transitive(k, s[0].0, s[j].0);
                }
            }
        } else {
            assert forall|j: int| 0 < j < s.len() implies s[j] == t[j - 1] by {}
        }
    }
}

/// Inserting into ordered entries keeps them ordered.
pub proof fn lemma_env_insert_sorted(s: Seq<(Seq<char>, Seq<char>)>, k: Seq<char>, v: Seq<char>)
    requires
        sorted_keys(s),
    ensures
        sorted_keys(env_insert(s, k, v)),
        env_lookup(env_insert(s, k, v), k) == Some(v),
{
    lemma_find_key(s, k);
    let r = env_insert(s, k, v);
    if find_key(s, k) >= 0 {
        let i = find_key(s, k);
        assert forall|a: int, b: int| 0 <= a < b < r.len() implies lex_lt(
            #[trigger] r[a].0,
            #[trigger] r[b].0,
        ) by {
            assert(r[a].0 == s[a].0 && r[b].0 == s[b].0);
        }
        lemma_find_key(r, k);
        if find_key(r, k) != i {
            assert(r[i].0 == k);
        }
    } else {
        let p = insert_position(s, k) as int;
        lemma_insert_position(s, k);
        assert forall|a: int, b: int| 0 <= a < b < r.len() implies lex_lt(
            #[trigger] r[a].0,
            #[trigger] r[b].0,
        ) by {
            if b < p {
                assert(r[a] == s[a] && r[b] == s[b]);
            } else if b == p {
                assert(r[a] == s[a]);
                lemma_lex_lt_total(s[a].0, k);
            } else if a == p {
                assert(r[b] == s[b - 1]);
            } else if a < p {
                assert(r[a] == s[a] && r[b] == s[b - 1]);
            } else {
                assert(r[a] == s[a - 1] && r[b] == s[b - 1]);
            }
        }
        lemma_find_key(r, k);
        assert(r[p].0 == k);
        if find_key(r, k) != p {
            assert(r[p].0 == k);
        }
    }
}

/// Whether `key < other` in the order of `String`.
fn key_less(key: &[char], other: &String) -> (r: bool)
    ensures
        r == lex_lt(key@, other@),
{
    let oc = chars_of(other.as_str());
    lex_less(key, &oc)
}

/// The variables of an environment, kept in key order as a `BTreeMap` keeps them.
#[derive(Debug)]
pub struct EnvVars {
    entries: Vec<(String, String)>,
}

pub open spec fn entry_views(v: Seq<(String, String)>) -> Seq<(Seq<char>, Seq<char>)> {
    v.map_values(|e: (String, String)| (e.0@, e.1@))
}

impl View for EnvVars {
    type V = Seq<(Seq<char>, Seq<char>)>;

    closed spec fn view(&self) -> Seq<(Seq<char>, Seq<char>)> {
        entry_views(self.entries@)
    }
}

impl Clone for EnvVars {
    fn clone(&self) -> (r: Self)
        ensures
            r@ == self@,
    {
        let mut entries: Vec<(String, String)> = Vec::new();
        let mut i: usize = 0;
        while i < self.entries.len()
            invariant
                i <= self.entries@.len(),
                entries@.len() == i,
                entry_views(entries@) == entry_views(self.entries@.take(i as int)),
            decreases self.entries.len() - i,
        {
            let e = (self.entries[i].0.clone(), self.entries[i].1.clone());
            let ghost prev = entries@;
            entries.push(e);
            proof {
                assert forall|j: int| 0 <= j < i + 1 implies entry_views(entries@)[j]
                    == entry_views(self.entries@.take(i + 1))[j] by {
                    if j < i {
                        assert(entry_views(prev)[j] == entry_views(self.entries@.take(i as int))[j]);
                    }
                }
                assert(entry_views(entries@) =~= entry_views(self.entries@.take(i + 1)));
            }
            i = i + 1;
        }
        assert(self.entries@.take(self.entries@.len() as int) =~= self.entries@);
        EnvVars { entries }
    }
}

impl EnvVars {
    pub fn new() -> (r: Self)
        ensures
            r@ == Seq::<(Seq<char>, Seq<char>)>::empty(),
    {
        let r = EnvVars { entries: Vec::new() };
        assert(r@ =~= Seq::<(Seq<char>, Seq<char>)>::empty());
        r
    }

    pub fn len(&self) -> (n: usize)
        ensures
            n == self@.len(),
    {
        self.entries.len()
    }

    /// The key and value of entry `i`.
    pub fn entry(&self, i: usize) -> (r: (&String, &String))
        requires
            i < self@.len(),
        ensures
            (r.0@, r.1@) == self@[i as int],
    {
        (&self.entries[i].0, &self.entries[i].1)
    }

    /// Index of the entry with key `key`.
    pub fn position(&self, key: &str) -> (r: Option<usize>)
        ensures
            match r {
                Some(i) => i as int == find_key(self@, key@) && i < self@.len(),
                None => find_key(self@, key@) < 0,
            },
    {
        let mut i: usize = 0;
        assert(self@.skip(0) =~= self@);
        while i < self.entries.len()
            invariant
                i <= self@.len(),
                self@.len() == self.entries@.len(),
                find_key(self@, key@) == (if find_key(self@.skip(i as int), key@) < 0 {
                    -1
                } else {
                    find_key(self@.skip(i as int), key@) + i
                }),
            decreases self.entries.len() - i,
        {
            assert(self@.skip(i as int)[0] == self@[i as int]);
            proof {
                lemma_find_key(self@.skip(i as int), key@);
            }
            if str_eq(self.entries[i].0.as_str(), key) {
                return Some(i);
            }
            assert(self@.skip(i as int).drop_first() =~= self@.skip(i + 1));
            i = i + 1;
        }
        None
    }

    pub fn contains_key(&self, key: &str) -> (r: bool)
        ensures
            r == (env_lookup(self@, key@) is Some),
    {
        self.position(key).is_some()
    }

    pub fn get(&self, key: &str) -> (r: Option<&String>)
        ensures
            match r {
                Some(v) => env_lookup(self@, key@) == Some(v@),
                None => env_lookup(self@, key@) is None,
            },
    {
        match self.position(key) {
            Some(i) => Some(&self.entries[i].1),
            None => None,
        }
    }

    /// `BTreeMap::insert`.
    pub fn insert(&mut self, key: String, value: String)
        ensures
            final(self)@ == env_insert(old(self)@, key@, value@),
    {
        match self.position(key.as_str()) {
            Some(i) => {
                let ghost before = self.entries@;
                self.entries.set(i, (key, value));
                assert(self@ =~= env_insert(old(self)@, key@, value@)) by {
                    assert forall|j: int| 0 <= j < self@.len() implies self@[j]
                        == env_insert(old(self)@, key@, value@)[j] by {
                        if j != i {
                            assert(self.entries@[j] == before[j]);
                        }
                    }
                }
            },
            None => {
                let kc = chars_of(key.as_str());
                let mut p: usize = 0;
                assert(self@.skip(0) =~= self@);
                while p < self.entries.len() && !key_less(&kc, &self.entries[p].0)
                    invariant
                        p <= self@.len(),
                        self@.len() == self.entries@.len(),
                        self@ == old(self)@,
                        kc@ == key@,
                        insert_position(self@, key@) == p + insert_position(
                            self@.skip(p as int),
                            key@,
                        ),
                    decreases self.entries.len() - p,
                {
                    assert(self@.skip(p as int)[0] == self@[p as int]);
                    assert(self@.skip(p as int).drop_first() =~= self@.skip(p + 1));
                    p = p + 1;
                }
                if p < self.entries.len() {
                    assert(self@.skip(p as int)[0] == self@[p as int]);
                }
                let ghost before = self.entries@;
                self.entries.insert(p, (key, value));
                assert(self@ =~= env_insert(old(self)@, key@, value@)) by {
                    assert forall|j: int| 0 <= j < self@.len() implies self@[j]
                        == env_insert(old(self)@, key@, value@)[j] by {
                        if j < p {
                            assert(self.entries@[j] == before[j]);
                        } else if j > p {
                            assert(self.entries@[j] == before[j - 1]);
                        }
                    }
                }
            },
        }
    }
}

// ---------------------------------------------------------------------------
// Environments
// ---------------------------------------------------------------------------

#[derive(Debug)]
pub struct Environment {
    pub name: String,
    pub vars: EnvVars,
}

/// An environment as plain values.
pub ghost struct EnvironmentView {
    pub name: Seq<char>,
    pub vars: Seq<(Seq<char>, Seq<char>)>,
}

impl View for Environment {
    type V = EnvironmentView;

    open spec fn view(&self) -> EnvironmentView {
        EnvironmentView { name: self.name@, vars: self.vars@ }
    }
}

impl Clone for Environment {
    fn clone(&self) -> (r: Self)
        ensures
            r@ == self@,
    {
        Environment { name: self.name.clone(), vars: self.vars.clone() }
    }
}

pub open spec fn env_views(v: Seq<Environment>) -> Seq<EnvironmentView> {
    v.map_values(|e: Environment| e@)
}

/// Copies a list of environments.
pub fn clone_environments(v: &[Environment]) -> (r: Vec<Environment>)
    ensures
        env_views(r@) == env_views(v@),
{
    let mut r: Vec<Environment> = Vec::new();
    let mut i: usize = 0;
    while i < v.len()
        invariant
            i <= v@.len(),
            r@.len() == i,
            env_views(r@) == env_views(v@.take(i as int)),
        decreases v.len() - i,
    {
        let e = v[i].clone();
        let ghost prev = r@;
        r.push(e);
        proof {
            assert forall|j: int| 0 <= j < i + 1 implies env_views(r@)[j] == env_views(
                v@.take(i + 1),
            )[j] by {
                if j < i {
                    assert(env_views(prev)[j] == env_views(v@.take(i as int))[j]);
                }
            }
            assert(env_views(r@) =~= env_views(v@.take(i + 1)));
        }
        i = i + 1;
    }
    assert(v@.take(v@.len() as int) =~= v@);
    r
}

/// Where an environment was found.
#[derive(Debug, Clone)]
pub enum EnvironmentScope {
    Project(String),
    Global,
    Default,
}

/// The label an environment's scope has in state snapshots.
pub fn environment_scope_label(scope: &EnvironmentScope) -> (r: &'static str)
    ensures
        r@ == match scope {
            EnvironmentScope::Project(_) => "project"@,
            EnvironmentScope::Global => "global"@,
            EnvironmentScope::Default => "default"@,
        },
{
    match scope {
        EnvironmentScope::Project(_) => "project",
        EnvironmentScope::Global => "global",
        EnvironmentScope::Default => "default",
    }
}

/// The placeholder for variable `key`: `{{key}}`.
pub open spec fn placeholder(key: Seq<char>) -> Seq<char> {
    seq!['{', '{'] + key + seq!['}', '}']
}

/// Every `{{key}}` replaced by its value, one variable at a time in key order.
pub open spec fn apply_env(input: Seq<char>, vars: Seq<(Seq<char>, Seq<char>)>) -> Seq<char>
    decreases vars.len(),
{
    if vars.len() == 0 {
        input
    } else {
        replace(apply_env(input, vars.drop_last()), placeholder(vars.last().0), vars.last().1)
    }
}

proof fn lemma_apply_env_one(x: Seq<char>, k: Seq<char>, v: Seq<char>)
    ensures
        apply_env(x, seq![(k, v)]) == replace(x, placeholder(k), v),
{
    let vs = seq![(k, v)];
    assert(vs.drop_last() =~= Seq::<(Seq<char>, Seq<char>)>::empty());
    assert(vs.last() == (k, v));
    assert(apply_env(x, vs.drop_last()) == x);
}

/// Substituting with one more variable substitutes it into what the others give.
pub proof fn lemma_apply_env_last(s: Seq<char>, vars: Seq<(Seq<char>, Seq<char>)>, k: Seq<char>, v: Seq<char>)
    ensures
        apply_env(s, vars.push((k, v))) == apply_env(apply_env(s, vars), seq![(k, v)]),
{
    assert(vars.push((k, v)).drop_last() =~= vars);
    assert(vars.push((k, v)).last() == (k, v));
    lemma_apply_env_one(apply_env(s, vars), k, v);
}

/// A text without the placeholder of a variable is left as it is by that variable.
pub proof fn lemma_apply_env_absent(s: Seq<char>, k: Seq<char>, v: Seq<char>)
    requires
        !crate::text::contains(s, placeholder(k)),
    ensures
        apply_env(s, seq![(k, v)]) == s,
{
    lemma_apply_env_one(s, k, v);
}

/// Where the first placeholder of a variable stands, its value goes in, and substitution
/// goes on through the rest of the text: every occurrence is replaced, not only the first.
pub proof fn lemma_apply_env_first_occurrence(a: Seq<char>, b: Seq<char>, k: Seq<char>, v: Seq<char>)
    requires
        forall|j: int| 0 <= j < a.len() ==> !crate::text::occurs_at(a + placeholder(k), placeholder(k), j),
    ensures
        apply_env(a + placeholder(k) + b, seq![(k, v)]) == a + v + apply_env(b, seq![(k, v)]),
{
    let p = placeholder(k);
    let s = a + p + b;
    lemma_apply_env_one(s, k, v);
    lemma_apply_env_one(b, k, v);
    assert(s.subrange(a.len() as int, a.len() as int + p.len()) =~= p);
    assert(crate::text::occurs_at(s, p, a.len() as int));
    crate::text::lemma_find_from(s, p, 0);
    let r = crate::text::find(s, p);
    assert forall|j: int| 0 <= j < a.len() implies !crate::text::occurs_at(s, p, j) by {
        if crate::text::occurs_at(s, p, j) {
            assert(s.subrange(j, j + p.len()) =~= (a + p).subrange(j, j + p.len()));
            assert(crate::text::occurs_at(a + p, p, j));
        }
    }
    assert(r == a.len());
    assert(s.take(a.len() as int) =~= a);
    assert(s.skip(a.len() as int + p.len()) =~= b);
}

/// Two placeholders of a variable in a row become its value twice.
pub proof fn lemma_apply_env_twice(k: Seq<char>, v: Seq<char>)
    ensures
        apply_env(placeholder(k) + placeholder(k), seq![(k, v)]) == v + v,
{
    let p = placeholder(k);
    let e = Seq::<char>::empty();
    lemma_apply_env_first_occurrence(e, p, k, v);
    assert(e + p + p =~= p + p);
    lemma_apply_env_first_occurrence(e, e, k, v);
    assert(e + p + e =~= p);
    assert(!crate::text::contains(e, p)) by {
        crate::text::lemma_find_from(e, p, 0);
    }
    lemma_apply_env_absent(e, k, v);
    assert(e + v + e =~= v);
    assert(e + v + v =~= v + v);
}

/// Substitutes the variables of an environment into `input`.
pub fn apply_environment(input: &str, vars: &EnvVars) -> (out: String)
    ensures
        out@ == apply_env(input@, vars@),
{
    let mut cur = chars_of(input);
    let mut i: usize = 0;
    while i < vars.len()
        invariant
            i <= vars@.len(),
            cur@ == apply_env(input@, vars@.take(i as int)),
        decreases vars@.len() - i,
    {
        let (k, v) = vars.entry(i);
        let mut needle: Vec<char> = Vec::new();
        needle.push('{');
        needle.push('{');
        let kc = chars_of(k.as_str());
        append_chars(&mut needle, &kc);
        needle.push('}');
        needle.push('}');
        assert(needle@ =~= placeholder(k@));
        let vc = chars_of(v.as_str());
        cur = replace_all(&cur, &needle, &vc);
        assert(vars@.take(i + 1).drop_last() =~= vars@.take(i as int));
        i = i + 1;
    }
    assert(vars@.take(vars@.len() as int) =~= vars@);
    string_of(&cur)
}

/// The environment used when none is chosen.
pub fn default_environment() -> (e: Environment)
    ensures
        e.name@ == "No environment"@,
        e.vars@.len() == 0,
{
    Environment { name: String::from_str("No environment"), vars: EnvVars::new() }
}

/// The default environment followed by `envs`.
pub fn with_default_environment(envs: Vec<Environment>) -> (all: Vec<Environment>)
    ensures
        all@.len() == envs@.len() + 1,
        all@[0].name@ == "No environment"@,
        all@[0].vars@.len() == 0,
        forall|i: int| 0 <= i < envs@.len() ==> #[trigger] all@[i + 1] == envs@[i],
{
    let mut all: Vec<Environment> = Vec::new();
    all.push(default_environment());
    let mut envs = envs;
    let ghost orig = envs@;
    all.append(&mut envs);
    all
}

} // verus!
