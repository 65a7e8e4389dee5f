//! Domain matching: decides whether a provider's rule set applies to a
//! query name.
use vstd::prelude::*;

verus! {

/// The code point of a character with ASCII upper case folded to lower case,
/// so that domain names compare case-insensitively.
pub open spec fn fold_code(c: char) -> int {
    if 'A' <= c && c <= 'Z' {
        c as int + 32
    } else {
        c as int
    }
}

/// A name with every character case-folded.
pub open spec fn folded(s: Seq<char>) -> Seq<int> {
    s.map_values(|c: char| fold_code(c))
}

/// `q` equals `p`, or ends with `p` right after a `.` label separator.
pub open spec fn label_match(q: Seq<int>, p: Seq<int>) -> bool {
    q == p || (p.len() < q.len() && q.subrange(q.len() - p.len(), q.len() as int) == p
        && q[q.len() - p.len() - 1] == '.' as int)
}

/// Label-boundary suffix match of a query name against one pattern,
/// ignoring ASCII case.
pub open spec fn name_matches(q: Seq<char>, p: Seq<char>) -> bool {
    label_match(folded(q), folded(p))
}

fn fold_char(c: char) -> (r: u32)
    ensures
        r as int == fold_code(c),
{
    if 'A' <= c && c <= 'Z' {
        c as u32 + 32
    } else {
        c as u32
    }
}

/// Whether `query` is `pattern` itself or a name under it, comparing whole
/// labels: `a.example.com` matches `example.com`, `evil-example.com` does not.
pub fn is_domain_match(query: &str, pattern: &str) -> (r: bool)
    ensures
        r == name_matches(query@, pattern@),
{
    let ql = query.unicode_len();
    let pl = pattern.unicode_len();
    let ghost q = folded(query@);
    let ghost p = folded(pattern@);
    assert(q.len() == ql && p.len() == pl);
    if pl > ql {
        return false;
    }
    let off = ql - pl;
    let mut i: usize = 0;
    while i < pl
        invariant
            ql == query@.len(),
            pl == pattern@.len(),
            off == ql - pl,
            i <= pl,
            q == folded(query@),
            p == folded(pattern@),
            forall|j: int| 0 <= j < i ==> q[off + j] == p[j],
        decreases pl - i,
    {
        if fold_char(query.get_char(off + i)) != fold_char(pattern.get_char(i)) {
            assert(q.subrange(off as int, ql as int)[i as int] != p[i as int]);
            return false;
        }
        i = i + 1;
    }
    assert(q.subrange(off as int, ql as int) =~= p);
    if off == 0 {
        assert(q =~= q.subrange(0, ql as int));
        return true;
    }
    let r = fold_char(query.get_char(off - 1)) == 46;
    r
}

/// A provider's rule set: the domain suffixes it serves and, among those,
/// the ones it must not serve.  An empty `includes` makes it universal.
pub struct DomainRules {
    pub includes: Vec<String>,
    pub excludes: Vec<String>,
}

/// The abstract rule set: patterns as character sequences.
pub struct RuleSet {
    pub includes: Seq<Seq<char>>,
    pub excludes: Seq<Seq<char>>,
}

/// The characters of each string in order.
pub open spec fn strs(v: Seq<String>) -> Seq<Seq<char>> {
    v.map_values(|s: String| s@)
}

impl View for DomainRules {
    type V = RuleSet;

    open spec fn view(&self) -> RuleSet {
        RuleSet { includes: strs(self.includes@), excludes: strs(self.excludes@) }
    }
}

/// The query name with exactly one trailing `.` removed, if it has one.
pub open spec fn strip_trailing_dot(q: Seq<char>) -> Seq<char> {
    if q.len() > 0 && q.last() == '.' {
        q.drop_last()
    } else {
        q
    }
}

/// Whether a rule set applies to a query name: always when it has no
/// includes; otherwise when no exclude and some include matches the name
/// without its trailing dot.
pub open spec fn rules_match(q: Seq<char>, r: RuleSet) -> bool {
    r.includes.len() == 0 || {
        let n = strip_trailing_dot(q);
        &&& forall|i: int| 0 <= i < r.excludes.len() ==> !name_matches(n, #[trigger] r.excludes[i])
        &&& exists|i: int| 0 <= i < r.includes.len() && name_matches(n, #[trigger] r.includes[i])
    }
}

/// Decides whether `domain_rules` apply to `query_name`.
pub fn matches_domain(query_name: &str, domain_rules: &DomainRules) -> (r: bool)
    ensures
        r == rules_match(query_name@, domain_rules@),
{
    let includes = &domain_rules.includes;
    let excludes = &domain_rules.excludes;
    if includes.len() == 0 {
        return true;
    }
    let len = query_name.unicode_len();
    let name = if len > 0 && query_name.get_char(len - 1) == '.' {
        query_name.substring_char(0, len - 1)
    } else {
        query_name
    };
    let ghost n = strip_trailing_dot(query_name@);
    assert(name@ =~= n);
    let ghost rs = domain_rules@;
    let mut i: usize = 0;
    while i < excludes.len()
        invariant
            excludes == &domain_rules.excludes,
            rs == domain_rules@,
            rs.includes.len() > 0,
            name@ == n,
            n == strip_trailing_dot(query_name@),
            i <= excludes@.len(),
            forall|j: int| 0 <= j < i ==> !name_matches(n, #[trigger] rs.excludes[j]),
        decreases excludes@.len() - i,
    {
        assert(rs.excludes[i as int] == excludes@[i as int]@);
        if is_domain_match(name, excludes[i].as_str()) {
            assert(name_matches(n, rs.excludes[i as int]));

            return false;
        }
        i = i + 1;
    }
    let mut k: usize = 0;
    while k < includes.len()
        invariant
            includes == &domain_rules.includes,
            rs == domain_rules@,
            name@ == n,
            n == strip_trailing_dot(query_name@),
            k <= includes@.len(),
            forall|j: int| 0 <= j < rs.excludes.len() ==> !name_matches(n, #[trigger] rs.excludes[j]),
            forall|j: int| 0 <= j < k ==> !name_matches(n, #[trigger] rs.includes[j]),
        decreases includes@.len() - k,
    {
        assert(rs.includes[k as int] == includes@[k as int]@);
        if is_domain_match(name, includes[k].as_str()) {
            assert(name_matches(n, rs.includes[k as int]));
            return true;
        }
        k = k + 1;
    }
    false
}

/// `s` ends with `suffix`.
pub open spec fn ends_with<A>(s: Seq<A>, suffix: Seq<A>) -> bool {
    suffix.len() <= s.len() && s.subrange(s.len() - suffix.len(), s.len() as int) == suffix
}

/// Whether a name holds no ASCII upper-case letter.
pub open spec fn is_lower(s: Seq<char>) -> bool {
    forall|i: int| 0 <= i < s.len() ==> !('A' <= #[trigger] s[i] && s[i] <= 'Z')
}

/// A single include pattern matches a name exactly when the case-folded name
/// without its trailing dot equals the pattern or ends with `.` followed by it.
pub proof fn lemma_single_include(q: Seq<char>, p: Seq<char>)
    ensures
        rules_match(q, RuleSet { includes: seq![p], excludes: Seq::empty() }) <==> {
            let n = folded(strip_trailing_dot(q));
            n == folded(p) || ends_with(n, folded(seq!['.'] + p))
        },
{
    let n = folded(strip_trailing_dot(q));
    let fp = folded(p);
    let dp = folded(seq!['.'] + p);
    assert(dp =~= seq!['.' as int] + fp);
    let r = RuleSet { includes: seq![p], excludes: Seq::<Seq<char>>::empty() };
    if label_match(n, fp) {
        assert(name_matches(strip_trailing_dot(q), r.includes[0]));
        if n != fp {
            assert(n.subrange(n.len() - dp.len(), n.len() as int) =~= dp);
        }
    }
    if ends_with(n, dp) && n != fp {
        let t = n.subrange(n.len() - dp.len(), n.len() as int);
        assert forall|j: int| 0 <= j < fp.len() implies n.subrange(n.len() - fp.len(), n.len() as int)[j] == fp[j] by {
            assert(t[j + 1] == dp[j + 1]);
        }
        assert(n.subrange(n.len() - fp.len(), n.len() as int) =~= fp);
        assert(t[0] == n[n.len() - fp.len() - 1]);
        assert(name_matches(strip_trailing_dot(q), r.includes[0]));
    }
}

/// For names without a trailing dot and without upper-case letters, a single
/// include pattern `p` matches `q` exactly when `q == p` or `q` ends with
/// `"." + p`: the match never splits a label.
pub proof fn lemma_label_boundary(q: Seq<char>, p: Seq<char>)
    requires
        !(q.len() > 0 && q.last() == '.'),
        is_lower(q),
        is_lower(p),
    ensures
        rules_match(q, RuleSet { includes: seq![p], excludes: Seq::empty() }) <==> (q == p
            || ends_with(q, seq!['.'] + p)),
{
    lemma_single_include(q, p);
    let dp = seq!['.'] + p;
    assert(strip_trailing_dot(q) == q);
    lemma_folded_lower_injective(q, p);
    if ends_with(folded(q), folded(dp)) {
        let t = q.subrange(q.len() - dp.len(), q.len() as int);
        assert(folded(t) =~= folded(q).subrange(q.len() - dp.len(), q.len() as int));
        assert(is_lower(dp));
        assert(is_lower(t));
        lemma_folded_lower_injective(t, dp);
    }
    if ends_with(q, dp) {
        let t = q.subrange(q.len() - dp.len(), q.len() as int);
        assert(folded(t) =~= folded(q).subrange(q.len() - dp.len(), q.len() as int));
    }
}

proof fn lemma_folded_lower_injective(a: Seq<char>, b: Seq<char>)
    requires
        is_lower(a),
        is_lower(b),
    ensures
        folded(a) == folded(b) <==> a == b,
{
    if folded(a) == folded(b) {
        assert(a.len() == folded(a).len());
        assert forall|i: int| 0 <= i < a.len() implies a[i] == b[i] by {
            assert(folded(a)[i] == fold_code(a[i]));
            assert(folded(b)[i] == fold_code(b[i]));
            assert(!('A' <= a[i] && a[i] <= 'Z'));
            assert(!('A' <= b[i] && b[i] <= 'Z'));
        }
        assert(a =~= b);
    }
}

/// Repeating each list of a rule set does not change what it matches.
pub proof fn lemma_rules_idempotent(q: Seq<char>, r: RuleSet)
    ensures
        rules_match(q, RuleSet { includes: r.includes + r.includes, excludes: r.excludes + r.excludes })
            == rules_match(q, r),
{
    let d = RuleSet { includes: r.includes + r.includes, excludes: r.excludes + r.excludes };
    let n = strip_trailing_dot(q);
    assert forall|i: int| 0 <= i < d.excludes.len() implies #[trigger] d.excludes[i] == r.excludes[
        i % r.excludes.len() as int] by {
        if i >= r.excludes.len() {
            assert(i % r.excludes.len() as int == i - r.excludes.len()) by (nonlinear_arith)
                requires
                    r.excludes.len() <= i < 2 * r.excludes.len(),
            ;
        } else {
            assert(i % r.excludes.len() as int == i) by (nonlinear_arith)
                requires
                    0 <= i < r.excludes.len(),
            ;
        }
    }
    if exists|i: int| 0 <= i < d.includes.len() && name_matches(n, #[trigger] d.includes[i]) {
        let i = choose|i: int| 0 <= i < d.includes.len() && name_matches(n, #[trigger] d.includes[i]);
        if i >= r.includes.len() {
            assert(name_matches(n, r.includes[i - r.includes.len()]));
        } else {
            assert(name_matches(n, r.includes[i]));
        }
    }
    if exists|i: int| 0 <= i < r.includes.len() && name_matches(n, #[trigger] r.includes[i]) {
        let i = choose|i: int| 0 <= i < r.includes.len() && name_matches(n, #[trigger] r.includes[i]);
        assert(name_matches(n, d.includes[i]));
    }
    if exists|i: int| 0 <= i < r.excludes.len() && name_matches(n, #[trigger] r.excludes[i]) {
        let i = choose|i: int| 0 <= i < r.excludes.len() && name_matches(n, #[trigger] r.excludes[i]);
        assert(name_matches(n, d.excludes[i]));
    }
}

/// A rule set without includes matches every name, whatever it excludes.
pub proof fn lemma_empty_includes_universal(q: Seq<char>, excludes: Seq<Seq<char>>)
    ensures
        rules_match(q, RuleSet { includes: Seq::empty(), excludes }),
{
}

} // verus!
