//! Provider configuration: each provider's address, host name and the
//! domain groups it serves, turned into the registry's rule sets.
use vstd::prelude::*;
use crate::rules::{DomainRules, RuleSet, strs};

verus! {

/// One configured upstream provider.
pub struct Provider {
    pub addr: String,
    pub hostname: String,
    pub domain_groups: Vec<String>,
}

/// The parsed configuration: providers by key, in the order given, and the
/// named domain groups they may reference.  In a well-formed configuration
/// (`wf`) no key repeats, as in the file it was read from.
pub struct Config {
    pub providers: Vec<(String, Provider)>,
    pub domain_groups: Vec<(String, Vec<String>)>,
}

/// What the registry needs to know of one provider: its address and host
/// name as configured, its display name (the provider's key) and its rules.
pub struct ProviderInfo {
    pub addr: String,
    pub hostname: String,
    pub name: String,
    pub domain_rules: DomainRules,
}

/// No two entries share a key.
pub open spec fn keys_unique<V>(entries: Seq<(String, V)>) -> bool {
    forall|i: int, j: int| 0 <= i < j < entries.len() ==> #[trigger] entries[i].0@ != #[trigger] entries[j].0@
}

/// Whether no two entries share a key.
pub fn unique_keys<V>(entries: &Vec<(String, V)>) -> (r: bool)
    ensures
        r == keys_unique(entries@),
{
    let n = entries.len();
    let mut i: usize = 0;
    while i < n
        invariant
            n == entries@.len(),
            i <= n,
            forall|a: int, b: int| 0 <= a < i && a < b < n ==> #[trigger] entries@[a].0@ != #[trigger] entries@[b].0@,
        decreases n - i,
    {
        let mut j: usize = i + 1;
        while j < n
            invariant
                n == entries@.len(),
                i < n,
                i < j <= n,
                forall|a: int, b: int| 0 <= a < i && a < b < n ==> #[trigger] entries@[a].0@ != #[trigger] entries@[b].0@,
                forall|b: int| i < b < j ==> entries@[i as int].0@ != #[trigger] entries@[b].0@,
            decreases n - j,
        {
            if entries[i].0 == entries[j].0 {
                return false;
            }
            j = j + 1;
        }
        i = i + 1;
    }
    true
}

/// A domain group as a name and its entries.
pub type GroupView = (Seq<char>, Seq<Seq<char>>);

/// The entries of the first group called `name`.
pub open spec fn lookup(groups: Seq<GroupView>, name: Seq<char>) -> Option<Seq<Seq<char>>>
    decreases groups.len(),
{
    if groups.len() == 0 {
        None
    } else if groups[0].0 == name {
        Some(groups[0].1)
    } else {
        lookup(groups.drop_first(), name)
    }
}

/// The entries of the referenced groups that exist, in reference order.
pub open spec fn referenced_entries(groups: Seq<GroupView>, refs: Seq<Seq<char>>) -> Seq<Seq<char>>
    decreases refs.len(),
{
    if refs.len() == 0 {
        Seq::empty()
    } else {
        referenced_entries(groups, refs.drop_last()) + match lookup(groups, refs.last()) {
            Some(e) => e,
            None => Seq::empty(),
        }
    }
}

/// An entry that starts with `!` excludes the domain that follows.
pub open spec fn is_exclusion(d: Seq<char>) -> bool {
    d.len() > 0 && d[0] == '!'
}

/// The entries that are not exclusions, in order.
pub open spec fn includes_of(entries: Seq<Seq<char>>) -> Seq<Seq<char>>
    decreases entries.len(),
{
    if entries.len() == 0 {
        Seq::empty()
    } else if is_exclusion(entries.last()) {
        includes_of(entries.drop_last())
    } else {
        includes_of(entries.drop_last()).push(entries.last())
    }
}

/// The excluded domains, without their `!`, in order.
pub open spec fn excludes_of(entries: Seq<Seq<char>>) -> Seq<Seq<char>>
    decreases entries.len(),
{
    if entries.len() == 0 {
        Seq::empty()
    } else if is_exclusion(entries.last()) {
        excludes_of(entries.drop_last()).push(entries.last().drop_first())
    } else {
        excludes_of(entries.drop_last())
    }
}

/// Whether some referenced group exists and is empty.
pub open spec fn has_empty_group(groups: Seq<GroupView>, refs: Seq<Seq<char>>) -> bool {
    exists|k: int| 0 <= k < refs.len() && lookup(groups, #[trigger] refs[k]) == Some(Seq::<Seq<char>>::empty())
}

/// The rule set of a provider referencing `refs`: the union of the
/// referenced groups split into includes and excludes, or the universal
/// rule set when a referenced group is empty.
pub open spec fn rules_for(groups: Seq<GroupView>, refs: Seq<Seq<char>>) -> RuleSet {
    if has_empty_group(groups, refs) {
        RuleSet { includes: Seq::empty(), excludes: Seq::empty() }
    } else {
        let e = referenced_entries(groups, refs);
        RuleSet { includes: includes_of(e), excludes: excludes_of(e) }
    }
}

proof fn lemma_lookup_found(groups: Seq<GroupView>, name: Seq<char>, i: int)
    requires
        0 <= i < groups.len(),
        groups[i].0 == name,
        forall|j: int| 0 <= j < i ==> groups[j].0 != name,
    ensures
        lookup(groups, name) == Some(groups[i].1),
    decreases i,
{
    if i > 0 {
        lemma_lookup_found(groups.drop_first(), name, i - 1);
    }
}

proof fn lemma_lookup_absent(groups: Seq<GroupView>, name: Seq<char>)
    requires
        forall|j: int| 0 <= j < groups.len() ==> groups[j].0 != name,
    ensures
        lookup(groups, name) is None,
    decreases groups.len(),
{
    if groups.len() > 0 {
        lemma_lookup_absent(groups.drop_first(), name);
    }
}

proof fn lemma_split_push(entries: Seq<Seq<char>>, d: Seq<char>)
    ensures
        includes_of(entries.push(d)) == if is_exclusion(d) {
            includes_of(entries)
        } else {
            includes_of(entries).push(d)
        },
        excludes_of(entries.push(d)) == if is_exclusion(d) {
            excludes_of(entries).push(d.drop_first())
        } else {
            excludes_of(entries)
        },
{
    assert(entries.push(d).drop_last() =~= entries);
}

/// A provider whose referenced groups all exist and are empty serves every
/// name: its rule set is universal.
pub proof fn lemma_empty_groups_universal(groups: Seq<GroupView>, refs: Seq<Seq<char>>)
    requires
        refs.len() > 0,
        forall|k: int| 0 <= k < refs.len() ==> lookup(groups, #[trigger] refs[k]) == Some(
            Seq::<Seq<char>>::empty(),
        ),
    ensures
        rules_for(groups, refs).includes.len() == 0,
        rules_for(groups, refs).excludes.len() == 0,
{
    assert(lookup(groups, refs[0]) == Some(Seq::<Seq<char>>::empty()));
}

/// A provider that references no group serves every name.
pub proof fn lemma_no_groups_universal(groups: Seq<GroupView>)
    ensures
        rules_for(groups, Seq::empty()).includes.len() == 0,
{
    assert(referenced_entries(groups, Seq::empty()) == Seq::<Seq<char>>::empty());
}

/// The view of the domain groups.
pub open spec fn groups_view(g: Seq<(String, Vec<String>)>) -> Seq<GroupView> {
    g.map_values(|e: (String, Vec<String>)| (e.0@, strs(e.1@)))
}

/// Adds one group entry to the rule lists being built.
fn push_entry(includes: &mut Vec<String>, excludes: &mut Vec<String>, domain: &String)
    ensures
        strs(final(includes)@) == if is_exclusion(domain@) {
            strs(old(includes)@)
        } else {
            strs(old(includes)@).push(domain@)
        },
        strs(final(excludes)@) == if is_exclusion(domain@) {
            strs(old(excludes)@).push(domain@.drop_first())
        } else {
            strs(old(excludes)@)
        },
{
    let s = domain.as_str();
    let len = s.unicode_len();
    if len > 0 && s.get_char(0) == '!' {
        let rest = s.substring_char(1, len).to_owned();
        excludes.push(rest);
        assert(strs(excludes@) =~= strs(old(excludes)@).push(domain@.drop_first()));
    } else {
        includes.push(domain.clone());
        assert(strs(includes@) =~= strs(old(includes)@).push(domain@));
    }
}

impl Config {
    /// No provider key and no group name repeats.
    pub open spec fn wf(&self) -> bool {
        keys_unique(self.providers@) && keys_unique(self.domain_groups@)
    }

    /// Whether the configuration is well formed.
    pub fn is_well_formed(&self) -> (r: bool)
        ensures
            r == self.wf(),
    {
        unique_keys(&self.providers) && unique_keys(&self.domain_groups)
    }

    /// The domain groups as names and entries.
    pub open spec fn groups(&self) -> Seq<GroupView> {
        groups_view(self.domain_groups@)
    }

    fn find_group(&self, name: &String) -> (r: Option<usize>)
        ensures
            r matches Some(i) ==> i < self.domain_groups@.len() && lookup(self.groups(), name@) == Some(
                self.groups()[i as int].1,
            ),
            r is None ==> lookup(self.groups(), name@) is None,
    {
        let ghost g = self.groups();
        let mut i: usize = 0;
        while i < self.domain_groups.len()
            invariant
                g == self.groups(),
                i <= self.domain_groups@.len(),
                forall|j: int| 0 <= j < i ==> g[j].0 != name@,
            decreases self.domain_groups@.len() - i,
        {
            if self.domain_groups[i].0 == *name {
                proof {
                    lemma_lookup_found(g, name@, i as int);
                }
                return Some(i);
            }
            i = i + 1;
        }
        proof {
            lemma_lookup_absent(g, name@);
        }
        None
    }

    /// The rule set of a provider that references the groups `refs`.
    pub fn rules_of(&self, refs: &Vec<String>) -> (r: DomainRules)
        ensures
            r@ == rules_for(self.groups(), strs(refs@)),
    {
        let ghost g = self.groups();
        let ghost rs = strs(refs@);
        let mut includes: Vec<String> = Vec::new();
        let mut excludes: Vec<String> = Vec::new();
        let mut cleared = false;
        let mut k: usize = 0;
        while k < refs.len()
            invariant
                g == self.groups(),
                rs == strs(refs@),
                k <= refs@.len(),
                strs(includes@) == includes_of(referenced_entries(g, rs.subrange(0, k as int))),
                strs(excludes@) == excludes_of(referenced_entries(g, rs.subrange(0, k as int))),
                cleared == exists|j: int| 0 <= j < k && lookup(g, #[trigger] rs[j]) == Some(Seq::<Seq<char>>::empty()),
            decreases refs@.len() - k,
        {
            let ghost before = referenced_entries(g, rs.subrange(0, k as int));
            assert(rs.subrange(0, k + 1).drop_last() =~= rs.subrange(0, k as int));
            assert(rs[k as int] == refs@[k as int]@);
            match self.find_group(&refs[k]) {
                Some(gi) => {
                    let domains = &self.domain_groups[gi].1;
                    let ghost entries = g[gi as int].1;
                    assert(entries == strs(domains@));
                    if domains.len() == 0 {
                        cleared = true;
                    }
                    let mut j: usize = 0;
                    while j < domains.len()
                        invariant
                            j <= domains@.len(),
                            entries == strs(domains@),
                            strs(includes@) == includes_of(before + entries.subrange(0, j as int)),
                            strs(excludes@) == excludes_of(before + entries.subrange(0, j as int)),
                        decreases domains@.len() - j,
                    {
                        proof {
                            lemma_split_push(before + entries.subrange(0, j as int), entries[j as int]);
                            assert((before + entries.subrange(0, j as int)).push(entries[j as int])
                                =~= before + entries.subrange(0, j + 1));
                        }
                        push_entry(&mut includes, &mut excludes, &domains[j]);
                        j = j + 1;
                    }
                    assert(entries.subrange(0, j as int) =~= entries);
                    assert(referenced_entries(g, rs.subrange(0, k + 1)) == before + entries);
                    if cleared {
                        assert(lookup(g, rs[k as int]) == Some(Seq::<Seq<char>>::empty()) || exists|
                            j: int,
                        | 0 <= j < k && lookup(g, #[trigger] rs[j]) == Some(Seq::<Seq<char>>::empty()));
                    }
                },
                None => {
                    assert(before + Seq::<Seq<char>>::empty() =~= before);
                    assert(referenced_entries(g, rs.subrange(0, k + 1)) == before);
                },
            }
            assert(cleared == exists|j: int| 0 <= j < k + 1 && lookup(g, #[trigger] rs[j]) == Some(Seq::<Seq<char>>::empty()));
            k = k + 1;
        }
        assert(rs.subrange(0, k as int) =~= rs);
        if cleared {
            includes = Vec::new();
            excludes = Vec::new();
            assert(strs(includes@) =~= Seq::<Seq<char>>::empty());
            assert(strs(excludes@) =~= Seq::<Seq<char>>::empty());
        }
        DomainRules { includes, excludes }
    }

    /// Whether `info` describes the provider `p` stored under `key`.
    pub open spec fn describes(&self, info: ProviderInfo, key: String, p: Provider) -> bool {
        &&& info.addr@ == p.addr@
        &&& info.hostname@ == p.hostname@
        &&& info.name@ == key@
        &&& info.domain_rules@ == rules_for(self.groups(), strs(p.domain_groups@))
    }

    /// One entry per provider, in configuration order, with its rule set:
    /// one per element of `providers`, so in a well-formed configuration one
    /// per key.  The address is handed on as written.
    pub fn get_providers(&self) -> (r: Vec<ProviderInfo>)
        ensures
            r@.len() == self.providers@.len(),
            forall|i: int|
                0 <= i < r@.len() ==> self.describes(
                    #[trigger] r@[i],
                    self.providers@[i].0,
                    self.providers@[i].1,
                ),
    {
        let mut out: Vec<ProviderInfo> = Vec::new();
        let mut i: usize = 0;
        while i < self.providers.len()
            invariant
                i <= self.providers@.len(),
                out@.len() == i,
                forall|j: int|
                    0 <= j < i ==> self.describes(
                        #[trigger] out@[j],
                        self.providers@[j].0,
                        self.providers@[j].1,
                    ),
            decreases self.providers@.len() - i,
        {
            let (key, provider) = &self.providers[i];
            let info = ProviderInfo {
                addr: provider.addr.clone(),
                hostname: provider.hostname.clone(),
                name: key.clone(),
                domain_rules: self.rules_of(&provider.domain_groups),
            };
            out.push(info);
            i = i + 1;
        }
        out
    }
}

} // verus!
