//! Scope enforcement: decides whether a discovered URL is allowed to be queued.

use vstd::prelude::*;

use crate::config::{ConfigView, CrawlConfig, Scope};
use crate::pattern::{self, any_match};
use crate::text::{self, chars_of, parse_number, text_between, to_decimal, to_lower};
use crate::text_map::TextMap;
use crate::weburl::{Url, UrlView};

verus! {

/// The registrable domain that the Public Suffix List of the `psl` crate finds
/// in a host name, if it finds one.
pub uninterp spec fn psl_domain(name: Seq<char>) -> Option<Seq<char>>;

/// What was found, as text.
pub open spec fn found_text(found: Option<&str>) -> Option<Seq<char>> {
    match found {
        Some(d) => Some(d@),
        None => None,
    }
}

/// `psl::domain_str`: the list is compiled into the crate, so what it finds in
/// a name is a function of the name.
pub assume_specification[ psl::domain_str ](name: &str) -> (r: Option<&str>)
    ensures
        found_text(r) == psl_domain(name@),
;

/// Whether `s` is a number from 0 to 255 in decimal.
pub open spec fn is_octet(s: Seq<char>) -> bool {
    exists|n: nat| n <= 255 && s == #[trigger] text::decimal(n)
}

/// Whether `s` is `count` numbers from 0 to 255 with dots between them.
pub open spec fn is_octets(s: Seq<char>, count: nat) -> bool
    decreases count,
{
    if count <= 1 {
        is_octet(s)
    } else {
        exists|k: int|
            0 <= k < s.len() && #[trigger] s[k] == '.' && is_octet(s.take(k)) && is_octets(
                s.skip(k + 1),
                (count - 1) as nat,
            )
    }
}

/// Whether a host is an IP address: an IPv4 address, or an IPv6 address in
/// brackets, which no other host has.
pub open spec fn is_ip(host: Seq<char>) -> bool {
    ||| is_octets(host, 4)
    ||| host.len() > 1 && host[0] == '[' && host.last() == ']'
}

fn octet(s: &str) -> (r: bool)
    ensures
        r == is_octet(s@),
{
    proof {
        if is_octet(s@) {
            let n = choose|n: nat| n <= 255 && s@ == #[trigger] text::decimal(n);
            text::decimal_round_trip(n);
        }
    }
    match parse_number(s, 255) {
        Some(n) => *to_decimal(n).as_str() == *s,
        None => false,
    }
}

/// Whether `chars[from..]` is `count` numbers from 0 to 255 with dots between
/// them.
fn octets(chars: &Vec<char>, from: usize, count: usize) -> (r: bool)
    requires
        from <= chars@.len(),
    ensures
        r == is_octets(chars@.skip(from as int), count as nat),
    decreases count,
{
    let ghost s = chars@.skip(from as int);
    if count <= 1 {
        let last = text_between(chars, from, chars.len());
        proof {
            assert(last@ =~= s);
        }
        return octet(last.as_str());
    }
    let mut i: usize = from;
    while i < chars.len() && chars[i] != '.'
        invariant
            from <= i <= chars@.len(),
            forall|j: int| from <= j < i ==> chars@[j] != '.',
        decreases chars.len() - i,
    {
        i += 1;
    }
    proof {
        // A number holds no dot, so only the first dot can end the first one.
        assert forall|k: int|
            0 <= k < s.len() && #[trigger] s[k] == '.' && is_octet(s.take(k)) implies k == i
            - from by {
            let n = choose|n: nat| n <= 255 && s.take(k) == #[trigger] text::decimal(n);
            text::digits_value_of_decimal(n);
            if k > i - from {
                assert(s.take(k)[i - from] == '.');
            } else if k < i - from {
                assert(chars@[from + k] == '.');
            }
        }
    }
    if i == chars.len() {
        return false;
    }
    let first = text_between(chars, from, i);
    proof {
        assert(first@ =~= s.take(i - from));
        assert(s[i - from] == '.');
        assert(s.skip(i - from + 1) =~= chars@.skip(i + 1));
    }
    octet(first.as_str()) && octets(chars, i + 1, count - 1)
}

/// Whether a host is an IP address: an IPv4 address, or an IPv6 address in
/// brackets.
pub fn is_ip_address(host: &str) -> (r: bool)
    ensures
        r == is_ip(host@),
{
    let chars = chars_of(host);
    let n: usize = chars.len();
    proof {
        assert(chars@.skip(0) =~= host@);
    }
    octets(&chars, 0, 4) || (n > 1 && chars[0] == '[' && chars[n - 1] == ']')
}

/// The lower-case domain that was found in `host`; the host itself, in lower
/// case, where none was found or the host is an IP address.
pub open spec fn domain_or_host(host: Seq<char>, found: Option<Seq<char>>) -> Seq<char> {
    match found {
        Some(d) => if is_ip(host) {
            text::lowered(host)
        } else {
            text::lowered(d)
        },
        None => text::lowered(host),
    }
}

/// The domain by which a host is compared with the seeds.
pub open spec fn registrable(host: Seq<char>) -> Seq<char> {
    domain_or_host(host, psl_domain(host))
}

/// Choose between a domain that was found and the host itself.
///
/// The host stands in when the suffix list has no opinion (e.g. for an internal
/// host name), and for an IP address, in which the list takes the last numbers
/// for a domain. This keeps such hosts comparable to themselves.
pub fn found_or_host(host: &str, found: Option<&str>) -> (r: String)
    ensures
        r@ == domain_or_host(host@, found_text(found)),
        is_ip(host@) ==> r@ == text::lowered(host@),
{
    match found {
        Some(d) => if is_ip_address(host) {
            to_lower(host)
        } else {
            to_lower(d)
        },
        None => to_lower(host),
    }
}

/// Best-effort registrable domain (eTLD+1) using the Public Suffix List.
pub fn registrable_domain(host: &str) -> (r: String)
    ensures
        r@ == registrable(host@),
        is_ip(host@) ==> r@ == text::lowered(host@),
{
    found_or_host(host, psl::domain_str(host))
}

/// Decides whether a URL is in scope for a crawl.
///
/// A URL is allowed when **all** of the following hold:
/// 1. it uses `http` or `https`;
/// 2. it satisfies the configured [`Scope`] relative to the seeds;
/// 3. it matches at least one include pattern (if any are configured);
/// 4. it matches none of the exclude patterns.
pub struct UrlFilter {
    scope: Scope,
    seed_hosts: TextMap<()>,
    seed_domains: TextMap<()>,
    includes: Vec<regex::Regex>,
    exclude: Vec<regex::Regex>,
}

/// What a [`UrlFilter`] decides by.
pub struct FilterView {
    pub scope: Scope,
    /// The hosts of the seeds, in lower case.
    pub hosts: Set<Seq<char>>,
    /// The registrable domains of the seeds.
    pub domains: Set<Seq<char>>,
    pub includes: Seq<Set<Seq<char>>>,
    pub exclude: Seq<Set<Seq<char>>>,
}

/// Whether one of `patterns` matches `x`.
pub open spec fn matched(patterns: Seq<Set<Seq<char>>>, x: Seq<char>) -> bool {
    exists|i: int| 0 <= i < patterns.len() && (#[trigger] patterns[i]).contains(x)
}

/// The hosts of `seeds`, in lower case.
pub open spec fn hosts_of(seeds: Seq<UrlView>) -> Set<Seq<char>> {
    Set::new(
        |h: Seq<char>|
            exists|i: int|
                0 <= i < seeds.len() && (#[trigger] seeds[i]).host is Some && h == text::lowered(
                    seeds[i].host->0,
                ),
    )
}

/// The registrable domains of `seeds`.
pub open spec fn domains_of(seeds: Seq<UrlView>) -> Set<Seq<char>> {
    Set::new(
        |d: Seq<char>|
            exists|i: int|
                0 <= i < seeds.len() && (#[trigger] seeds[i]).host is Some && d == registrable(
                    seeds[i].host->0,
                ),
    )
}

impl FilterView {
    /// The filter that goes with a configuration.
    pub open spec fn of(config: ConfigView) -> FilterView {
        FilterView {
            scope: config.settings.scope,
            hosts: hosts_of(config.settings.seeds),
            domains: domains_of(config.settings.seeds),
            includes: config.includes,
            exclude: config.exclude,
        }
    }

    /// Whether `host`, with `domain` for its registrable domain, is close
    /// enough to the seeds. Both are in lower case.
    pub open spec fn covers(self, host: Seq<char>, domain: Seq<char>) -> bool {
        match self.scope {
            Scope::Any => true,
            Scope::Host => self.hosts.contains(host),
            Scope::Domain => self.domains.contains(domain),
        }
    }

    /// Whether the scope allows `u`.
    pub open spec fn in_scope(self, u: UrlView) -> bool {
        match u.host {
            Some(h) => self.covers(text::lowered(h), registrable(text::lowered(h))),
            None => false,
        }
    }

    /// Whether the filter allows `u`.
    pub open spec fn allows(self, u: UrlView) -> bool {
        &&& u.is_web()
        &&& self.in_scope(u)
        &&& !matched(self.exclude, u.text())
        &&& self.includes.len() == 0 || matched(self.includes, u.text())
    }
}

impl View for UrlFilter {
    type V = FilterView;

    closed spec fn view(&self) -> FilterView {
        FilterView {
            scope: self.scope,
            hosts: self.seed_hosts.keys().to_set(),
            domains: self.seed_domains.keys().to_set(),
            includes: pattern::languages(self.includes@),
            exclude: pattern::languages(self.exclude@),
        }
    }
}

/// Whether patterns let a URL pass: it is not excluded, and included where
/// that is asked for.
pub fn patterns_permit(excluded: bool, restricted: bool, included: bool) -> (r: bool)
    ensures
        r == (!excluded && (!restricted || included)),
{
    !excluded && (!restricted || included)
}

/// Copy a list of expressions.
fn copy_patterns(list: &Vec<regex::Regex>) -> (r: Vec<regex::Regex>)
    ensures
        pattern::languages(r@) == pattern::languages(list@),
{
    let mut out: Vec<regex::Regex> = Vec::new();
    let mut i: usize = 0;
    while i < list.len()
        invariant
            i <= list@.len(),
            out@.len() == i,
            forall|k: int|
                0 <= k < i ==> pattern::regex_language(#[trigger] out@[k])
                    == pattern::regex_language(list@[k]),
        decreases list.len() - i,
    {
        out.push(list[i].clone());
        i += 1;
    }
    proof {
        assert(pattern::languages(out@) =~= pattern::languages(list@));
    }
    out
}

impl UrlFilter {
    /// The tables of the filter are in order.
    pub closed spec fn wf(&self) -> bool {
        &&& self.seed_hosts.wf()
        &&& self.seed_domains.wf()
    }

    /// Build a filter from a crawl configuration.
    pub fn from_config(config: &CrawlConfig) -> (r: Self)
        ensures
            r.wf(),
            r@ == FilterView::of(config@),
    {
        let mut seed_hosts: TextMap<()> = TextMap::new();
        let mut seed_domains: TextMap<()> = TextMap::new();
        let ghost seeds = config@.settings.seeds;
        proof {
            assert(seed_hosts.keys().to_set() =~= hosts_of(seeds.take(0)));
            assert(seed_domains.keys().to_set() =~= domains_of(seeds.take(0)));
        }
        let mut i: usize = 0;
        while i < config.seeds.len()
            invariant
                i <= config.seeds@.len(),
                seeds == config@.settings.seeds,
                seed_hosts.wf(),
                seed_domains.wf(),
                seed_hosts.keys().to_set() == hosts_of(seeds.take(i as int)),
                seed_domains.keys().to_set() == domains_of(seeds.take(i as int)),
            decreases config.seeds.len() - i,
        {
            let seed = &config.seeds[i];
            proof {
                assert(seed@ == seeds[i as int]);
                one_more_seed(seeds, i as int);
            }
            if let Some(host) = &seed.host {
                seed_hosts.note(to_lower(host.as_str()));
                seed_domains.note(registrable_domain(host.as_str()));
            }
            i += 1;
        }
        proof {
            assert(seeds.take(i as int) =~= seeds);
        }
        UrlFilter {
            scope: config.scope,
            seed_hosts,
            seed_domains,
            includes: copy_patterns(&config.includes),
            exclude: copy_patterns(&config.exclude),
        }
    }

    /// Returns `true` if `url` may be crawled.
    pub fn allows(&self, url: &Url) -> (r: bool)
        requires
            self.wf(),
        ensures
            r == self@.allows(url@),
    {
        if !url.is_web() {
            return false;
        }
        if !self.in_scope(url) {
            return false;
        }
        let whole = url.text();
        let excluded = any_match(&self.exclude, whole.as_str());
        let restricted = self.includes.len() > 0;
        let included = !excluded && restricted && any_match(&self.includes, whole.as_str());
        patterns_permit(excluded, restricted, included)
    }

    /// Whether a lower-case host, with `domain` for its registrable domain, is
    /// close enough to the seeds.
    pub fn covers(&self, host: &str, domain: &str) -> (r: bool)
        requires
            self.wf(),
        ensures
            r == self@.covers(host@, domain@),
    {
        match self.scope {
            Scope::Any => true,
            Scope::Host => self.seed_hosts.find(host).is_some(),
            Scope::Domain => self.seed_domains.find(domain).is_some(),
        }
    }

    fn in_scope(&self, url: &Url) -> (r: bool)
        requires
            self.wf(),
        ensures
            r == self@.in_scope(url@),
    {
        match &url.host {
            Some(h) => {
                let host = to_lower(h.as_str());
                let domain = registrable_domain(host.as_str());
                self.covers(host.as_str(), domain.as_str())
            },
            None => false,
        }
    }
}

/// What one more seed adds to the hosts and domains.
proof fn one_more_seed(seeds: Seq<UrlView>, i: int)
    requires
        0 <= i < seeds.len(),
    ensures
        hosts_of(seeds.take(i + 1)) == match seeds[i].host {
            Some(h) => hosts_of(seeds.take(i)).insert(text::lowered(h)),
            None => hosts_of(seeds.take(i)),
        },
        domains_of(seeds.take(i + 1)) == match seeds[i].host {
            Some(h) => domains_of(seeds.take(i)).insert(registrable(h)),
            None => domains_of(seeds.take(i)),
        },
{
    let a = seeds.take(i);
    let b = seeds.take(i + 1);
    assert(b[i] == seeds[i]);
    assert forall|j: int| 0 <= j < i implies a[j] == b[j] by {}
    assert forall|x: Seq<char>| hosts_of(a).contains(x) implies hosts_of(b).contains(x) by {
        let j = choose|j: int|
            0 <= j < a.len() && (#[trigger] a[j]).host is Some && x == text::lowered(a[j].host->0);
        assert(b[j] == a[j]);
    }
    assert forall|x: Seq<char>| domains_of(a).contains(x) implies domains_of(b).contains(x) by {
        let j = choose|j: int|
            0 <= j < a.len() && (#[trigger] a[j]).host is Some && x == registrable(a[j].host->0);
        assert(b[j] == a[j]);
    }
    match seeds[i].host {
        Some(h) => {
            assert(hosts_of(b) =~= hosts_of(a).insert(text::lowered(h)));
            assert(domains_of(b) =~= domains_of(a).insert(registrable(h)));
        },
        None => {
            assert(hosts_of(b) =~= hosts_of(a));
            assert(domains_of(b) =~= domains_of(a));
        },
    }
}

/// Every seed with a host is in its own scope, whatever the scope is. In the
/// domain scope the host is taken to be in lower case, as it is in every `http`
/// and `https` URL: the suffix list may not know a name in capitals.
pub proof fn seeds_are_in_scope(config: ConfigView, i: int)
    requires
        0 <= i < config.settings.seeds.len(),
        config.settings.seeds[i].host is Some,
        config.settings.scope is Domain ==> text::lowered(config.settings.seeds[i].host->0)
            == config.settings.seeds[i].host->0,
    ensures
        FilterView::of(config).in_scope(config.settings.seeds[i]),
{
    let seeds = config.settings.seeds;
    let h = seeds[i].host->0;
    assert(hosts_of(seeds).contains(text::lowered(h)));
    assert(domains_of(seeds).contains(registrable(h)));
}

/// An IP address stands for itself: a crawl from IP addresses alone covers, in
/// the domain scope, no other IP address than those it was seeded with.
pub proof fn ip_addresses_are_kept_apart(config: ConfigView, u: UrlView)
    requires
        config.settings.scope is Domain,
        forall|i: int|
            0 <= i < config.settings.seeds.len() ==> ((
            #[trigger] config.settings.seeds[i]).host matches Some(h) ==> is_ip(h)),
        u.host matches Some(h) && is_ip(text::lowered(h)),
        FilterView::of(config).in_scope(u),
    ensures
        hosts_of(config.settings.seeds).contains(text::lowered(u.host->0)),
{
    let seeds = config.settings.seeds;
    let h = text::lowered(u.host->0);
    text::lowered_twice(u.host->0);
    assert(domains_of(seeds).contains(h));
    let i = choose|i: int|
        0 <= i < seeds.len() && (#[trigger] seeds[i]).host is Some && h == registrable(
            seeds[i].host->0,
        );
    assert(h == text::lowered(seeds[i].host->0));
}

/// An excluded URL is never allowed, whatever else matches it.
pub proof fn exclusion_wins(f: FilterView, u: UrlView)
    requires
        matched(f.exclude, u.text()),
    ensures
        !f.allows(u),
{
}

/// Two URLs of one host are both in scope or both out of scope.
pub proof fn scope_goes_by_host(f: FilterView, u: UrlView, v: UrlView)
    requires
        u.host == v.host,
    ensures
        f.in_scope(u) == f.in_scope(v),
{
}

/// A narrower scope allows no more: the widest scope covers everything with a
/// host, and what the host scope covers, the domain scope covers too, where the
/// hosts of the seeds are in lower case.
pub proof fn scopes_are_nested(config: ConfigView, u: UrlView)
    ensures
        ({
            let f = FilterView::of(config);
            let host = FilterView { scope: Scope::Host, ..f };
            let domain = FilterView { scope: Scope::Domain, ..f };
            let any = FilterView { scope: Scope::Any, ..f };
            &&& domain.in_scope(u) || host.in_scope(u) ==> any.in_scope(u)
            &&& u.host is Some ==> any.in_scope(u)
            &&& hosts_are_lower(config.settings.seeds) && host.in_scope(u) ==> domain.in_scope(u)
        }),
{
    let f = FilterView::of(config);
    let seeds = config.settings.seeds;
    if u.host is Some && hosts_are_lower(seeds) {
        let h = text::lowered(u.host->0);
        if f.hosts.contains(h) {
            let i = choose|i: int|
                0 <= i < seeds.len() && (#[trigger] seeds[i]).host is Some && h == text::lowered(
                    seeds[i].host->0,
                );
            assert(f.domains.contains(registrable(h)));
        }
    }
}

/// Whether the hosts of all of `seeds` are in lower case.
pub open spec fn hosts_are_lower(seeds: Seq<UrlView>) -> bool {
    forall|i: int|
        0 <= i < seeds.len() ==> ((#[trigger] seeds[i]).host matches Some(h) ==> text::lowered(h)
            == h)
}

/// What a crawl may come to, by its configuration: the `http` and `https` URLs
/// with a host that the scope covers, that match no exclude pattern, and that
/// match some include pattern where there are any. Every seed and every pattern
/// counts, wherever it stands in its list.
pub proof fn what_is_allowed(config: ConfigView, u: UrlView)
    ensures
        FilterView::of(config).allows(u) <==> {
            let seeds = config.settings.seeds;
            &&& u.scheme == "http"@ || u.scheme == "https"@
            &&& u.host is Some
            &&& config.settings.scope is Host ==> exists|i: int|
                0 <= i < seeds.len() && (#[trigger] seeds[i]).host is Some && text::lowered(
                    seeds[i].host->0,
                ) == text::lowered(u.host->0)
            &&& config.settings.scope is Domain ==> exists|i: int|
                0 <= i < seeds.len() && (#[trigger] seeds[i]).host is Some && registrable(
                    seeds[i].host->0,
                ) == registrable(text::lowered(u.host->0))
            &&& forall|i: int|
                0 <= i < config.exclude.len() ==> !(#[trigger] config.exclude[i]).contains(u.text())
            &&& config.includes.len() == 0 || exists|i: int|
                0 <= i < config.includes.len() && (#[trigger] config.includes[i]).contains(u.text())
        },
{
    let f = FilterView::of(config);
    let seeds = config.settings.seeds;
    if u.host is Some {
        let h = text::lowered(u.host->0);
        let d = registrable(h);
        if f.hosts.contains(h) {
            let i = choose|i: int|
                0 <= i < seeds.len() && (#[trigger] seeds[i]).host is Some && h == text::lowered(
                    seeds[i].host->0,
                );
            assert(seeds[i].host is Some);
        }
        if f.domains.contains(d) {
            let i = choose|i: int|
                0 <= i < seeds.len() && (#[trigger] seeds[i]).host is Some && d == registrable(
                    seeds[i].host->0,
                );
            assert(seeds[i].host is Some);
        }
    }
}

/// Where there are include patterns, a URL in scope that no exclude pattern
/// matches is allowed exactly where one of them matches it: the first, the last,
/// or any other.
pub proof fn any_include_pattern_lets_in(f: FilterView, u: UrlView)
    requires
        f.includes.len() > 0,
        u.scheme == "http"@ || u.scheme == "https"@,
        f.in_scope(u),
        forall|i: int| 0 <= i < f.exclude.len() ==> !(#[trigger] f.exclude[i]).contains(u.text()),
    ensures
        f.allows(u) <==> exists|i: int|
            0 <= i < f.includes.len() && (#[trigger] f.includes[i]).contains(u.text()),
{
}

/// Where there is no include pattern, a URL in scope is allowed exactly where no
/// exclude pattern matches it, the first, the last, or any other.
pub proof fn any_exclude_pattern_keeps_out(f: FilterView, u: UrlView)
    requires
        f.includes.len() == 0,
        u.scheme == "http"@ || u.scheme == "https"@,
        f.in_scope(u),
    ensures
        !f.allows(u) <==> exists|i: int|
            0 <= i < f.exclude.len() && (#[trigger] f.exclude[i]).contains(u.text()),
{
}

/// A filter decides by the configuration's own scope and patterns, and covers
/// what the scope says: everything, the hosts of the seeds, or their domains.
pub proof fn scopes_cover_what_they_say(config: ConfigView, host: Seq<char>, domain: Seq<char>)
    ensures
        FilterView::of(config).scope == config.settings.scope,
        FilterView::of(config).includes == config.includes,
        FilterView::of(config).exclude == config.exclude,
        config.settings.scope is Any ==> FilterView::of(config).covers(host, domain),
        config.settings.scope is Host ==> (FilterView::of(config).covers(host, domain)
            <==> exists|i: int|
            0 <= i < config.settings.seeds.len() && (
            #[trigger] config.settings.seeds[i]).host is Some && text::lowered(
                config.settings.seeds[i].host->0,
            ) == host),
        config.settings.scope is Domain ==> (FilterView::of(config).covers(host, domain)
            <==> exists|i: int|
            0 <= i < config.settings.seeds.len() && (
            #[trigger] config.settings.seeds[i]).host is Some && registrable(
                config.settings.seeds[i].host->0,
            ) == domain),
{
    let seeds = config.settings.seeds;
    let f = FilterView::of(config);
    if f.hosts.contains(host) {
        let i = choose|i: int|
            0 <= i < seeds.len() && (#[trigger] seeds[i]).host is Some && host == text::lowered(
                seeds[i].host->0,
            );
        assert(seeds[i].host is Some);
    }
    if f.domains.contains(domain) {
        let i = choose|i: int|
            0 <= i < seeds.len() && (#[trigger] seeds[i]).host is Some && domain == registrable(
                seeds[i].host->0,
            );
        assert(seeds[i].host is Some);
    }
}

/// The domain of a host is what the suffix list finds in it, in lower case; an
/// IP address, and a name in which the list finds nothing, is its own domain.
pub proof fn domains_come_from_the_list(host: Seq<char>, found: Seq<char>)
    ensures
        !is_ip(host) && psl_domain(host) == Some(found) ==> registrable(host) == text::lowered(
            found,
        ),
        is_ip(host) ==> registrable(host) == text::lowered(host),
        psl_domain(host) is None ==> registrable(host) == text::lowered(host),
        !is_ip(host) ==> domain_or_host(host, Some(found)) == text::lowered(found),
        is_ip(host) ==> domain_or_host(host, Some(found)) == text::lowered(host),
        domain_or_host(host, None) == text::lowered(host),
{
}

/// Four numbers with dots between them.
pub open spec fn dotted(a: nat, b: nat, c: nat, d: nat) -> Seq<char> {
    text::decimal(a) + "."@ + text::decimal(b) + "."@ + text::decimal(c) + "."@ + text::decimal(d)
}

/// A number in front of a dot and more is the first of the numbers.
proof fn octet_in_front(n: nat, rest: Seq<char>, count: nat)
    requires
        n <= 255,
        count >= 1,
        is_octets(rest, count),
    ensures
        is_octets(text::decimal(n) + "."@ + rest, count + 1),
{
    reveal_strlit(".");
    let s = text::decimal(n) + "."@ + rest;
    let k = text::decimal(n).len() as int;
    assert(s.take(k) =~= text::decimal(n));
    assert(s.skip(k + 1) =~= rest);
    assert(s[k] == '.');
}

/// The first of several numbers stands in front of a dot.
proof fn octet_taken_off(s: Seq<char>, count: nat) -> (r: (nat, Seq<char>))
    requires
        count >= 2,
        is_octets(s, count),
    ensures
        r.0 <= 255,
        s == text::decimal(r.0) + "."@ + r.1,
        is_octets(r.1, (count - 1) as nat),
{
    reveal_strlit(".");
    let k = choose|k: int|
        0 <= k < s.len() && #[trigger] s[k] == '.' && is_octet(s.take(k)) && is_octets(
            s.skip(k + 1),
            (count - 1) as nat,
        );
    let n = choose|n: nat| n <= 255 && s.take(k) == #[trigger] text::decimal(n);
    assert(s =~= text::decimal(n) + "."@ + s.skip(k + 1));
    (n, s.skip(k + 1))
}

/// A host in brackets is an IP address, and so is every host of four numbers
/// from 0 to 255 with dots between them.
pub proof fn addresses_are_recognised(host: Seq<char>, a: nat, b: nat, c: nat, d: nat)
    ensures
        host.len() > 1 && host[0] == '[' && host.last() == ']' ==> is_ip(host),
        a <= 255 && b <= 255 && c <= 255 && d <= 255 ==> is_ip(dotted(a, b, c, d)),
{
    if a <= 255 && b <= 255 && c <= 255 && d <= 255 {
        let s1 = text::decimal(d);
        let s2 = text::decimal(c) + "."@ + s1;
        let s3 = text::decimal(b) + "."@ + s2;
        let s4 = text::decimal(a) + "."@ + s3;
        assert(is_octet(s1));
        assert(is_octets(s1, 1));
        octet_in_front(c, s1, 1);
        octet_in_front(b, s2, 2);
        octet_in_front(a, s3, 3);
        assert(dotted(a, b, c, d) =~= s4);
    }
}

/// Nothing else is an IP address.
pub proof fn only_addresses_are_recognised(host: Seq<char>)
    requires
        is_ip(host),
    ensures
        (host.len() > 1 && host[0] == '[' && host.last() == ']') || exists|
            a: nat,
            b: nat,
            c: nat,
            d: nat,
        |
            a <= 255 && b <= 255 && c <= 255 && d <= 255 && host == #[trigger] dotted(a, b, c, d),
{
    if is_octets(host, 4) {
        let (a, r3) = octet_taken_off(host, 4);
        let (b, r2) = octet_taken_off(r3, 3);
        let (c, r1) = octet_taken_off(r2, 2);
        let d = choose|n: nat| n <= 255 && r1 == #[trigger] text::decimal(n);
        assert(is_octet(r1));
        assert(host =~= dotted(a, b, c, d));
    }
}

} // verus!
