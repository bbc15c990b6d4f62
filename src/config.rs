//! Reverse-proxy configuration: virtual hosts, their locations and upstreams,
//! and the rule that picks the location for a request.
use vstd::prelude::*;

verus! {

/// Characters of each string of a sequence.
pub open spec fn strings_view(v: Seq<String>) -> Seq<Seq<char>> {
    v.map_values(|s: String| s@)
}

pub open spec fn opt_view(o: Option<String>) -> Option<Seq<char>> {
    match o {
        Some(s) => Some(s@),
        None => None,
    }
}

fn copy_strings(v: &Vec<String>) -> (r: Vec<String>)
    ensures
        strings_view(r@) == strings_view(v@),
{
    let mut r: Vec<String> = Vec::new();
    let mut i: usize = 0;
    while i < v.len()
        invariant
            i <= v@.len(),
            r@.len() == i,
            forall|j: int| 0 <= j < i ==> r@[j]@ == v@[j]@,
        decreases v@.len() - i,
    {
        let c: String = v[i].clone();
        r.push(c);
        i = i + 1;
    }
    assert(strings_view(r@) =~= strings_view(v@));
    r
}

fn copy_opt(o: &Option<String>) -> (r: Option<String>)
    ensures
        opt_view(r) == opt_view(*o),
{
    match o {
        Some(s) => Some(s.clone()),
        None => None,
    }
}

/// A named group of backend addresses.
#[derive(Debug)]
pub struct UpstreamConfig {
    pub name: String,
    pub server: Vec<String>,
}

impl View for UpstreamConfig {
    type V = (Seq<char>, Seq<Seq<char>>);

    open spec fn view(&self) -> (Seq<char>, Seq<Seq<char>>) {
        (self.name@, strings_view(self.server@))
    }
}

/// What a sequence of upstreams holds.
pub open spec fn upstreams_view(v: Seq<UpstreamConfig>) -> Seq<(Seq<char>, Seq<Seq<char>>)> {
    v.map_values(|u: UpstreamConfig| u@)
}

impl UpstreamConfig {
    pub fn new(name: String, server: Vec<String>) -> (r: UpstreamConfig)
        ensures
            r.name == name,
            r.server == server,
    {
        UpstreamConfig { name, server }
    }

    pub fn duplicate(&self) -> (r: UpstreamConfig)
        ensures
            r@ == self@,
    {
        UpstreamConfig { name: self.name.clone(), server: copy_strings(&self.server) }
    }
}

fn copy_upstreams(v: &Vec<UpstreamConfig>) -> (r: Vec<UpstreamConfig>)
    ensures
        upstreams_view(r@) == upstreams_view(v@),
{
    let mut r: Vec<UpstreamConfig> = Vec::new();
    let mut i: usize = 0;
    while i < v.len()
        invariant
            i <= v@.len(),
            r@.len() == i,
            forall|j: int| 0 <= j < i ==> r@[j]@ == v@[j]@,
        decreases v@.len() - i,
    {
        let u = v[i].duplicate();
        r.push(u);
        i = i + 1;
    }
    assert(upstreams_view(r@) =~= upstreams_view(v@));
    r
}

/// Whether `p` is a prefix of `s`.
pub open spec fn is_prefix(p: Seq<char>, s: Seq<char>) -> bool {
    p.len() <= s.len() && s.subrange(0, p.len() as int) == p
}

/// The identity of a location for reusing backend sessions: the fields of
/// its rule and target, not the upstreams that are copied into it.
#[derive(Debug)]
pub struct RouteKey {
    pub rule: String,
    pub method: Option<String>,
    pub reverse_proxy: Option<String>,
}

impl View for RouteKey {
    type V = (Seq<char>, Option<Seq<char>>, Option<Seq<char>>);

    open spec fn view(&self) -> (Seq<char>, Option<Seq<char>>, Option<Seq<char>>) {
        (self.rule@, opt_view(self.method), opt_view(self.reverse_proxy))
    }
}

/// Whether two strings hold the same characters.
pub fn same_chars(a: &str, b: &str) -> (r: bool)
    ensures
        r == (a@ == b@),
{
    let n = a.unicode_len();
    if n != b.unicode_len() {
        return false;
    }
    let mut i: usize = 0;
    while i < n
        invariant
            i <= n,
            n == a@.len(),
            n == b@.len(),
            a@.subrange(0, i as int) == b@.subrange(0, i as int),
        decreases n - i,
    {
        if a.get_char(i) != b.get_char(i) {
            assert(a@[i as int] != b@[i as int]);
            return false;
        }
        i = i + 1;
        assert(a@.subrange(0, i as int) =~= b@.subrange(0, i as int));
    }
    assert(a@ =~= a@.subrange(0, n as int));
    assert(b@ =~= b@.subrange(0, n as int));
    true
}

fn same_opt(a: &Option<String>, b: &Option<String>) -> (r: bool)
    ensures
        r == (opt_view(*a) == opt_view(*b)),
{
    match (a, b) {
        (Some(x), Some(y)) => same_chars(x.as_str(), y.as_str()),
        (None, None) => true,
        _ => false,
    }
}

impl RouteKey {
    /// Whether two keys name the same route.
    pub fn same(&self, other: &RouteKey) -> (r: bool)
        ensures
            r == (self@ == other@),
    {
        same_chars(self.rule.as_str(), other.rule.as_str()) && same_opt(&self.method, &other.method) && same_opt(
            &self.reverse_proxy,
            &other.reverse_proxy,
        )
    }
}

/// A path and method rule inside a virtual host, with the backend it sends to.
#[derive(Debug)]
pub struct LocationConfig {
    /// Prefix that the request's path must start with.
    pub rule: String,
    /// Method that the request must have; any when `None`.
    pub method: Option<String>,
    /// Backend address or upstream name that requests go to.
    pub reverse_proxy: Option<String>,
    pub upstream: Vec<UpstreamConfig>,
}

impl LocationConfig {
    pub open spec fn key_view(&self) -> (Seq<char>, Option<Seq<char>>, Option<Seq<char>>) {
        (self.rule@, opt_view(self.method), opt_view(self.reverse_proxy))
    }

    pub open spec fn matches(&self, path: Seq<char>, method: Seq<char>) -> bool {
        &&& is_prefix(self.rule@, path)
        &&& match self.method {
            Some(m) => m@ == method,
            None => true,
        }
    }

    pub fn new(rule: String, method: Option<String>, reverse_proxy: Option<String>) -> (r:
        LocationConfig)
        ensures
            r.rule == rule,
            r.method == method,
            r.reverse_proxy == reverse_proxy,
            r.upstream@.len() == 0,
    {
        LocationConfig { rule, method, reverse_proxy, upstream: Vec::new() }
    }

    /// Whether a request with this path and method belongs to the location.
    pub fn is_match_rule(&self, path: &str, method: &str) -> (r: bool)
        ensures
            r == self.matches(path@, method@),
    {
        let plen = path.unicode_len();
        let rlen = self.rule.as_str().unicode_len();
        if rlen > plen {
            return false;
        }
        let mut i: usize = 0;
        while i < rlen
            invariant
                i <= rlen,
                rlen == self.rule@.len(),
                plen == path@.len(),
                rlen <= plen,
                path@.subrange(0, i as int) == self.rule@.subrange(0, i as int),
            decreases rlen - i,
        {
            if self.rule.as_str().get_char(i) != path.get_char(i) {
                assert(path@.subrange(0, rlen as int)[i as int] != self.rule@[i as int]);
                return false;
            }
            i = i + 1;
            assert(path@.subrange(0, i as int) =~= self.rule@.subrange(0, i as int));
        }
        assert(self.rule@.subrange(0, rlen as int) =~= self.rule@);
        match &self.method {
            Some(m) => same_chars(m.as_str(), method),
            None => true,
        }
    }

    /// The key under which a backend session for this location is kept.
    pub fn clone_only_hash(&self) -> (r: RouteKey)
        ensures
            r@ == self.key_view(),
    {
        RouteKey {
            rule: self.rule.clone(),
            method: copy_opt(&self.method),
            reverse_proxy: copy_opt(&self.reverse_proxy),
        }
    }
}

/// `new` is `old` with the upstreams `extra` appended and nothing else changed.
pub open spec fn location_extended(
    new: LocationConfig,
    old: LocationConfig,
    extra: Seq<(Seq<char>, Seq<Seq<char>>)>,
) -> bool {
    &&& new.rule == old.rule
    &&& new.method == old.method
    &&& new.reverse_proxy == old.reverse_proxy
    &&& upstreams_view(new.upstream@) == upstreams_view(old.upstream@) + extra
}

/// A virtual host: its name for matching a request's host, its locations in
/// order, and the upstreams that its locations may use.
#[derive(Debug)]
pub struct ServerConfig {
    pub server_name: String,
    pub location: Vec<LocationConfig>,
    pub upstream: Vec<UpstreamConfig>,
}

impl ServerConfig {
    pub fn new(server_name: String) -> (r: ServerConfig)
        ensures
            r.server_name == server_name,
            r.location@.len() == 0,
            r.upstream@.len() == 0,
    {
        ServerConfig { server_name, location: Vec::new(), upstream: Vec::new() }
    }

    /// Hands the host's upstreams down: each location gets a copy of them
    /// after its own.
    pub fn copy_to_child(&mut self)
        ensures
            final(self).server_name == old(self).server_name,
            final(self).upstream == old(self).upstream,
            final(self).location@.len() == old(self).location@.len(),
            forall|j: int|
                0 <= j < old(self).location@.len() ==> location_extended(
                    #[trigger] final(self).location@[j],
                    old(self).location@[j],
                    upstreams_view(old(self).upstream@),
                ),
    {
        let mut rest: Vec<LocationConfig> = Vec::new();
        std::mem::swap(&mut self.location, &mut rest);
        let ghost orig = rest@;
        let n = rest.len();
        let mut i: usize = 0;
        while i < n
            invariant
                i <= n,
                n == orig.len(),
                orig == old(self).location@,
                rest@ == orig.subrange(i as int, n as int),
                self.location@.len() == i,
                self.server_name == old(self).server_name,
                self.upstream == old(self).upstream,
                forall|j: int|
                    0 <= j < i ==> location_extended(
                        #[trigger] self.location@[j],
                        orig[j],
                        upstreams_view(old(self).upstream@),
                    ),
            decreases n - i,
        {
            let mut l = rest.remove(0);
            assert(l == orig[i as int]);
            let mut extra = copy_upstreams(&self.upstream);
            let ghost before = l.upstream@;
            l.upstream.append(&mut extra);
            assert(upstreams_view(l.upstream@) =~= upstreams_view(before) + upstreams_view(
                self.upstream@,
            ));
            self.location.push(l);
            i = i + 1;
            assert(rest@ =~= orig.subrange(i as int, n as int));
        }
    }
}

/// Which location a request goes to, or why none.
#[derive(Debug, Clone, Copy, PartialEq, Eq, Structural)]
pub enum Route {
    /// Location `location` of virtual host `server`.
    Location { server: usize, location: usize },
    /// Virtual host `server` was picked and none of its locations matches.
    UnknownLocation { server: usize },
    /// No virtual host is configured.
    UnknownHost,
}

/// The configuration of the HTTP reverse proxy.
#[derive(Debug)]
pub struct HttpConfig {
    pub server: Vec<ServerConfig>,
    pub upstream: Vec<UpstreamConfig>,
}

impl HttpConfig {
    /// Whether virtual host `i` accepts a request for `host`: by its name,
    /// because the request names no host, or because it is the last one.
    pub open spec fn host_matches(&self, i: int, host: Seq<char>) -> bool {
        self.server@[i].server_name@ == host || host.len() == 0 || i == self.server@.len() - 1
    }

    /// Virtual host `i` is the first that accepts `host`.
    pub open spec fn picks_server(&self, i: int, host: Seq<char>) -> bool {
        &&& 0 <= i < self.server@.len()
        &&& self.host_matches(i, host)
        &&& forall|k: int| 0 <= k < i ==> !self.host_matches(k, host)
    }

    /// Location `j` is the first of virtual host `i` that takes the request.
    pub open spec fn picks_location(&self, i: int, j: int, path: Seq<char>, method: Seq<char>) -> bool {
        let locs = self.server@[i].location@;
        &&& 0 <= j < locs.len()
        &&& locs[j].matches(path, method)
        &&& forall|k: int| 0 <= k < j ==> !locs[k].matches(path, method)
    }

    pub fn new() -> (r: HttpConfig)
        ensures
            r.server@.len() == 0,
            r.upstream@.len() == 0,
    {
        HttpConfig { server: Vec::new(), upstream: Vec::new() }
    }

    /// Hands the shared upstreams down: each virtual host gets a copy of them
    /// after its own, and then hands its upstreams down to its locations.
    pub fn copy_to_child(&mut self)
        ensures
            final(self).upstream == old(self).upstream,
            final(self).server@.len() == old(self).server@.len(),
            forall|i: int|
                #![trigger final(self).server@[i]]
                0 <= i < old(self).server@.len() ==> {
                    let s = final(self).server@[i];
                    let o = old(self).server@[i];
                    &&& s.server_name == o.server_name
                    &&& upstreams_view(s.upstream@) == upstreams_view(o.upstream@)
                        + upstreams_view(old(self).upstream@)
                    &&& s.location@.len() == o.location@.len()
                    &&& forall|j: int|
                        0 <= j < o.location@.len() ==> location_extended(
                            #[trigger] s.location@[j],
                            o.location@[j],
                            upstreams_view(s.upstream@),
                        )
                },
    {
        let mut rest: Vec<ServerConfig> = Vec::new();
        std::mem::swap(&mut self.server, &mut rest);
        let ghost orig = rest@;
        let n = rest.len();
        let mut i: usize = 0;
        while i < n
            invariant
                i <= n,
                n == orig.len(),
                orig == old(self).server@,
                rest@ == orig.subrange(i as int, n as int),
                self.server@.len() == i,
                self.upstream == old(self).upstream,
                forall|k: int|
                    #![trigger self.server@[k]]
                    0 <= k < i ==> {
                        let s = self.server@[k];
                        let o = orig[k];
                        &&& s.server_name == o.server_name
                        &&& upstreams_view(s.upstream@) == upstreams_view(o.upstream@)
                            + upstreams_view(old(self).upstream@)
                        &&& s.location@.len() == o.location@.len()
                        &&& forall|j: int|
                            0 <= j < o.location@.len() ==> location_extended(
                                #[trigger] s.location@[j],
                                o.location@[j],
                                upstreams_view(s.upstream@),
                            )
                    },
            decreases n - i,
        {
            let mut s = rest.remove(0);
            assert(s == orig[i as int]);
            let mut extra = copy_upstreams(&self.upstream);
            let ghost before = s.upstream@;
            s.upstream.append(&mut extra);
            assert(upstreams_view(s.upstream@) =~= upstreams_view(before) + upstreams_view(
                self.upstream@,
            ));
            s.copy_to_child();
            self.server.push(s);
            i = i + 1;
            assert(rest@ =~= orig.subrange(i as int, n as int));
        }
    }

    /// Picks the location for a request: the first virtual host that accepts
    /// its host, then the first location of that host whose rule takes its
    /// path and method.
    pub fn resolve(&self, host: &str, path: &str, method: &str) -> (r: Route)
        ensures
            match r {
                Route::Location { server, location } => self.picks_server(server as int, host@)
                    && self.picks_location(server as int, location as int, path@, method@),
                Route::UnknownLocation { server } => self.picks_server(server as int, host@)
                    && forall|j: int|
                    0 <= j < self.server@[server as int].location@.len()
                        ==> !#[trigger] self.server@[server as int].location@[j].matches(
                        path@,
                        method@,
                    ),
                Route::UnknownHost => self.server@.len() == 0,
            },
    {
        let n = self.server.len();
        let empty_host = host.unicode_len() == 0;
        let mut i: usize = 0;
        while i < n
            invariant
                i <= n,
                n == self.server@.len(),
                empty_host == (host@.len() == 0),
                forall|k: int| 0 <= k < i ==> !self.host_matches(k, host@),
            decreases n - i,
        {
            let s = &self.server[i];
            if same_chars(s.server_name.as_str(), host) || empty_host || i == n - 1 {
                let m = s.location.len();
                let mut j: usize = 0;
                while j < m
                    invariant
                        j <= m,
                        i < n,
                        n == self.server@.len(),
                        *s == self.server@[i as int],
                        self.host_matches(i as int, host@),
                        forall|k: int| 0 <= k < i ==> !self.host_matches(k, host@),
                        m == self.server@[i as int].location@.len(),
                        forall|k: int|
                            0 <= k < j ==> !#[trigger] self.server@[i as int].location@[k].matches(
                                path@,
                                method@,
                            ),
                    decreases m - j,
                {
                    if s.location[j].is_match_rule(path, method) {
                        return Route::Location { server: i, location: j };
                    }
                    j = j + 1;
                }
                return Route::UnknownLocation { server: i };
            }
            i = i + 1;
        }
        if n > 0 {
            assert(self.host_matches(n - 1, host@));
        }
        Route::UnknownHost
    }
}

} // verus!
